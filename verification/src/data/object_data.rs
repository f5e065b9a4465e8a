use vstd::prelude::*;

use crate::data::door_data::DoorData;
use crate::keys::ObjectId;

verus! {

/// The two object kinds of the Visionaire model:
///
/// * [`Item`](Self::Item): an inventory object, portable, carried in
///   inventory, taken from a room (a key, a sword).
/// * [`Scene`](Self::Scene): a scene object, stays in the world, is
///   clickable/examinable but not portable (furniture, fixtures, and every
///   door). A door is just a Scene object with optional `door` data.
///
/// The kind defaults to `Item` when omitted from world data.
#[derive(Debug, Clone, Copy, PartialEq, Eq, Structural)]
pub enum ObjectKind {
    Item,
    Scene,
}

impl Default for ObjectKind {
    fn default() -> (kind: Self)
        ensures
            kind == ObjectKind::Item,
    {
        ObjectKind::Item
    }
}

/// A single object definition from world data.
#[derive(Debug)]
pub struct ObjectData {
    pub id: ObjectId,
    pub primary_name: String,
    pub aliases: Vec<String>,
    pub kind: ObjectKind,
    pub door: Option<DoorData>,
}

} // verus!
