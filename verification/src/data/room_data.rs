use vstd::prelude::*;

use crate::keys::{ObjectId, RoomId};

verus! {

/// A single room definition from world data: its key and the keys of the
/// objects it holds, visible and hidden.
#[derive(Debug)]
pub struct RoomData {
    pub id: RoomId,
    pub visible_objects: Vec<ObjectId>,
    pub hidden_objects: Vec<ObjectId>,
}

} // verus!
