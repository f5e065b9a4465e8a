use vstd::prelude::*;

verus! {

/// Optional door data on a scene object: the compass direction it occupies
/// (as authored text), the key of the room it leads to, and its lock state.
#[derive(Debug)]
pub struct DoorData {
    pub direction: String,
    pub to: String,
    pub locked: bool,
}

} // verus!
