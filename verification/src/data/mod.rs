use vstd::prelude::*;

pub mod door_data;
pub mod interactions_data;
pub mod npc_data;
pub mod object_data;
pub mod room_data;
pub mod trigger_data;
pub mod validate;

use interactions_data::InteractionData;
use npc_data::NpcData;
use object_data::ObjectData;
use room_data::RoomData;
use trigger_data::TriggerData;

verus! {

/// The whole authored world: flags set at the start, object and room
/// definitions, data interactions, NPCs and triggers.
#[derive(Debug)]
pub struct WorldData {
    pub flags: Vec<String>,
    pub objects: Vec<ObjectData>,
    pub rooms: Vec<RoomData>,
    pub interactions: Vec<InteractionData>,
    pub npcs: Vec<NpcData>,
    pub triggers: Vec<TriggerData>,
}

} // verus!
