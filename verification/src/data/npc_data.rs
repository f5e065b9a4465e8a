use vstd::prelude::*;

use crate::data::interactions_data::DataEffect;
use crate::keys::{DialogueNodeId, DialogueOptionId, NpcId, RoomId};

verus! {

/// A single NPC definition from world data. Each NPC lives in a specific
/// room and carries an inline dialogue graph.
#[derive(Debug)]
pub struct NpcData {
    pub id: NpcId,
    pub primary_name: String,
    pub aliases: Vec<String>,
    pub room: RoomId,
    pub dialogue: DialogueData,
}

/// The dialogue graph for an NPC: a root node id and its named nodes, in
/// authored order.
#[derive(Debug)]
pub struct DialogueData {
    pub root: DialogueNodeId,
    pub nodes: Vec<(DialogueNodeId, DialogueNodeData)>,
}

/// A single node in a dialogue graph: the NPC's line and the player's choices.
#[derive(Debug)]
pub struct DialogueNodeData {
    pub text: String,
    pub choices: Vec<DialogueChoiceData>,
}

/// A player choice within a dialogue node: an optional stable id, a label,
/// the next node (or `.end` to terminate the conversation), and effects that
/// run when the choice is selected.
#[derive(Debug)]
pub struct DialogueChoiceData {
    pub option_id: Option<DialogueOptionId>,
    pub label: String,
    pub next: DialogueNodeId,
    pub effect: Vec<DataEffect>,
}

} // verus!
