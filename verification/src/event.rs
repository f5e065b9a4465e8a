use vstd::prelude::*;

use crate::input::direction::Direction;
use crate::interaction::Target;
use crate::keys::{DialogueNodeId, DialogueOptionId, NpcId, ObjectId};
use crate::world::npc::{DialogueChoice as NpcDialogueChoice, Npc};

verus! {

/// Structured result of executing an `Action` against the world.
///
/// A UI consumes these events and decides how to present them. The engine
/// never produces prose; keeping this as a typed enum is what lets a text
/// UI, a GUI, or any other front-end share the same game logic.
#[derive(Debug, PartialEq, Eq)]
#[allow(inconsistent_fields)]
pub enum Event {
    UnknownEvent { name: String },
    /// An opaque, game-authored beat, emitted by custom rules or an `Emit`
    /// interaction effect.
    Custom { name: String },
    /// The player looked around the current room.
    Looked,
    /// The player moved in a direction.
    Went(Direction),
    WentExitHidden(Direction),
    WentExitLocked(Direction),
    WentInvalidDirection(Direction),
    /// The player went through a door reached by name or id.
    Entered { object_id: ObjectId, object: String },
    EnteredExitLocked { object_id: ObjectId, object: String },
    EnteredTargetNotFound { target: String },
    EnteredTargetAmbiguous { target_ids: Vec<Target>, target: String },
    /// The named target of an `enter` is not a door.
    CantEnter { target: String },
    UnlockedExit { direction: Direction },
    /// The player took an object into inventory.
    Took { object_id: ObjectId, object: String },
    TookObjectNotFound { object: String },
    TookObjectAmbiguous { object_ids: Vec<ObjectId>, object: String },
    /// The player tried to take a scene object; only items are portable.
    CantTake { object: String },
    /// The object was granted into inventory, regardless of where (if
    /// anywhere) it was placed in the world.
    Granted { object_id: ObjectId, object: String },
    /// The player dropped an object from inventory.
    Dropped { object_id: ObjectId, object: String },
    DroppedObjectNotFound { object: String },
    DroppedObjectAmbiguous { object_ids: Vec<ObjectId>, object: String },
    /// The object was removed from inventory without being placed anywhere.
    Discarded { object_id: ObjectId, object: String },
    /// The player used one object, optionally on a target (object or NPC).
    Used { object_id: ObjectId, object: String, target_id: Option<Target>, target: Option<String> },
    UsedObjectNotFound { object: String },
    UsedObjectAmbiguous { object_ids: Vec<ObjectId>, object: String },
    UsedTargetNeeded { object_id: ObjectId, object: String },
    UsedTargetNotFound { object_id: ObjectId, object: String, target: String },
    UsedTargetAmbiguous {
        object_id: ObjectId,
        object: String,
        target_ids: Vec<Target>,
        target: String,
    },
    /// The entities resolved but the combination does not apply.
    CannotUse { item: String, target: String },
    Examined { target: Target, target_name: String },
    ExaminedTargetNotFound { target: String },
    ExaminedTargetAmbiguous { target_ids: Vec<Target>, target: String },
    FlagSet { flag: String },
    FlagCleared { flag: String },
    /// The player initiated or advanced a dialogue with an NPC.
    Talked {
        npc_id: NpcId,
        npc: String,
        node_id: DialogueNodeId,
        text: String,
        choices: Vec<DialogueChoice>,
    },
    /// A dialogue conversation ended.
    DialogueEnded { npc_id: NpcId, npc: String },
    /// No NPC by that name was found in the current room.
    TalkNpcNotFound { npc: String },
    /// The player's choice didn't match any available dialogue option.
    DialogueInvalidChoice { npc: String, choice: String },
}

/// A player choice presented inside an [`Event::Talked`] event.
#[derive(Debug, PartialEq, Eq)]
pub struct DialogueChoice {
    /// The stable authored id of the choice, if one was declared.
    pub option_id: Option<DialogueOptionId>,
    pub label: String,
    /// The next node id, or `None` to terminate the conversation.
    pub next: Option<DialogueNodeId>,
}

/// `presented` shows the runtime choice `choice`.
pub open spec fn presents_choice(choice: NpcDialogueChoice, presented: DialogueChoice) -> bool {
    &&& presented.option_id == choice.option_id
    &&& presented.label == choice.label
    &&& presented.next == choice.next
}

/// `e` is the `Talked` event showing `node_id` of `npc`, whose node there is
/// `node`.
pub open spec fn talked_spec(npc: Npc, node_id: DialogueNodeId, e: Event) -> bool {
    match npc.dialogue.node(node_id@) {
        Some(node) => e matches Event::Talked { npc_id, npc: name, node_id: nid, text, choices } && {
            &&& npc_id == npc.id
            &&& name@ == npc.primary_name@
            &&& nid == node_id
            &&& text@ == node.text@
            &&& choices@.len() == node.choices@.len()
            &&& forall|i: int|
                0 <= i < node.choices@.len() ==> presents_choice(
                    node.choices@[i],
                    #[trigger] choices@[i],
                )
        },
        None => false,
    }
}

/// `e` is the `DialogueEnded` event for `npc`.
pub open spec fn dialogue_ended_spec(npc: Npc, e: Event) -> bool {
    e matches Event::DialogueEnded { npc_id, npc: name } && npc_id == npc.id && name@
        == npc.primary_name@
}

impl Event {
    /// Build a `Talked` event showing `node_id` of `npc`'s dialogue, or
    /// `None` if the node is not part of the graph.
    pub fn talked(npc: &Npc, node_id: &DialogueNodeId) -> (event: Option<Event>)
        ensures
            match npc.dialogue.node(node_id@) {
                Some(_) => event matches Some(e) && talked_spec(*npc, *node_id, e),
                None => event is None,
            },
    {
        let node = match npc.dialogue_node(node_id) {
            Some(node) => node,
            None => return None,
        };
        let mut choices: Vec<DialogueChoice> = Vec::new();
        let mut i: usize = 0;
        while i < node.choices.len()
            invariant
                i <= node.choices@.len(),
                choices@.len() == i,
                forall|k: int|
                    0 <= k < i ==> presents_choice(node.choices@[k], #[trigger] choices@[k]),
            decreases node.choices@.len() - i,
        {
            choices.push(DialogueChoice::from(&node.choices[i]));
            i = i + 1;
        }
        Some(
            Event::Talked {
                npc_id: npc.id.clone(),
                npc: String::from_str(npc.primary_name()),
                node_id: node_id.clone(),
                text: String::from_str(node.text()),
                choices,
            },
        )
    }

    /// Build a `DialogueEnded` event for `npc`.
    pub fn dialogue_ended(npc: &Npc) -> (event: Event)
        ensures
            dialogue_ended_spec(*npc, event),
    {
        Event::DialogueEnded { npc_id: npc.id.clone(), npc: String::from_str(npc.primary_name()) }
    }
}

/// Bridge from the runtime dialogue choice model to the event payload.
impl DialogueChoice {
    pub fn from(choice: &NpcDialogueChoice) -> (presented: Self)
        ensures
            presents_choice(*choice, presented),
    {
        DialogueChoice {
            option_id: match &choice.option_id {
                Some(id) => Some(id.clone()),
                None => None,
            },
            label: choice.label.clone(),
            next: match &choice.next {
                Some(id) => Some(id.clone()),
                None => None,
            },
        }
    }
}

} // verus!
