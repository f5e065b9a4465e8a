use vstd::prelude::*;

use crate::input::direction::Direction;
use crate::interaction::Verb;
use crate::keys::{NpcId, ObjectId, RoomId};

verus! {

/// A single authored interaction shipped in world data instead of code: when
/// the player does *verb* with *object* (optionally on a *target*) and every
/// `condition` holds, run every `effect` in order.
#[derive(Debug)]
pub struct InteractionData {
    pub verb: Verb,
    pub item: Option<ObjectId>,
    pub target: Option<DataTarget>,
    pub condition: Vec<DataCondition>,
    pub effect: Vec<DataEffect>,
}

/// A target spec for a data interaction. Omitted, it matches only a
/// self-use (no target).
#[derive(Debug)]
pub enum DataTarget {
    /// Only the exact object with this id.
    Object { object: ObjectId },
    /// Only the exact NPC with this id (a "use item on guard" target).
    Npc { npc: NpcId },
    /// Any target of the coarse structural kind.
    Kind { kind: DataTargetKind },
}

/// Coarse *structural* target kind. Properties of a target (door-ness, lock
/// state, ...) are expressed as conditions, not kinds.
#[derive(Debug, Clone, Copy, PartialEq, Eq, Structural)]
pub enum DataTargetKind {
    /// A scene object (stays in the world; every door is one).
    Scene,
}

/// A pure predicate over the world and interaction context. Conditions AND
/// together; they guard dispatch *and* the `interactions_for` query.
#[derive(Debug)]
pub enum DataCondition {
    /// The player's current room has this key.
    Room { room: RoomId },
    /// The player is carrying this object.
    PlayerHolds { player_holds: ObjectId },
    /// The exit in `direction` from the current room is locked.
    ExitLocked { exit_locked: Direction },
    /// The exit in `direction` from the current room is hidden.
    ExitHidden { exit_hidden: Direction },
    /// The (present) target's door-ness equals the value.
    IsDoor { is_door: bool },
    /// The global flag is enabled.
    Flag { flag: String },
    /// Negation of any condition.
    Not { not: Box<DataCondition> },
}

/// An effect a data interaction runs when it fires. Effects run in order and
/// own the world mutation; silent effects emit no event.
#[derive(Debug)]
pub enum DataEffect {
    /// Emit a game-authored beat: `Event::Custom { name }`.
    Emit { emit: String },
    /// Move an object from the current room into inventory: `Event::Took`.
    Take { take: ObjectId },
    /// Add an object into inventory: `Event::Granted`.
    Grant { grant: ObjectId },
    /// Move a carried object into the current room: `Event::Dropped`.
    Drop { drop: ObjectId },
    /// Remove an object from inventory: `Event::Discarded`.
    Discard { discard: ObjectId },
    /// Unlock the exit in `direction` from the current room:
    /// `Event::UnlockedExit`.
    UnlockExit { unlock_exit: Direction },
    /// Lock the exit in `direction` from the current room (silent).
    LockExit { lock_exit: Direction },
    /// Reveal the hidden door standing in `direction` (silent).
    RevealExit { reveal_exit: Direction },
    /// Hide the door standing in `direction` (silent).
    HideExit { hide_exit: Direction },
    /// Move an object from the current room's hidden set to visible (silent).
    RevealObject { reveal_object: ObjectId },
    /// Move an object from the current room's visible set to hidden (silent).
    HideObject { hide_object: ObjectId },
    /// Set a global flag.
    SetFlag { flag: String },
    /// Clear a global flag.
    ClearFlag { flag: String },
}

impl Clone for DataTarget {
    fn clone(&self) -> (copy: Self)
        ensures
            copy == *self,
    {
        match self {
            DataTarget::Object { object } => DataTarget::Object { object: object.clone() },
            DataTarget::Npc { npc } => DataTarget::Npc { npc: npc.clone() },
            DataTarget::Kind { kind } => DataTarget::Kind { kind: *kind },
        }
    }
}

impl Clone for DataCondition {
    fn clone(&self) -> (copy: Self)
        ensures
            copy == *self,
        decreases self,
    {
        match self {
            DataCondition::Room { room } => DataCondition::Room { room: room.clone() },
            DataCondition::PlayerHolds { player_holds } => DataCondition::PlayerHolds {
                player_holds: player_holds.clone(),
            },
            DataCondition::ExitLocked { exit_locked } => DataCondition::ExitLocked {
                exit_locked: *exit_locked,
            },
            DataCondition::ExitHidden { exit_hidden } => DataCondition::ExitHidden {
                exit_hidden: *exit_hidden,
            },
            DataCondition::IsDoor { is_door } => DataCondition::IsDoor { is_door: *is_door },
            DataCondition::Flag { flag } => DataCondition::Flag { flag: flag.clone() },
            DataCondition::Not { not } => {
                let inner: &DataCondition = not;
                DataCondition::Not { not: Box::new(inner.clone()) }
            },
        }
    }
}

impl Clone for DataEffect {
    fn clone(&self) -> (copy: Self)
        ensures
            copy == *self,
    {
        match self {
            DataEffect::Emit { emit } => DataEffect::Emit { emit: emit.clone() },
            DataEffect::Take { take } => DataEffect::Take { take: take.clone() },
            DataEffect::Grant { grant } => DataEffect::Grant { grant: grant.clone() },
            DataEffect::Drop { drop } => DataEffect::Drop { drop: drop.clone() },
            DataEffect::Discard { discard } => DataEffect::Discard { discard: discard.clone() },
            DataEffect::UnlockExit { unlock_exit } => DataEffect::UnlockExit {
                unlock_exit: *unlock_exit,
            },
            DataEffect::LockExit { lock_exit } => DataEffect::LockExit { lock_exit: *lock_exit },
            DataEffect::RevealExit { reveal_exit } => DataEffect::RevealExit {
                reveal_exit: *reveal_exit,
            },
            DataEffect::HideExit { hide_exit } => DataEffect::HideExit { hide_exit: *hide_exit },
            DataEffect::RevealObject { reveal_object } => DataEffect::RevealObject {
                reveal_object: reveal_object.clone(),
            },
            DataEffect::HideObject { hide_object } => DataEffect::HideObject {
                hide_object: hide_object.clone(),
            },
            DataEffect::SetFlag { flag } => DataEffect::SetFlag { flag: flag.clone() },
            DataEffect::ClearFlag { flag } => DataEffect::ClearFlag { flag: flag.clone() },
        }
    }
}

/// A copy of a list of effects.
pub fn clone_effects(effects: &Vec<DataEffect>) -> (copy: Vec<DataEffect>)
    ensures
        copy@ == effects@,
{
    let copy = effects.clone();
    assert forall|i: int| 0 <= i < effects@.len() implies copy@[i] == effects@[i] by {
        assert(vstd::pervasive::cloned(effects[i], copy[i]));
    }
    assert(copy@ =~= effects@);
    copy
}

/// A copy of a list of conditions.
pub fn clone_conditions(conditions: &Vec<DataCondition>) -> (copy: Vec<DataCondition>)
    ensures
        copy@ == conditions@,
{
    let copy = conditions.clone();
    assert forall|i: int| 0 <= i < conditions@.len() implies copy@[i] == conditions@[i] by {
        assert(vstd::pervasive::cloned(conditions[i], copy[i]));
    }
    assert(copy@ =~= conditions@);
    copy
}

impl Clone for InteractionData {
    fn clone(&self) -> (copy: Self)
        ensures
            copy.verb == self.verb,
            copy.item == self.item,
            copy.target == self.target,
            copy.condition@ == self.condition@,
            copy.effect@ == self.effect@,
    {
        InteractionData {
            verb: self.verb,
            item: match &self.item {
                Some(id) => Some(id.clone()),
                None => None,
            },
            target: match &self.target {
                Some(t) => Some(t.clone()),
                None => None,
            },
            condition: clone_conditions(&self.condition),
            effect: clone_effects(&self.effect),
        }
    }
}

} // verus!
