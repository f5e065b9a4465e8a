use vstd::prelude::*;

use crate::keys::{NpcId, ObjectId, Resolution};

verus! {

/// A resolved `Use`-with target: either a world object or an NPC in the
/// current room.
///
/// NPCs are deliberately *not* objects (there is no coercion between the two
/// types) but a use-with target may be either.
#[derive(Debug)]
pub enum Target {
    /// A world object.
    Object(ObjectId),
    /// An NPC in the current room.
    Npc(NpcId),
}

/// Two targets denote the same thing: same variant, same key.
pub open spec fn same_target(a: Target, b: Target) -> bool {
    match (a, b) {
        (Target::Object(x), Target::Object(y)) => x@ == y@,
        (Target::Npc(x), Target::Npc(y)) => x@ == y@,
        _ => false,
    }
}

impl Clone for Target {
    fn clone(&self) -> (copy: Self)
        ensures
            copy == *self,
    {
        match self {
            Target::Object(id) => Target::Object(id.clone()),
            Target::Npc(id) => Target::Npc(id.clone()),
        }
    }
}

impl PartialEq for Target {
    fn eq(&self, other: &Self) -> (same: bool) {
        match (self, other) {
            (Target::Object(x), Target::Object(y)) => *x == *y,
            (Target::Npc(x), Target::Npc(y)) => *x == *y,
            _ => false,
        }
    }
}

impl Eq for Target {}

impl vstd::std_specs::cmp::PartialEqSpecImpl for Target {
    open spec fn obeys_eq_spec() -> bool {
        true
    }

    open spec fn eq_spec(&self, other: &Target) -> bool {
        same_target(*self, *other)
    }
}

/// Outcome of resolving a player-typed noun against a use-with target
/// (object or NPC) in scope.
pub type TargetResolution = Resolution<Target>;

/// A structural *world-position* class a use-with target can belong to.
/// Properties of a target (door-ness, lock state, ...) are expressed as
/// conditions, not kinds.
#[derive(Debug, Clone, Copy, PartialEq, Eq, Structural)]
pub enum TargetKind {
    /// A scene object (stays in the world; every door is one).
    Scene,
    /// An object currently in the player's inventory.
    Carried,
}

/// Coarse structural filter deciding which targets an interaction applies
/// to: arity (`Any` vs `Targeted`) and world-position (`Kind`).
#[derive(Debug, Clone, Copy, PartialEq, Eq, Structural)]
pub enum TargetFilter {
    /// Any target, including no target at all (self-use).
    Any,
    /// Only a targeted interaction (use X on Y); no self-use.
    Targeted,
    /// Only use-with on a target of this structural world-position kind.
    Kind(TargetKind),
}

} // verus!
