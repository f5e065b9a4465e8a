use vstd::prelude::*;

use crate::interaction::target::Target;
use crate::interaction::verb::Verb;
use crate::keys::{NpcId, ObjectId};

verus! {

/// Runtime context handed to an interaction: the verb, which object was
/// used/dropped, and which target (if any) the verb was directed at.
///
/// For `use X on Y`: `item` is the carried `X`, `target` is the resolved `Y`
/// (object or NPC). For a self-use (`use X`), `target` is `None`.
#[derive(Debug)]
pub struct ActionContext {
    pub verb: Option<Verb>,
    pub item: Option<ObjectId>,
    pub target: Option<Target>,
}

/// The object a context's target denotes, when the target is an object.
pub open spec fn target_object_spec(context: ActionContext) -> Option<ObjectId> {
    match context.target {
        Some(Target::Object(id)) => Some(id),
        _ => None,
    }
}

impl ActionContext {
    pub fn new(verb: Option<Verb>, item: Option<ObjectId>, target: Option<Target>) -> (context:
        Self)
        ensures
            context.verb == verb,
            context.item == item,
            context.target == target,
    {
        ActionContext { verb, item, target }
    }

    /// The object this context's target denotes, when the target is an
    /// object.
    pub fn target_object(&self) -> (id: Option<&ObjectId>)
        ensures
            match target_object_spec(*self) {
                Some(x) => id == Some(&x),
                None => id is None,
            },
    {
        match &self.target {
            Some(Target::Object(id)) => Some(id),
            _ => None,
        }
    }

    /// The NPC this context's target denotes, when the target is an NPC.
    pub fn target_npc(&self) -> (id: Option<&NpcId>)
        ensures
            match self.target {
                Some(Target::Npc(x)) => id == Some(&x),
                _ => id is None,
            },
    {
        match &self.target {
            Some(Target::Npc(id)) => Some(id),
            _ => None,
        }
    }
}

} // verus!
