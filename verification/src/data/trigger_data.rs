use vstd::prelude::*;

use crate::data::interactions_data::{clone_conditions, clone_effects, DataCondition, DataEffect};
use crate::keys::TriggerId;

verus! {

/// An authored world trigger: once every condition holds after some player
/// action, its effects run, at most once per game.
#[derive(Debug)]
pub struct TriggerData {
    pub id: TriggerId,
    pub condition: Vec<DataCondition>,
    pub effect: Vec<DataEffect>,
}

impl Clone for TriggerData {
    fn clone(&self) -> (copy: Self)
        ensures
            copy.id == self.id,
            copy.condition@ == self.condition@,
            copy.effect@ == self.effect@,
    {
        TriggerData {
            id: self.id.clone(),
            condition: clone_conditions(&self.condition),
            effect: clone_effects(&self.effect),
        }
    }
}

} // verus!
