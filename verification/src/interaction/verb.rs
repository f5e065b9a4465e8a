use vstd::prelude::*;

use crate::input::action::Action;

verus! {

/// The game's action vocabulary. An author writes interactions *for a verb*,
/// and a point-and-click front-end can enumerate the verbs an object accepts
/// instead of guessing from prose.
#[derive(Debug, Clone, Copy, PartialEq, Eq, Structural, Hash)]
pub enum Verb {
    Look,
    Go,
    Examine,
    Take,
    Drop,
    Use,
    Talk,
}

/// The verb an action maps to: every actionable variant has one, `Choose`
/// and `Unknown` have none.
pub open spec fn verb_of_action(action: Action) -> Option<Verb> {
    match action {
        Action::Look => Some(Verb::Look),
        Action::Go(_) => Some(Verb::Go),
        Action::Examine(_) => Some(Verb::Examine),
        Action::Take(_) => Some(Verb::Take),
        Action::Drop(_) => Some(Verb::Drop),
        Action::Use { .. } => Some(Verb::Use),
        Action::Talk(_) => Some(Verb::Talk),
        Action::Choose(_) => None,
        Action::Unknown(_) => None,
    }
}

impl Verb {
    /// The verb a parsed [`Action`] maps to, when it maps to one at all.
    ///
    /// `Unknown` actions have no verb; `Use` with or without a target is the
    /// same verb (the target lives in the context, not the verb).
    pub fn from_action(action: &Action) -> (verb: Option<Verb>)
        ensures
            verb == verb_of_action(*action),
    {
        match action {
            Action::Look => Some(Verb::Look),
            Action::Go(_) => Some(Verb::Go),
            Action::Examine(_) => Some(Verb::Examine),
            Action::Take(_) => Some(Verb::Take),
            Action::Drop(_) => Some(Verb::Drop),
            Action::Use { .. } => Some(Verb::Use),
            Action::Talk(_) => Some(Verb::Talk),
            Action::Choose(_) => None,
            Action::Unknown(_) => None,
        }
    }
}

} // verus!
