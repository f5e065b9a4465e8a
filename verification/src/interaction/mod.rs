pub mod action_context;
pub mod data_interactions;
pub mod interaction;
pub mod target;
pub mod verb;

pub use action_context::ActionContext;
pub use target::{Target, TargetFilter, TargetKind, TargetResolution};
pub use verb::Verb;
