//! A small text-adventure engine: a game state that turns typed commands
//! into structured events, with every rule of the game proved against its
//! contract.
//!
//! - [`input`] turns a line of text into an [`input::action::Action`].
//! - [`engine::GameEngine`] resolves the action against the
//!   [`world::WorldState`], runs the [`rules::Rules`] hook for it and then
//!   the world's triggers, and returns the [`event::Event`]s that happened.
//! - [`data`] holds the authored world and checks it before play.
//! - [`view::View`] turns events into screen output, read-only.
use vstd::prelude::*;

pub mod data;
pub mod engine;
pub mod event;
pub mod input;
pub mod rules;
pub mod interaction;
pub mod keys;
pub mod text;
pub mod trigger;
pub mod view;
pub mod world;

verus! {

} // verus!
