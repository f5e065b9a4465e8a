use vstd::prelude::*;

use crate::input::direction::Direction;
use crate::interaction::Target;
use crate::keys::{NpcId, ObjectId};

verus! {

/// A parsed, structured player command, independent of the exact wording.
///
/// Produced by [`parse_input`](crate::input::parse_input) from a text line and
/// passed to [`GameEngine::execute_action`](crate::engine::GameEngine::execute_action).
/// A front-end can also construct one directly.
///
/// Every targeted verb carries a [`Locator`] rather than a bare name: a text
/// parser only ever has a typed noun to give (`Locator::Name`), resolved
/// against the world at execution time; a point-and-click front-end that
/// already knows the concrete id can supply it directly (`Locator::Id`).
#[derive(Debug, PartialEq, Eq)]
pub enum Action {
    /// The player looked around the current room.
    Look,
    /// The player moved towards a direction, or entered a named/clicked exit.
    Go(GoTarget),
    /// The player examined the thing referenced by the locator.
    Examine(Locator<Target>),
    /// The player tried to pick up the item referenced by the locator.
    Take(Locator<ObjectId>),
    /// The player tried to drop the item referenced by the locator.
    Drop(Locator<ObjectId>),
    /// The player used an item, optionally on a target.
    Use { item: Locator<ObjectId>, target: Option<Locator<Target>> },
    /// The player initiated a dialogue with an NPC.
    Talk(Locator<NpcId>),
    /// The player chose a dialogue option (by index or label).
    Choose(String),
    /// A command that matched no known action.
    Unknown(String),
}

/// A reference to something an [`Action`] targets: the raw name a text
/// parser typed, or a concrete id a caller already knows.
#[derive(Debug, PartialEq, Eq)]
pub enum Locator<Id> {
    /// A player-typed noun, resolved against the world at execution time.
    Name(String),
    /// An id the caller already knows is the intended target.
    Id(Id),
}

/// Where a `Go` action leads: a compass direction, a named exit, or an
/// exit's door object referenced directly by id.
#[derive(Debug, PartialEq, Eq)]
pub enum GoTarget {
    Direction(Direction),
    Named(String),
    Id(ObjectId),
}

/// Outcome of a world mutation attempt: taking, granting, discarding, or
/// dropping an object, or moving the player to another room. Every such
/// attempt is a plain success-or-no-op.
#[derive(Debug, Clone, Copy, PartialEq, Eq, Structural)]
pub enum Outcome {
    Success,
    Fail,
}

} // verus!
