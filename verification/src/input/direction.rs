use vstd::prelude::*;

use crate::text::str_eq;

verus! {

/// A compass direction the player can move in.
#[derive(Debug, Clone, Copy, PartialEq, Eq, Structural, Hash)]
pub enum Direction {
    /// Moves the player "up" the screen / north.
    North,
    /// Moves the player "down" the screen / south.
    South,
    /// Moves the player to the right of the screen / east.
    East,
    /// Moves the player to the left of the screen / west.
    West,
}

/// Outcome of revealing, hiding, locking or unlocking an exit in a given
/// direction.
///
/// [`Found`](Self::Found) carries the direction that was affected, signalling
/// success; [`NotFound`](Self::NotFound) means no exit was acted on.
#[derive(Debug, Clone, Copy, PartialEq, Eq, Structural)]
pub enum DirectionResolution {
    /// An exit was present in `direction` and was changed.
    Found(Direction),
    /// There was no exit in that direction to act on.
    NotFound,
}

/// The direction a player-typed word names: the full word or its one-letter
/// abbreviation, case-sensitively.
pub open spec fn parse_direction(raw: Seq<char>) -> Option<Direction> {
    if raw == "n"@ || raw == "north"@ {
        Some(Direction::North)
    } else if raw == "s"@ || raw == "south"@ {
        Some(Direction::South)
    } else if raw == "w"@ || raw == "west"@ {
        Some(Direction::West)
    } else if raw == "e"@ || raw == "east"@ {
        Some(Direction::East)
    } else {
        None
    }
}

/// The lowercase English name of a direction.
pub open spec fn direction_name(direction: Direction) -> Seq<char> {
    match direction {
        Direction::North => "north"@,
        Direction::East => "east"@,
        Direction::South => "south"@,
        Direction::West => "west"@,
    }
}

impl Direction {
    /// Parse a player-typed direction string into a [`Direction`].
    ///
    /// Accepts the full word or its one-letter abbreviation
    /// (`n`/`north`, `s`/`south`, `e`/`east`, `w`/`west`), case-sensitively.
    /// Returns [`None`] for anything else.
    pub fn parse(raw: &str) -> (direction: Option<Direction>)
        ensures
            direction == parse_direction(raw@),
    {
        if str_eq(raw, "n") || str_eq(raw, "north") {
            Some(Direction::North)
        } else if str_eq(raw, "s") || str_eq(raw, "south") {
            Some(Direction::South)
        } else if str_eq(raw, "w") || str_eq(raw, "west") {
            Some(Direction::West)
        } else if str_eq(raw, "e") || str_eq(raw, "east") {
            Some(Direction::East)
        } else {
            None
        }
    }

    /// The direction's display name (`north`, `east`, `south`, `west`).
    pub fn name(&self) -> (name: &'static str)
        ensures
            name@ == direction_name(*self),
    {
        match self {
            Direction::North => "north",
            Direction::East => "east",
            Direction::South => "south",
            Direction::West => "west",
        }
    }
}

/// Every direction is named by its full name and by the first letter of
/// it, and by nothing else: a word parses to `d` exactly when it is `d`'s
/// name or that name's first letter.
pub proof fn law_direction_words(direction: Direction, raw: Seq<char>)
    ensures
        parse_direction(direction_name(direction)) == Some(direction),
        parse_direction(direction_name(direction).take(1)) == Some(direction),
        parse_direction(raw) == Some(direction) <==> (raw == direction_name(direction) || raw
            == direction_name(direction).take(1)),
{
    reveal_strlit("n");
    reveal_strlit("north");
    reveal_strlit("s");
    reveal_strlit("south");
    reveal_strlit("e");
    reveal_strlit("east");
    reveal_strlit("w");
    reveal_strlit("west");
    assert("north"@.take(1) =~= "n"@);
    assert("south"@.take(1) =~= "s"@);
    assert("east"@.take(1) =~= "e"@);
    assert("west"@.take(1) =~= "w"@);
    let names = seq!["n"@, "north"@, "s"@, "south"@, "w"@, "west"@, "e"@, "east"@];
    assert forall|i: int, j: int| 0 <= i < j < 8 implies names[i] != names[j] by {
        if names[i].len() == names[j].len() {
            assert(names[i][0] != names[j][0]);
        }
    }
    assert(names[0] != names[2] && names[0] != names[4] && names[0] != names[6]);
    assert(names[1] != names[3] && names[1] != names[5] && names[1] != names[7]);
    assert(names[2] != names[4] && names[2] != names[6] && names[3] != names[5] && names[3] != names[7]);
    assert(names[4] != names[6] && names[5] != names[7]);
}

} // verus!
