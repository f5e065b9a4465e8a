use vstd::prelude::*;

pub mod action;
pub mod direction;
pub mod lexer;
pub mod tokenizer;

pub use action::{Action, GoTarget, Locator, Outcome};
pub use direction::{Direction, DirectionResolution};

use crate::text::{str_views, string_views};
use lexer::{lex, lexes_to};
use tokenizer::{tokenize, tokenize_spec};

verus! {

/// The action a line of player input parses to: its tokens, lexed.
pub open spec fn parses_to(input: Seq<char>, action: Action) -> bool {
    lexes_to(tokenize_spec(input), action)
}

/// Parse a line of player input into an [`Action`].
pub fn parse_input(input: &str) -> (action: Action)
    ensures
        parses_to(input@, action),
{
    let tokens = tokenize(input);
    let mut token_refs: Vec<&str> = Vec::new();
    let mut i: usize = 0;
    while i < tokens.len()
        invariant
            i <= tokens@.len(),
            str_views(token_refs@) =~= string_views(tokens@).take(i as int),
        decreases tokens@.len() - i,
    {
        let ghost before = str_views(token_refs@);
        token_refs.push(tokens[i].as_str());
        proof {
            assert(str_views(token_refs@) =~= before.push(tokens@[i as int]@));
            assert(string_views(tokens@).take(i + 1) =~= string_views(tokens@).take(i as int).push(
                tokens@[i as int]@,
            ));
        }
        i = i + 1;
    }
    assert(string_views(tokens@).take(tokens@.len() as int) =~= string_views(tokens@));
    lex(token_refs.as_slice())
}

} // verus!
