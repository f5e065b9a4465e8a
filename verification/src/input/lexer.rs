use vstd::prelude::*;

use crate::input::action::{Action, GoTarget, Locator};
use crate::input::direction::{direction_name, law_direction_words, parse_direction, Direction};
use crate::text::{join_words, seq_join, space, str_eq, str_views};

verus! {

/// The words that split a `use` command into item and target.
pub open spec fn is_use_word(word: Seq<char>) -> bool {
    word == "on"@ || word == "with"@
}

/// The position of the first use word in `words`, searching from `from`.
pub open spec fn use_word_index(words: Seq<Seq<char>>, from: int) -> Option<int>
    decreases words.len() - from,
{
    if from < 0 || from >= words.len() {
        None
    } else if is_use_word(words[from]) {
        Some(from)
    } else {
        use_word_index(words, from + 1)
    }
}

/// A use word found from `from` on lies at or after `from` and inside `words`.
pub proof fn lemma_use_word_index_bounds(words: Seq<Seq<char>>, from: int)
    ensures
        use_word_index(words, from) matches Some(k) ==> from <= k < words.len() && is_use_word(
            words[k],
        ),
    decreases words.len() - from,
{
    if from >= 0 && from < words.len() && !is_use_word(words[from]) {
        lemma_use_word_index_bounds(words, from + 1);
    }
}

/// `a` is `Action::Unknown` carrying the characters `text`.
pub open spec fn is_unknown(a: Action, text: Seq<char>) -> bool {
    a matches Action::Unknown(s) && s@ == text
}

/// The action of a bare or `go`-prefixed direction word.
pub open spec fn direction_action_spec(word: Seq<char>, joined: Seq<char>, a: Action) -> bool {
    match parse_direction(word) {
        Some(d) => a == Action::Go(GoTarget::Direction(d)),
        None => is_unknown(a, joined),
    }
}

/// The action of `use` followed by `rest`: an item, and after the first
/// `on`/`with` a target.
pub open spec fn use_action_spec(rest: Seq<Seq<char>>, a: Action) -> bool {
    if rest.len() == 0 {
        is_unknown(a, "use"@)
    } else {
        match use_word_index(rest, 0) {
            Some(k) => a matches Action::Use {
                item: Locator::Name(item),
                target: Some(Locator::Name(target)),
            } && item@ == seq_join(rest.take(k), space()) && target@ == seq_join(
                rest.skip(k + 1),
                space(),
            ),
            None => a matches Action::Use { item: Locator::Name(item), target: None } && item@
                == seq_join(rest, space()),
        }
    }
}

/// The action a list of tokens spells, tried in order: `look`/`l`,
/// `examine`/`x`, `take`/`get`, `drop`/`d`, `use`, `go <direction>`, a bare
/// direction, `enter`, `talk`, `choose`; anything else is unknown. A verb
/// that needs an object but has none is unknown too.
pub open spec fn lexes_to(t: Seq<Seq<char>>, a: Action) -> bool {
    let joined = seq_join(t, space());
    let rest = seq_join(t.drop_first(), space());
    if t.len() == 1 && (t[0] == "look"@ || t[0] == "l"@) {
        a == Action::Look
    } else if t.len() >= 1 && (t[0] == "examine"@ || t[0] == "x"@) {
        if t.len() == 1 {
            is_unknown(a, joined)
        } else {
            a matches Action::Examine(Locator::Name(n)) && n@ == rest
        }
    } else if t.len() >= 1 && (t[0] == "take"@ || t[0] == "get"@) {
        if t.len() == 1 {
            is_unknown(a, joined)
        } else {
            a matches Action::Take(Locator::Name(n)) && n@ == rest
        }
    } else if t.len() >= 1 && (t[0] == "drop"@ || t[0] == "d"@) {
        if t.len() == 1 {
            is_unknown(a, joined)
        } else {
            a matches Action::Drop(Locator::Name(n)) && n@ == rest
        }
    } else if t.len() >= 1 && t[0] == "use"@ {
        use_action_spec(t.drop_first(), a)
    } else if t.len() == 2 && t[0] == "go"@ {
        direction_action_spec(t[1], joined, a)
    } else if t.len() == 1 {
        direction_action_spec(t[0], joined, a)
    } else if t.len() >= 1 && t[0] == "enter"@ {
        a matches Action::Go(GoTarget::Named(n)) && n@ == rest
    } else if t.len() >= 1 && t[0] == "talk"@ {
        a matches Action::Talk(Locator::Name(n)) && n@ == rest
    } else if t.len() >= 1 && t[0] == "choose"@ {
        a matches Action::Choose(n) && n@ == rest
    } else {
        is_unknown(a, joined)
    }
}

fn unknown(tokens: &[&str]) -> (a: Action)
    ensures
        is_unknown(a, seq_join(str_views(tokens@), space())),
{
    Action::Unknown(join_words(tokens))
}

fn rest_words(tokens: &[&str]) -> (rest: String)
    requires
        tokens@.len() >= 1,
    ensures
        rest@ == seq_join(str_views(tokens@).drop_first(), space()),
{
    let (_, tail) = tokens.split_at(1);
    proof {
        assert(str_views(tail@) =~= str_views(tokens@).drop_first());
    }
    join_words(tail)
}

/// Turn already-tokenized words into an [`Action`]; unrecognised input
/// becomes [`Action::Unknown`].
pub fn lex(tokens: &[&str]) -> (action: Action)
    ensures
        lexes_to(str_views(tokens@), action),
{
    let ghost t = str_views(tokens@);
    let n = tokens.len();
    if n == 0 {
        return unknown(tokens);
    }
    let first = tokens[0];
    assert(t[0] == first@);
    if n == 1 && (str_eq(first, "look") || str_eq(first, "l")) {
        Action::Look
    } else if str_eq(first, "examine") || str_eq(first, "x") {
        if n == 1 {
            unknown(tokens)
        } else {
            Action::Examine(Locator::Name(rest_words(tokens)))
        }
    } else if str_eq(first, "take") || str_eq(first, "get") {
        if n == 1 {
            unknown(tokens)
        } else {
            Action::Take(Locator::Name(rest_words(tokens)))
        }
    } else if str_eq(first, "drop") || str_eq(first, "d") {
        if n == 1 {
            unknown(tokens)
        } else {
            Action::Drop(Locator::Name(rest_words(tokens)))
        }
    } else if str_eq(first, "use") {
        let (_, rest) = tokens.split_at(1);
        proof {
            assert(str_views(rest@) =~= t.drop_first());
        }
        match get_use(rest) {
            Some(action) => action,
            None => Action::Unknown(String::from_str("use")),
        }
    } else if n == 2 && str_eq(first, "go") {
        assert(t[1] == tokens@[1]@);
        direction_to_action(tokens[1], tokens)
    } else if n == 1 {
        direction_to_action(first, tokens)
    } else if str_eq(first, "enter") {
        Action::Go(GoTarget::Named(rest_words(tokens)))
    } else if str_eq(first, "talk") {
        Action::Talk(Locator::Name(rest_words(tokens)))
    } else if str_eq(first, "choose") {
        Action::Choose(rest_words(tokens))
    } else {
        unknown(tokens)
    }
}

/// Split `list` at its first `on`/`with`: the words before it and the words
/// after it, or `None` when no such word occurs.
pub fn split_use_target<'a>(list: &'a [&'a str]) -> (split: Option<(&'a [&'a str], &'a [&'a str])>)
    ensures
        match use_word_index(str_views(list@), 0) {
            Some(k) => split matches Some((before, after)) && before@ == list@.take(k)
                && after@ == list@.skip(k + 1),
            None => split is None,
        },
{
    let ghost w = str_views(list@);
    let mut i: usize = 0;
    while i < list.len()
        invariant
            w == str_views(list@),
            i <= list@.len(),
            use_word_index(w, 0) == use_word_index(w, i as int),
        decreases list@.len() - i,
    {
        let word = list[i];
        assert(w[i as int] == word@);
        if str_eq(word, "on") || str_eq(word, "with") {
            let (before, tail) = list.split_at(i);
            let (_, after) = tail.split_at(1);
            assert(before@ =~= list@.take(i as int));
            assert(after@ =~= list@.skip(i + 1));
            return Some((before, after));
        }
        i = i + 1;
    }
    None
}

/// The `Use` action of the words after `use`, or `None` when there are none.
pub fn get_use(rest: &[&str]) -> (action: Option<Action>)
    ensures
        rest@.len() == 0 ==> action is None,
        rest@.len() > 0 ==> (action matches Some(a) && use_action_spec(str_views(rest@), a)),
{
    if rest.len() == 0 {
        return None;
    }
    let ghost w = str_views(rest@);
    match split_use_target(rest) {
        Some((item, target)) => {
            proof {
                lemma_use_word_index_bounds(w, 0);
                let k = use_word_index(w, 0)->0;
                assert(str_views(item@) =~= w.take(k));
                assert(str_views(target@) =~= w.skip(k + 1));
            }
            Some(
                Action::Use {
                    item: Locator::Name(join_words(item)),
                    target: Some(Locator::Name(join_words(target))),
                },
            )
        },
        None => Some(Action::Use { item: Locator::Name(join_words(rest)), target: None }),
    }
}

/// The `Go` action of a direction word, or `Unknown` carrying the whole
/// command when the word names no direction.
pub fn direction_to_action(direction: &str, tokens: &[&str]) -> (action: Action)
    ensures
        direction_action_spec(direction@, seq_join(str_views(tokens@), space()), action),
{
    match Direction::parse(direction) {
        Some(d) => Action::Go(GoTarget::Direction(d)),
        None => unknown(tokens),
    }
}

/// A direction's name or its first letter, alone or after `go`, always
/// means walking that way.
pub proof fn law_lex_direction_words(direction: Direction, word: Seq<char>, a: Action)
    requires
        word == direction_name(direction) || word == direction_name(direction).take(1),
    ensures
        lexes_to(seq![word], a) <==> a == Action::Go(GoTarget::Direction(direction)),
        lexes_to(seq!["go"@, word], a) <==> a == Action::Go(GoTarget::Direction(direction)),
{
    law_direction_words(direction, word);
    reveal_strlit("look");
    reveal_strlit("l");
    reveal_strlit("examine");
    reveal_strlit("x");
    reveal_strlit("take");
    reveal_strlit("get");
    reveal_strlit("drop");
    reveal_strlit("d");
    reveal_strlit("use");
    reveal_strlit("go");
    reveal_strlit("north");
    reveal_strlit("south");
    reveal_strlit("east");
    reveal_strlit("west");
    assert(word.len() >= 1 && word.len() <= 5);
    let keys = seq!["look"@, "l"@, "examine"@, "x"@, "take"@, "get"@, "drop"@, "d"@, "use"@, "go"@];
    assert forall|i: int| 0 <= i < keys.len() implies word != #[trigger] keys[i] by {
        if word.len() == keys[i].len() {
            assert(word[0] != keys[i][0]);
        }
    }
    assert forall|i: int| 0 <= i < keys.len() - 1 implies "go"@ != #[trigger] keys[i] by {
        if keys[i].len() == 2 {
            assert("go"@[0] != keys[i][0]);
        } else {
            assert(keys[i].len() != 2);
        }
    }
    assert(word != keys[0] && word != keys[1] && word != keys[2] && word != keys[3] && word != keys[4]);
    assert(word != keys[5] && word != keys[6] && word != keys[7] && word != keys[8]);
    assert("go"@ != keys[0] && "go"@ != keys[1] && "go"@ != keys[2] && "go"@ != keys[3] && "go"@ != keys[4]);
    assert("go"@ != keys[5] && "go"@ != keys[6] && "go"@ != keys[7] && "go"@ != keys[8]);
    assert(seq![word][0] == word);
    assert(seq!["go"@, word][0] == "go"@ && seq!["go"@, word][1] == word);
}

} // verus!
