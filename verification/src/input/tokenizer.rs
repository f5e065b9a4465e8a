use vstd::prelude::*;

use crate::text::{str_eq, string_views};

verus! {

/// The Unicode lowercase mapping of a string, as `str::to_lowercase`
/// computes it.
pub uninterp spec fn lowercase_of(s: Seq<char>) -> Seq<char>;

/// Lowercase `s` by calling `str::to_lowercase`. Trusted: the result is
/// taken to be `lowercase_of(s)`, a function of the characters of `s` alone
/// (std documents the mapping as Unicode's `Lowercase` property, with no
/// dependence on locale); nothing further about the mapping is claimed.
#[verifier::external_body]
fn to_lowercase(s: &str) -> (lower: String)
    ensures
        lower@ == lowercase_of(s@),
{
    s.to_lowercase()
}

/// Unicode `White_Space`, as `char::is_whitespace` decides it.
pub open spec fn is_whitespace_char(c: char) -> bool {
    let u = c as u32;
    ||| 0x09 <= u <= 0x0D
    ||| u == 0x20
    ||| u == 0x85
    ||| u == 0xA0
    ||| u == 0x1680
    ||| 0x2000 <= u <= 0x200A
    ||| u == 0x2028
    ||| u == 0x2029
    ||| u == 0x202F
    ||| u == 0x205F
    ||| u == 0x3000
}

/// ASCII punctuation, as `char::is_ascii_punctuation` decides it.
pub open spec fn is_ascii_punctuation_char(c: char) -> bool {
    let u = c as u32;
    ||| 33 <= u <= 47
    ||| 58 <= u <= 64
    ||| 91 <= u <= 96
    ||| 123 <= u <= 126
}

/// A character at which the input is split into words.
pub open spec fn is_separator(c: char) -> bool {
    is_whitespace_char(c) || is_ascii_punctuation_char(c)
}

/// The words the parser ignores.
pub open spec fn is_stop_word_spec(word: Seq<char>) -> bool {
    ||| word == "a"@
    ||| word == "an"@
    ||| word == "the"@
    ||| word == "at"@
    ||| word == "to"@
    ||| word == "in"@
    ||| word == "from"@
    ||| word == "of"@
    ||| word == "about"@
}

/// A finished word as it enters the token list: empty words and stop words
/// contribute nothing.
pub open spec fn emit_word(word: Seq<char>) -> Seq<Seq<char>> {
    if word.len() > 0 && !is_stop_word_spec(word) {
        seq![word]
    } else {
        seq![]
    }
}

/// The tokens of `s`, given that `current` is the word read so far: `s` is
/// cut at every separator, and each piece goes through [`emit_word`].
pub open spec fn tokens_from(s: Seq<char>, current: Seq<char>) -> Seq<Seq<char>>
    decreases s.len(),
{
    if s.len() == 0 {
        emit_word(current)
    } else if is_separator(s[0]) {
        emit_word(current) + tokens_from(s.drop_first(), seq![])
    } else {
        tokens_from(s.drop_first(), current.push(s[0]))
    }
}

/// The tokens of a player's input line: lowercased, split at whitespace and
/// ASCII punctuation, with empty words and stop words dropped.
pub open spec fn tokenize_spec(input: Seq<char>) -> Seq<Seq<char>> {
    tokens_from(lowercase_of(input), seq![])
}

fn is_whitespace(c: char) -> (b: bool)
    ensures
        b == is_whitespace_char(c),
{
    let u = c as u32;
    (0x09 <= u && u <= 0x0D) || u == 0x20 || u == 0x85 || u == 0xA0 || u == 0x1680 || (0x2000
        <= u && u <= 0x200A) || u == 0x2028 || u == 0x2029 || u == 0x202F || u == 0x205F || u
        == 0x3000
}

fn is_ascii_punctuation(c: char) -> (b: bool)
    ensures
        b == is_ascii_punctuation_char(c),
{
    let u = c as u32;
    (33 <= u && u <= 47) || (58 <= u && u <= 64) || (91 <= u && u <= 96) || (123 <= u && u
        <= 126)
}

/// Whether `word` is one of the parser's stop words.
pub fn is_stop_word(word: &str) -> (b: bool)
    ensures
        b == is_stop_word_spec(word@),
{
    str_eq(word, "a") || str_eq(word, "an") || str_eq(word, "the") || str_eq(word, "at")
        || str_eq(word, "to") || str_eq(word, "in") || str_eq(word, "from") || str_eq(word, "of")
        || str_eq(word, "about")
}

/// Split `input` into lowercase word tokens, dropping punctuation and stop
/// words.
pub fn tokenize(input: &str) -> (tokens: Vec<String>)
    ensures
        string_views(tokens@) == tokenize_spec(input@),
{
    let lower = to_lowercase(input);
    split_words(lower.as_str())
}

/// Split already-lowercased `text` into word tokens at whitespace and ASCII
/// punctuation, dropping empty words and stop words.
pub fn split_words(text: &str) -> (tokens: Vec<String>)
    ensures
        string_views(tokens@) == tokens_from(text@, seq![]),
{
    let ghost s = text@;
    let n = text.unicode_len();
    let mut tokens: Vec<String> = Vec::new();
    let mut start: usize = 0;
    let mut i: usize = 0;
    proof {
        assert(s.skip(0) =~= s);
        assert(s.subrange(0, 0) =~= Seq::<char>::empty());
        assert(string_views(tokens@) =~= Seq::<Seq<char>>::empty());
        assert(Seq::<Seq<char>>::empty() + tokens_from(s, seq![]) =~= tokens_from(s, seq![]));
    }
    while i < n
        invariant
            s == text@,
            n == s.len(),
            start <= i <= n,
            string_views(tokens@) + tokens_from(s.skip(i as int), s.subrange(start as int, i as int))
                == tokens_from(s, seq![]),
        decreases n - i,
    {
        let c = text.get_char(i);
        proof {
            assert(s.skip(i as int)[0] == c);
            assert(s.skip(i as int).drop_first() =~= s.skip(i + 1));
        }
        if is_whitespace(c) || is_ascii_punctuation(c) {
            let ghost before = string_views(tokens@);
            let word = text.substring_char(start, i);
            if start < i && !is_stop_word(word) {
                tokens.push(String::from_str(word));
                proof {
                    assert(string_views(tokens@) =~= before.push(word@));
                }
            } else {
                proof {
                    assert(string_views(tokens@) =~= before);
                }
            }
            proof {
                assert(s.subrange(i + 1, i + 1) =~= Seq::<char>::empty());
                assert(before + emit_word(word@) + tokens_from(s.skip(i + 1), seq![])
                    =~= before + (emit_word(word@) + tokens_from(s.skip(i + 1), seq![])));
                if start < i && !is_stop_word_spec(word@) {
                    assert(before.push(word@) =~= before + emit_word(word@));
                } else {
                    assert(emit_word(word@) =~= Seq::<Seq<char>>::empty());
                    assert(before + emit_word(word@) =~= before);
                }
            }
            start = i + 1;
        } else {
            proof {
                assert(s.subrange(start as int, i as int).push(c) =~= s.subrange(
                    start as int,
                    i + 1,
                ));
            }
        }
        i = i + 1;
    }
    let ghost before = string_views(tokens@);
    let word = text.substring_char(start, n);
    proof {
        assert(s.skip(n as int) =~= Seq::<char>::empty());
    }
    if start < n && !is_stop_word(word) {
        tokens.push(String::from_str(word));
        proof {
            assert(string_views(tokens@) =~= before.push(word@));
            assert(before.push(word@) =~= before + emit_word(word@));
        }
    } else {
        proof {
            assert(string_views(tokens@) =~= before);
            assert(emit_word(word@) =~= Seq::<Seq<char>>::empty());
            assert(before + emit_word(word@) =~= before);
        }
    }
    tokens
}

/// A token the parser can use: non-empty, free of separators, and not a
/// stop word.
pub open spec fn is_word(w: Seq<char>) -> bool {
    &&& w.len() > 0
    &&& !is_stop_word_spec(w)
    &&& forall|i: int| 0 <= i < w.len() ==> !is_separator(#[trigger] w[i])
}

/// Every token cut from `s`, after a word in progress free of separators,
/// is a usable word.
proof fn lemma_tokens_are_words(s: Seq<char>, current: Seq<char>)
    requires
        forall|i: int| 0 <= i < current.len() ==> !is_separator(#[trigger] current[i]),
    ensures
        forall|k: int| 0 <= k < tokens_from(s, current).len() ==> is_word(#[trigger] tokens_from(s, current)[k]),
    decreases s.len(),
{
    if s.len() == 0 {
        if current.len() > 0 && !is_stop_word_spec(current) {
            assert(tokens_from(s, current) == seq![current]);
            assert(is_word(current));
        } else {
            assert(tokens_from(s, current) =~= Seq::<Seq<char>>::empty());
        }
    } else if is_separator(s[0]) {
        lemma_tokens_are_words(s.drop_first(), seq![]);
        let head = emit_word(current);
        let rest = tokens_from(s.drop_first(), seq![]);
        assert(tokens_from(s, current) == head + rest);
        assert forall|k: int| 0 <= k < (head + rest).len() implies is_word(#[trigger] (head + rest)[k]) by {
            if k >= head.len() {
                assert((head + rest)[k] == rest[k - head.len()]);
            } else {
                assert(head == seq![current]);
                assert((head + rest)[k] == current);
                assert(is_word(current));
            }
        }
    } else {
        let next = current.push(s[0]);
        assert forall|i: int| 0 <= i < next.len() implies !is_separator(#[trigger] next[i]) by {
            if i < current.len() {
                assert(next[i] == current[i]);
            }
        }
        lemma_tokens_are_words(s.drop_first(), next);
        assert(tokens_from(s, current) == tokens_from(s.drop_first(), next));
    }
}

/// The tokenizer yields only usable words: each token is non-empty, holds
/// no whitespace or ASCII punctuation, and is not a stop word.
pub proof fn law_tokens_are_words(input: Seq<char>)
    ensures
        forall|k: int| 0 <= k < tokenize_spec(input).len() ==> is_word(#[trigger] tokenize_spec(input)[k]),
{
    lemma_tokens_are_words(lowercase_of(input), seq![]);
}

} // verus!
