use typegin_core::input::parse_input;
use typegin_core::input::action::{Action, GoTarget, Locator};
use typegin_core::input::direction::Direction;
use typegin_core::input::tokenizer::{is_stop_word, split_words, tokenize};

#[test]
fn splits_on_whitespace() {
    assert_eq!(tokenize("take sword"), vec!["take", "sword"]);
}

#[test]
fn lowercases_words() {
    assert_eq!(tokenize("TAKE Sword"), vec!["take", "sword"]);
}

#[test]
fn drops_punctuation() {
    assert_eq!(tokenize("take the sword, please!"), vec!["take", "sword", "please"]);
}

#[test]
fn drops_stop_words() {
    for word in ["a", "an", "the", "at", "to", "in", "from", "of", "about"] {
        assert!(tokenize(word).is_empty(), "expected {word:?} to be dropped as a stop word");
    }
}

#[test]
fn stop_word_inside_a_longer_phrase_is_dropped() {
    assert_eq!(
        tokenize("ask about the exit"),
        vec!["ask", "exit"],
        "stop words inside a phrase should be stripped, not just at the edges"
    );
}

#[test]
fn collapses_repeated_whitespace() {
    assert_eq!(tokenize("take   the   sword"), vec!["take", "sword"]);
}

#[test]
fn leading_and_trailing_whitespace_is_ignored() {
    assert_eq!(tokenize("  take sword  "), vec!["take", "sword"]);
}

#[test]
fn empty_input_yields_no_tokens() {
    assert!(tokenize("").is_empty());
}

#[test]
fn input_of_only_stop_words_yields_no_tokens() {
    assert!(tokenize("the a an").is_empty());
}

#[test]
fn hyphens_split_into_separate_tokens() {
    assert_eq!(
        tokenize("brass-key"),
        vec!["brass", "key"],
        "ascii punctuation, including hyphens, is a token boundary"
    );
}

#[test]
fn is_stop_word_matches_known_words_only() {
    assert!(is_stop_word("the"));
    assert!(!is_stop_word("sword"));
}

#[test]
fn tokenize_lowercases_non_ascii_letters_too() {
    assert_eq!(tokenize("ÉPÉE"), vec!["épée"]);
}

#[test]
fn parse_input_tokenizes_then_lexes() {
    assert_eq!(
        parse_input("Take the Brass-Key!"),
        Action::Take(Locator::Name("brass key".to_string()))
    );
    assert_eq!(parse_input("  N  "), Action::Go(GoTarget::Direction(Direction::North)));
    assert_eq!(parse_input("the"), Action::Unknown(String::new()));
}

#[test]
fn split_words_cuts_at_whitespace_and_punctuation() {
    assert_eq!(split_words("take  the brass-key, now!"), vec!["take", "brass", "key", "now"]);
}

#[test]
fn split_words_keeps_case_as_given() {
    assert_eq!(split_words("Open Door"), vec!["Open", "Door"]);
}

#[test]
fn split_words_of_only_separators_is_empty() {
    assert!(split_words(" ,;  ").is_empty());
}

#[test]
fn tokenize_yields_no_stop_word_and_no_empty_token() {
    let tokens = tokenize("Look AT the   cat, in a box.");
    assert_eq!(tokens, vec!["look", "cat", "box"]);
    assert!(tokens.iter().all(|t| !t.is_empty() && !is_stop_word(t)));
}
