use fingerboard::decoder::Decoder;
use fingerboard::deserialized::keycode_from_name;
use fingerboard::interaction::{Interaction, SwipeAction, TapDuration, TapMotion};
use fingerboard::interpreter::Interpreter;
use fingerboard::locale::language_from_locale;
use fingerboard::submission::Submission;
use fingerboard::text::{ends_with, joined, split_whitespace, strip_suffix, to_ascii_uppercase};

#[test]
fn split_whitespace_gives_the_words() {
    let words = split_whitespace("  q w\te  rt\n");
    assert_eq!(words, vec!["q".to_string(), "w".to_string(), "e".to_string(), "rt".to_string()]);
    assert!(split_whitespace("   ").is_empty());
}

#[test]
fn ascii_uppercase_leaves_other_characters() {
    assert_eq!(to_ascii_uppercase("BackSpace ä1"), "BACKSPACE ä1".to_string());
}

#[test]
fn suffix_helpers() {
    assert!(ends_with("us_wide", "_wide"));
    assert!(!ends_with("wide", "_wide"));
    assert_eq!(strip_suffix("us_wide", "_wide"), Some("us".to_string()));
    assert_eq!(strip_suffix("us", "_wide"), None);
    assert_eq!(joined("us", "_wide"), "us_wide".to_string());
}

#[test]
fn key_names_are_looked_up_in_upper_case() {
    assert_eq!(keycode_from_name("BackSpace"), Some(14));
    assert_eq!(keycode_from_name("space"), Some(57));
    assert_eq!(keycode_from_name("Enter"), Some(28));
    assert_eq!(keycode_from_name("delete"), Some(111));
    assert_eq!(keycode_from_name("a"), Some(30));
    assert_eq!(keycode_from_name("no_such_key"), None);
}

#[test]
fn language_is_the_last_part_of_the_locale_in_lower_case() {
    assert_eq!(language_from_locale("de-DE"), "de".to_string());
    assert_eq!(language_from_locale("en-US"), "us".to_string());
    assert_eq!(language_from_locale("FR"), "fr".to_string());
    assert_eq!(language_from_locale(""), "".to_string());
    assert_eq!(language_from_locale("de-"), "".to_string());
}

#[test]
fn double_space_ends_a_sentence() {
    let mut decoder = Decoder::new();
    assert_eq!(decoder.decode_text("a".to_string()), vec![Submission::Text("a".to_string())]);
    assert_eq!(decoder.decode_text(" ".to_string()), vec![Submission::Text(" ".to_string())]);
    assert_eq!(
        decoder.decode_text(" ".to_string()),
        vec![Submission::Erase(1), Submission::Text(". ".to_string())]
    );
    // The full stop and space are no single space: a third space is entered.
    assert_eq!(decoder.decode_text(" ".to_string()), vec![Submission::Text(" ".to_string())]);
}

#[test]
fn decoder_keeps_the_surrounding_text() {
    let mut decoder = Decoder::new();
    decoder.update_surrounding_text(Some(("left".to_string(), "right".to_string())));
    assert_eq!(decoder.text_left_of_cursor(), &"left".to_string());
    assert_eq!(decoder.text_right_of_cursor(), &"right".to_string());
    decoder.update_surrounding_text(None);
    assert_eq!(decoder.text_left_of_cursor(), &"left".to_string());
    assert_eq!(decoder.get_gesture_result(), "".to_string());
}

#[test]
fn interpreter_decodes_text_and_passes_keycodes() {
    let mut interpreter = Interpreter::new();
    assert_eq!(interpreter.interpret(Submission::Keycode(14)), vec![Submission::Keycode(14)]);
    assert_eq!(
        interpreter.interpret(Submission::Text(" ".to_string())),
        vec![Submission::Text(" ".to_string())]
    );
    assert_eq!(
        interpreter.interpret(Submission::Text(" ".to_string())),
        vec![Submission::Erase(1), Submission::Text(". ".to_string())]
    );
}

#[test]
fn interactions_have_display_names() {
    assert_eq!(
        Interaction::Tap(TapDuration::Short, TapMotion::Press).to_display_string(),
        "ShortPress".to_string()
    );
    assert_eq!(Interaction::Swipe(SwipeAction::Begin).to_display_string(), "SwipeBegin".to_string());
    assert_eq!(TapMotion::Press.value(), 1);
    assert_eq!(TapMotion::Release.value(), 0);
}
