//! Exercises both text wrappers and the key-binding table.

use chatstream::app::Mode;
use chatstream::keys::{classify_key, Action, Key};

#[test]
fn wrap_packs_words_greedily() {
    let lines = chatstream::wrap::wrap_text("the quick brown fox", 9);
    assert_eq!(lines, vec!["the quick", "brown fox"]);
}

#[test]
fn wrap_splits_long_words() {
    let lines = chatstream::wrap::wrap_text("abcdefghij xy", 4);
    assert_eq!(lines, vec!["abcd", "efgh", "ij", "xy"]);
}

#[test]
fn wrap_remainder_can_share_a_line() {
    let lines = chatstream::wrap::wrap_text("abcdef xy", 5);
    assert_eq!(lines, vec!["abcde", "f xy"]);
}

#[test]
fn wrap_keeps_empty_paragraphs() {
    let lines = chatstream::wrap::wrap_text("a\n\nb", 10);
    assert_eq!(lines, vec!["a", "", "b"]);
}

#[test]
fn wrap_of_empty_text_is_one_empty_line() {
    let lines = chatstream::wrap::wrap_text("", 10);
    assert_eq!(lines, vec![""]);
}

#[test]
fn wrap_counts_characters_not_bytes() {
    let lines = chatstream::wrap::wrap_text("\u{e9}\u{e9} \u{e9}\u{e9}", 2);
    assert_eq!(lines, vec!["\u{e9}\u{e9}", "\u{e9}\u{e9}"]);
}

#[test]
fn flow_keeps_long_words_whole() {
    let lines = chatstream::flow::wrap_text("abcdefghij xy", 4);
    assert_eq!(lines, vec!["abcdefghij", "xy"]);
}

#[test]
fn flow_zero_width_passes_the_text_through() {
    let lines = chatstream::flow::wrap_text("anything at all", 0);
    assert_eq!(lines, vec!["anything at all"]);
}

#[test]
fn flow_keeps_blank_paragraphs_as_empty_lines() {
    let lines = chatstream::flow::wrap_text("a\n   \nb", 10);
    assert_eq!(lines, vec!["a", "", "b"]);
}

#[test]
fn keys_in_normal_mode() {
    assert_eq!(classify_key(Mode::Normal, Key::Char('q'), false), Action::Quit);
    assert_eq!(
        classify_key(Mode::Normal, Key::Char('i'), false),
        Action::EnterInsert
    );
    assert_eq!(
        classify_key(Mode::Normal, Key::Char('3'), false),
        Action::SwitchTab(2)
    );
    assert_eq!(classify_key(Mode::Normal, Key::Tab, false), Action::NextTab);
    assert_eq!(
        classify_key(Mode::Normal, Key::Char('t'), true),
        Action::NewTab
    );
    assert_eq!(
        classify_key(Mode::Normal, Key::Char('z'), false),
        Action::NoOp
    );
}

#[test]
fn keys_in_insert_mode() {
    assert_eq!(
        classify_key(Mode::Insert, Key::Enter, false),
        Action::Submit
    );
    assert_eq!(
        classify_key(Mode::Insert, Key::Char('q'), false),
        Action::InsertChar('q')
    );
    assert_eq!(
        classify_key(Mode::Insert, Key::Esc, false),
        Action::LeaveInsert
    );
    assert_eq!(
        classify_key(Mode::Insert, Key::Char('u'), true),
        Action::ClearInput
    );
}

#[test]
fn any_key_leaves_help() {
    assert_eq!(
        classify_key(Mode::Help, Key::Char('q'), false),
        Action::ToggleHelp
    );
    assert_eq!(classify_key(Mode::Help, Key::Esc, true), Action::ToggleHelp);
}
