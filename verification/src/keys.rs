//! The key-binding decision table.
//!
//! Key reading and the calls that carry an action out belong to the
//! program; what is decided here — which action a key means in which
//! mode — is the part worth pinning down. `classify_key` is total: every
//! key in every mode maps to exactly one action.

use vstd::prelude::*;

use crate::app::Mode;

verus! {

/// One key press, as the engine models it.
#[derive(Clone, Copy, Debug, PartialEq, Eq, Structural)]
pub enum Key {
    Char(char),
    Esc,
    Enter,
    Backspace,
    Delete,
    Left,
    Right,
    Up,
    Down,
    Home,
    End,
    Tab,
    BackTab,
}

/// What a key press asks for.
#[derive(Clone, Copy, Debug, PartialEq, Eq, Structural)]
pub enum Action {
    NoOp,
    Quit,
    ToggleHelp,
    EnterInsert,
    EnterInsertAfter,
    EnterInsertEnd,
    EnterInsertStart,
    LeaveInsert,
    NewTab,
    CloseTab,
    NextTab,
    PrevTab,
    SwitchTab(usize),
    Save,
    ClearConversation,
    ScrollUp,
    ScrollDown,
    ScrollTop,
    ScrollBottom,
    CursorLeft,
    CursorRight,
    CursorStart,
    CursorEnd,
    InsertChar(char),
    Backspace,
    DeleteChar,
    ClearInput,
    Submit,
}

/// The action a key press means in the given mode. Any key leaves the
/// help display; control combinations manage tabs, saving and clearing
/// everywhere and the line edits in insert mode; normal mode navigates
/// and edits without modifiers; insert mode types, and its `Enter`
/// submits the line.
pub open spec fn sp_classify_key(mode: Mode, key: Key, ctrl: bool) -> Action {
    if mode == Mode::Help {
        Action::ToggleHelp
    } else if ctrl {
        match key {
            Key::Char(c) => if c == 't' {
                Action::NewTab
            } else if c == 'w' {
                Action::CloseTab
            } else if c == 'n' {
                Action::NextTab
            } else if c == 'p' {
                Action::PrevTab
            } else if c == 's' {
                Action::Save
            } else if c == 'l' {
                Action::ClearConversation
            } else if c == 'a' && mode == Mode::Insert {
                Action::CursorStart
            } else if c == 'e' && mode == Mode::Insert {
                Action::CursorEnd
            } else if c == 'u' && mode == Mode::Insert {
                Action::ClearInput
            } else {
                Action::NoOp
            },
            _ => Action::NoOp,
        }
    } else if key == Key::Tab && mode == Mode::Normal {
        Action::NextTab
    } else if key == Key::BackTab {
        Action::PrevTab
    } else if mode == Mode::Normal {
        match key {
            Key::Char(c) => if c == '?' {
                Action::ToggleHelp
            } else if c == 'q' {
                Action::Quit
            } else if c == 'i' {
                Action::EnterInsert
            } else if c == 'a' {
                Action::EnterInsertAfter
            } else if c == 'A' {
                Action::EnterInsertEnd
            } else if c == 'I' {
                Action::EnterInsertStart
            } else if c == 'h' {
                Action::CursorLeft
            } else if c == 'l' {
                Action::CursorRight
            } else if c == '0' {
                Action::CursorStart
            } else if c == '$' {
                Action::CursorEnd
            } else if c == 'x' {
                Action::DeleteChar
            } else if c == 'd' {
                Action::ClearInput
            } else if c == 'j' {
                Action::ScrollDown
            } else if c == 'k' {
                Action::ScrollUp
            } else if c == 'G' {
                Action::ScrollBottom
            } else if c == 'g' {
                Action::ScrollTop
            } else if '1' <= c && c <= '9' {
                Action::SwitchTab(((c as u32) - 49) as usize)
            } else {
                Action::NoOp
            },
            Key::Esc => Action::Quit,
            Key::Left => Action::CursorLeft,
            Key::Right => Action::CursorRight,
            Key::Home => Action::CursorStart,
            Key::End => Action::CursorEnd,
            Key::Up => Action::ScrollUp,
            Key::Down => Action::ScrollDown,
            _ => Action::NoOp,
        }
    } else {
        match key {
            Key::Esc => Action::LeaveInsert,
            Key::Enter => Action::Submit,
            Key::Char(c) => Action::InsertChar(c),
            Key::Backspace => Action::Backspace,
            Key::Delete => Action::DeleteChar,
            Key::Left => Action::CursorLeft,
            Key::Right => Action::CursorRight,
            Key::Home => Action::CursorStart,
            Key::End => Action::CursorEnd,
            Key::Up => Action::ScrollUp,
            Key::Down => Action::ScrollDown,
            _ => Action::NoOp,
        }
    }
}

/// The action a key press means (see `sp_classify_key`).
pub fn classify_key(mode: Mode, key: Key, ctrl: bool) -> (a: Action)
    ensures
        a == sp_classify_key(mode, key, ctrl),
{
    if mode == Mode::Help {
        Action::ToggleHelp
    } else if ctrl {
        match key {
            Key::Char(c) => if c == 't' {
                Action::NewTab
            } else if c == 'w' {
                Action::CloseTab
            } else if c == 'n' {
                Action::NextTab
            } else if c == 'p' {
                Action::PrevTab
            } else if c == 's' {
                Action::Save
            } else if c == 'l' {
                Action::ClearConversation
            } else if c == 'a' && mode == Mode::Insert {
                Action::CursorStart
            } else if c == 'e' && mode == Mode::Insert {
                Action::CursorEnd
            } else if c == 'u' && mode == Mode::Insert {
                Action::ClearInput
            } else {
                Action::NoOp
            },
            _ => Action::NoOp,
        }
    } else if key == Key::Tab && mode == Mode::Normal {
        Action::NextTab
    } else if key == Key::BackTab {
        Action::PrevTab
    } else if mode == Mode::Normal {
        match key {
            Key::Char(c) => if c == '?' {
                Action::ToggleHelp
            } else if c == 'q' {
                Action::Quit
            } else if c == 'i' {
                Action::EnterInsert
            } else if c == 'a' {
                Action::EnterInsertAfter
            } else if c == 'A' {
                Action::EnterInsertEnd
            } else if c == 'I' {
                Action::EnterInsertStart
            } else if c == 'h' {
                Action::CursorLeft
            } else if c == 'l' {
                Action::CursorRight
            } else if c == '0' {
                Action::CursorStart
            } else if c == '$' {
                Action::CursorEnd
            } else if c == 'x' {
                Action::DeleteChar
            } else if c == 'd' {
                Action::ClearInput
            } else if c == 'j' {
                Action::ScrollDown
            } else if c == 'k' {
                Action::ScrollUp
            } else if c == 'G' {
                Action::ScrollBottom
            } else if c == 'g' {
                Action::ScrollTop
            } else if '1' <= c && c <= '9' {
                Action::SwitchTab(((c as u32) - 49) as usize)
            } else {
                Action::NoOp
            },
            Key::Esc => Action::Quit,
            Key::Left => Action::CursorLeft,
            Key::Right => Action::CursorRight,
            Key::Home => Action::CursorStart,
            Key::End => Action::CursorEnd,
            Key::Up => Action::ScrollUp,
            Key::Down => Action::ScrollDown,
            _ => Action::NoOp,
        }
    } else {
        match key {
            Key::Esc => Action::LeaveInsert,
            Key::Enter => Action::Submit,
            Key::Char(c) => Action::InsertChar(c),
            Key::Backspace => Action::Backspace,
            Key::Delete => Action::DeleteChar,
            Key::Left => Action::CursorLeft,
            Key::Right => Action::CursorRight,
            Key::Home => Action::CursorStart,
            Key::End => Action::CursorEnd,
            Key::Up => Action::ScrollUp,
            Key::Down => Action::ScrollDown,
            _ => Action::NoOp,
        }
    }
}

} // verus!
