//! Exercises the application state machine: submitting, tab lifecycle,
//! command handling and event application.

use chatstream::app::{App, AppEvent, Mode};
use chatstream::conversation::{Role, SessionStatus};
use chatstream::request::ApiClient;

fn app_with_key() -> App {
    let client = ApiClient::new(Some("test-key".to_string()), None).unwrap();
    App::new(Some(client))
}

fn type_line(app: &mut App, s: &str) {
    for c in s.chars() {
        app.insert_char(c);
    }
}

#[test]
fn submit_then_stream_to_completion() {
    // Submit "Hi", receive Text("Hello"), Text(" there"), then Done: the
    // trailing assistant message reads "Hello there" and the turn is over.
    let mut app = app_with_key();
    type_line(&mut app, "Hi");
    let sent = app.submit();
    assert_eq!(sent, Some("Hi".to_string()));
    {
        let conv = app.current_conversation();
        assert_eq!(conv.messages.len(), 2);
        assert!(matches!(conv.messages[0].role, Role::User));
        assert_eq!(conv.messages[0].content, "Hi");
        assert!(matches!(conv.messages[1].role, Role::Assistant));
        assert_eq!(conv.messages[1].content, "");
        assert!(matches!(conv.status, SessionStatus::AwaitingFirstToken));
    }
    let id = app.current_conversation().id;
    app.apply_event(AppEvent::StreamDelta(id, "Hello".to_string()));
    assert!(matches!(
        app.current_conversation().status,
        SessionStatus::Streaming
    ));
    app.apply_event(AppEvent::StreamDelta(id, " there".to_string()));
    app.apply_event(AppEvent::StreamEnd(id));
    let conv = app.current_conversation();
    assert_eq!(conv.messages.len(), 2);
    assert_eq!(conv.messages[1].content, "Hello there");
    assert!(matches!(conv.status, SessionStatus::Terminated));
}

#[test]
fn failed_turn_drops_empty_assistant_row() {
    // A turn that fails before any text: the error is surfaced, the empty
    // trailing assistant message is removed, the turn is over.
    let mut app = app_with_key();
    type_line(&mut app, "Hi");
    app.submit().unwrap();
    let id = app.current_conversation().id;
    app.apply_event(AppEvent::StreamError(
        id,
        "Rate limited. Please wait and try again.".to_string(),
    ));
    let conv = app.current_conversation();
    assert_eq!(conv.messages.len(), 1);
    assert!(matches!(conv.messages[0].role, Role::User));
    assert!(matches!(conv.status, SessionStatus::Terminated));
    assert_eq!(
        app.error_message,
        Some("Rate limited. Please wait and try again.".to_string())
    );
}

#[test]
fn error_for_inactive_tab_is_retained_on_it() {
    let mut app = app_with_key();
    type_line(&mut app, "Hi");
    app.submit().unwrap();
    let id = app.conversations[0].id;
    app.new_conversation();
    assert_eq!(app.active_tab, 1);
    app.apply_event(AppEvent::StreamError(id, "boom".to_string()));
    assert!(app.error_message.is_none());
    assert_eq!(app.conversations[0].pending_error, Some("boom".to_string()));
}

#[test]
fn no_cross_talk_between_tabs() {
    // Interleaved increments for two tabs never leak into each other.
    let mut app = app_with_key();
    type_line(&mut app, "one");
    app.submit().unwrap();
    let id_a = app.conversations[0].id;
    app.new_conversation();
    type_line(&mut app, "two");
    app.submit().unwrap();
    let id_b = app.conversations[1].id;
    app.apply_event(AppEvent::StreamDelta(id_a, "A1".to_string()));
    app.apply_event(AppEvent::StreamDelta(id_b, "B1".to_string()));
    app.apply_event(AppEvent::StreamDelta(id_a, "A2".to_string()));
    app.apply_event(AppEvent::StreamEnd(id_b));
    app.apply_event(AppEvent::StreamDelta(id_b, "late".to_string()));
    assert_eq!(app.conversations[0].messages[1].content, "A1A2");
    assert_eq!(app.conversations[1].messages[1].content, "B1");
    assert!(matches!(
        app.conversations[0].status,
        SessionStatus::Streaming
    ));
    assert!(matches!(
        app.conversations[1].status,
        SessionStatus::Terminated
    ));
}

#[test]
fn event_for_closed_tab_is_discarded() {
    let mut app = app_with_key();
    type_line(&mut app, "Hi");
    app.submit().unwrap();
    let id = app.conversations[0].id;
    app.new_conversation();
    app.prev_tab();
    app.close_current_conversation();
    assert_eq!(app.conversations.len(), 1);
    let before = app.conversations[0].messages.len();
    app.apply_event(AppEvent::StreamDelta(id, "ghost".to_string()));
    app.apply_event(AppEvent::StreamEnd(id));
    assert_eq!(app.conversations[0].messages.len(), before);
    assert!(app.error_message.is_none());
}

#[test]
fn closing_among_three_tabs() {
    // Three tabs, active index 0, close it: two remain and index 0 now
    // names the former second tab.
    let mut app = app_with_key();
    app.new_conversation();
    app.new_conversation();
    assert_eq!(app.conversations.len(), 3);
    let former_second = app.conversations[1].id;
    app.switch_tab(0);
    assert_eq!(app.active_tab, 0);
    app.close_current_conversation();
    assert_eq!(app.conversations.len(), 2);
    assert_eq!(app.active_tab, 0);
    assert_eq!(app.conversations[0].id, former_second);
}

#[test]
fn closing_last_tab_is_a_no_op() {
    let mut app = app_with_key();
    let id = app.conversations[0].id;
    app.close_current_conversation();
    assert_eq!(app.conversations.len(), 1);
    assert_eq!(app.conversations[0].id, id);
}

#[test]
fn closing_the_trailing_tab_clamps_the_index() {
    let mut app = app_with_key();
    app.new_conversation();
    app.new_conversation();
    assert_eq!(app.active_tab, 2);
    app.close_current_conversation();
    assert_eq!(app.conversations.len(), 2);
    assert_eq!(app.active_tab, 1);
}

#[test]
fn tab_navigation_clamps_at_the_ends() {
    let mut app = app_with_key();
    app.new_conversation();
    app.prev_tab();
    assert_eq!(app.active_tab, 0);
    app.prev_tab();
    assert_eq!(app.active_tab, 0);
    app.next_tab();
    app.next_tab();
    assert_eq!(app.active_tab, 1);
    app.switch_tab(9);
    assert_eq!(app.active_tab, 1);
}

#[test]
fn model_command_stages_an_override() {
    let mut app = app_with_key();
    type_line(&mut app, "/model  my-model  ");
    let sent = app.submit();
    assert!(sent.is_none());
    assert_eq!(app.pending_model_change, Some("my-model".to_string()));
    assert_eq!(
        app.status_message,
        Some("Model set to: my-model".to_string())
    );
    assert!(app.current_conversation().messages.is_empty());
}

#[test]
fn model_command_without_argument_reports() {
    let mut app = app_with_key();
    type_line(&mut app, "/model");
    app.submit();
    assert_eq!(
        app.status_message,
        Some("Current model: sonnet-4-20250514".to_string())
    );
    assert!(app.pending_model_change.is_none());
}

#[test]
fn staged_override_applies_to_the_next_session_start() {
    let mut app = app_with_key();
    type_line(&mut app, "/model my-model");
    app.submit();
    assert_eq!(app.pending_model_change, Some("my-model".to_string()));
    assert_eq!(app.take_model_override(), Some("my-model".to_string()));
    assert_eq!(app.current_model, Some("my-model".to_string()));
    assert!(app.pending_model_change.is_none());
    assert!(app.take_model_override().is_none());
}

#[test]
fn help_command_opens_help() {
    let mut app = app_with_key();
    type_line(&mut app, "/help");
    app.submit();
    assert!(matches!(app.mode, Mode::Help));
}

#[test]
fn unknown_command_is_an_error_and_stays_local() {
    let mut app = app_with_key();
    type_line(&mut app, "/frobnicate now");
    let sent = app.submit();
    assert!(sent.is_none());
    assert_eq!(
        app.error_message,
        Some("Unknown command: /frobnicate".to_string())
    );
    assert!(app.current_conversation().messages.is_empty());
}

#[test]
fn empty_submit_does_nothing() {
    let mut app = app_with_key();
    assert!(app.submit().is_none());
    assert!(app.error_message.is_none());
}

#[test]
fn submit_while_busy_is_rejected_and_keeps_the_line() {
    let mut app = app_with_key();
    type_line(&mut app, "one");
    app.submit().unwrap();
    type_line(&mut app, "two");
    let sent = app.submit();
    assert!(sent.is_none());
    assert_eq!(
        app.error_message,
        Some("A response is already streaming. Wait for it to finish.".to_string())
    );
    assert_eq!(app.current_conversation().messages.len(), 2);
    let kept: String = app.input.chars().iter().collect();
    assert_eq!(kept, "two");
}

#[test]
fn submit_without_credential_is_rejected_and_keeps_the_line() {
    let mut app = App::new(None);
    type_line(&mut app, "Hi");
    let sent = app.submit();
    assert!(sent.is_none());
    assert_eq!(
        app.error_message,
        Some("ANTHROPIC_API_KEY not set. Export it and restart.".to_string())
    );
    assert!(app.current_conversation().messages.is_empty());
    let kept: String = app.input.chars().iter().collect();
    assert_eq!(kept, "Hi");
    assert!(!app.has_api_key());
}

#[test]
fn title_derives_from_first_user_message_once() {
    let mut app = app_with_key();
    type_line(&mut app, "Hi");
    app.submit().unwrap();
    assert_eq!(app.current_conversation().display_title(), "Hi");
    let id = app.current_conversation().id;
    app.apply_event(AppEvent::StreamEnd(id));
    type_line(&mut app, "Another much longer question");
    app.submit().unwrap();
    assert_eq!(app.current_conversation().display_title(), "Hi");
}

#[test]
fn long_title_is_truncated_with_ellipsis() {
    let mut app = app_with_key();
    type_line(&mut app, "abcdefghijklmnopqrstuvwxyz012345");
    app.submit().unwrap();
    assert_eq!(
        app.current_conversation().display_title(),
        "abcdefghijklmnopqrstuvwxyz0123..."
    );
}

#[test]
fn title_at_the_budget_keeps_no_ellipsis() {
    let mut app = app_with_key();
    type_line(&mut app, "abcdefghijklmnopqrstuvwxyz0123");
    app.submit().unwrap();
    assert_eq!(
        app.current_conversation().display_title(),
        "abcdefghijklmnopqrstuvwxyz0123"
    );
}

#[test]
fn untitled_conversation_shows_placeholder() {
    let app = app_with_key();
    assert_eq!(app.current_conversation().display_title(), "New Chat");
}

#[test]
fn input_editing() {
    let mut app = app_with_key();
    type_line(&mut app, "ac");
    app.move_cursor_left();
    app.insert_char('b');
    let taken = app.input.clear();
    assert_eq!(taken, "abc");
    assert!(app.input.is_empty());
}

#[test]
fn delete_char_removes_before_cursor() {
    let mut app = app_with_key();
    type_line(&mut app, "ab");
    app.delete_char();
    app.delete_char();
    app.delete_char();
    assert!(app.input.is_empty());
}

#[test]
fn toggle_help_flips_mode() {
    let mut app = app_with_key();
    app.toggle_help();
    assert!(matches!(app.mode, Mode::Help));
    app.toggle_help();
    assert!(matches!(app.mode, Mode::Normal));
}

#[test]
fn clear_error_clears_both_slots() {
    let mut app = app_with_key();
    app.set_error("bad".to_string());
    assert_eq!(app.error_message, Some("bad".to_string()));
    app.clear_error();
    assert!(app.error_message.is_none());
    assert!(app.status_message.is_none());
}

#[test]
fn clear_current_conversation_empties_it() {
    let mut app = app_with_key();
    type_line(&mut app, "Hi");
    app.submit().unwrap();
    let id = app.current_conversation().id;
    app.apply_event(AppEvent::StreamEnd(id));
    app.clear_current_conversation();
    assert!(app.current_conversation().messages.is_empty());
    assert_eq!(app.status_message, Some("Conversation cleared".to_string()));
}

#[test]
fn append_and_finish_directly() {
    let mut app = app_with_key();
    type_line(&mut app, "Hi");
    app.submit().unwrap();
    app.append_to_last_message("partial");
    assert_eq!(app.current_conversation().messages[1].content, "partial");
    app.finish_streaming();
    assert!(matches!(
        app.current_conversation().status,
        SessionStatus::Terminated
    ));
}

#[test]
fn start_assistant_message_appends_empty_row() {
    let mut app = app_with_key();
    app.start_assistant_message();
    let conv = app.current_conversation();
    assert_eq!(conv.messages.len(), 1);
    assert!(matches!(conv.messages[0].role, Role::Assistant));
    assert_eq!(conv.messages[0].content, "");
}

#[test]
fn scrolling_stays_in_range() {
    let mut app = app_with_key();
    type_line(&mut app, "Hi");
    app.submit().unwrap();
    let id = app.current_conversation().id;
    app.apply_event(AppEvent::StreamDelta(id, "x".to_string()));
    app.apply_event(AppEvent::StreamEnd(id));
    let conv = &mut app.conversations[0];
    conv.scroll_down(1);
    assert_eq!(conv.scroll_offset, 1);
    conv.scroll_down(1);
    assert_eq!(conv.scroll_offset, 1);
    conv.scroll_up();
    assert_eq!(conv.scroll_offset, 0);
    conv.scroll_up();
    assert_eq!(conv.scroll_offset, 0);
    conv.scroll_to_bottom(1);
    assert_eq!(conv.scroll_offset, 1);
    conv.scroll_to_top();
    assert_eq!(conv.scroll_offset, 0);
}
