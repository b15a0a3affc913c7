//! Exercises the request framing and the client configuration.

use chatstream::conversation::{Message, Role};
use chatstream::request::ApiClient;

#[test]
fn client_requires_a_credential() {
    let r = ApiClient::new(None, None);
    assert_eq!(r.err(), Some("ANTHROPIC_API_KEY not set".to_string()));
}

#[test]
fn client_takes_default_and_environment_model() {
    let c = ApiClient::new(Some("test-key".to_string()), None).unwrap();
    assert_eq!(c.get_model(), "sonnet-4-20250514");
    let c = ApiClient::new(
        Some("test-key".to_string()),
        Some("my-model".to_string()),
    )
    .unwrap();
    assert_eq!(c.get_model(), "my-model");
}

#[test]
fn set_model_replaces_the_identifier() {
    let mut c = ApiClient::new(Some("test-key".to_string()), None).unwrap();
    c.set_model("other-model".to_string());
    assert_eq!(c.get_model(), "other-model");
}

#[test]
fn request_body_exact_text() {
    let c = ApiClient::new(Some("test-key".to_string()), None).unwrap();
    let history = vec![
        Message::new(Role::User, "Say \"hi\"\n".to_string()),
        Message::new(Role::Assistant, "hi".to_string()),
    ];
    let body = c.build_request_body(&history, None, true, None);
    let expected = "{\"model\":\"sonnet-4-20250514\",\"max_tokens\":4096,\"messages\":[{\"role\":\"user\",\"content\":\"Say \\\"hi\\\"\\n\"},{\"role\":\"assistant\",\"content\":\"hi\"}],\"stream\":true}";
    assert_eq!(body, expected);
}

#[test]
fn request_body_with_system_and_override_and_no_stream() {
    let c = ApiClient::new(Some("test-key".to_string()), None).unwrap();
    let history = vec![Message::new(Role::User, "x".to_string())];
    let body = c.build_request_body(&history, Some("be\tbrief"), false, Some("my-model"));
    let expected = "{\"model\":\"my-model\",\"max_tokens\":4096,\"system\":\"be\\tbrief\",\"messages\":[{\"role\":\"user\",\"content\":\"x\"}]}";
    assert_eq!(body, expected);
}

#[test]
fn request_body_escapes_controls_and_backslashes() {
    let c = ApiClient::new(Some("test-key".to_string()), None).unwrap();
    let history = vec![Message::new(Role::User, "a\\b\r\u{1}".to_string())];
    let body = c.build_request_body(&history, None, false, None);
    let expected = "{\"model\":\"sonnet-4-20250514\",\"max_tokens\":4096,\"messages\":[{\"role\":\"user\",\"content\":\"a\\\\b\\r\\u0001\"}]}";
    assert_eq!(body, expected);
}

#[test]
fn turn_history_excludes_the_empty_trailing_assistant_row() {
    let mut conv = chatstream::conversation::Conversation::new();
    conv.add_message(Message::new(Role::User, "Hi".to_string()));
    conv.add_message(Message::new(Role::Assistant, String::new()));
    assert_eq!(conv.turn_history_len(), 1);
    let mut conv = chatstream::conversation::Conversation::new();
    conv.add_message(Message::new(Role::User, "Hi".to_string()));
    conv.add_message(Message::new(Role::Assistant, "done".to_string()));
    assert_eq!(conv.turn_history_len(), 2);
}

#[test]
fn reply_text_of_whole_document() {
    let body =
        b"{\"id\":\"m1\",\"content\":[{\"type\":\"text\",\"text\":\"Hello!\"}],\"usage\":{\"output_tokens\":3}}";
    assert_eq!(
        chatstream::json::extract_reply_text(body),
        Some("Hello!".to_string())
    );
}

#[test]
fn reply_text_of_defective_documents() {
    assert_eq!(chatstream::json::extract_reply_text(b"{\"content\":[]}"), None);
    assert_eq!(chatstream::json::extract_reply_text(b"not json"), None);
    assert_eq!(
        chatstream::json::extract_reply_text(b"{\"content\":[{\"type\":\"tool_use\"}]}"),
        None
    );
}
