//! Exercises the per-turn session bookkeeping and its classifications.

use chatstream::parser::StreamChunk;
use chatstream::session::{status_message, transport_message, Session};

#[test]
fn success_status_emits_nothing() {
    let mut s = Session::new();
    assert!(s.on_status(200, "").is_none());
    assert!(!s.is_finished());
    let out = s.on_bytes(b"data: {\"type\":\"content_block_delta\",\"delta\":{\"type\":\"text_delta\",\"text\":\"Hi\"}}\n");
    assert_eq!(out, vec![StreamChunk::Text("Hi".to_string())]);
    assert_eq!(s.on_end(), Some(StreamChunk::Done));
    assert!(s.is_finished());
}

#[test]
fn rate_limited_status_emits_one_error() {
    let mut s = Session::new();
    let r = s.on_status(429, "{\"error\":\"rate\"}");
    assert_eq!(
        r,
        Some(StreamChunk::Error(
            "Rate limited. Please wait and try again.".to_string()
        ))
    );
    assert!(s.is_finished());
    assert!(s.on_end().is_none());
}

#[test]
fn status_messages_by_class() {
    assert_eq!(
        status_message(401, "ignored"),
        "Invalid API key. Check your ANTHROPIC_API_KEY."
    );
    assert_eq!(
        status_message(429, ""),
        "Rate limited. Please wait and try again."
    );
    assert_eq!(
        status_message(500, ""),
        "API server error. Please try again later."
    );
    assert_eq!(
        status_message(503, ""),
        "API server error. Please try again later."
    );
    assert_eq!(status_message(404, "not found"), "API error (404): not found");
    assert_eq!(status_message(418, ""), "API error (418): ");
}

#[test]
fn transport_messages() {
    assert_eq!(
        transport_message(true, false, false, "x"),
        "Request timed out. Please try again."
    );
    assert_eq!(
        transport_message(false, true, false, "x"),
        "Connection failed. Check your internet connection."
    );
    assert_eq!(
        transport_message(false, false, true, "lost"),
        "Read error: lost"
    );
    assert_eq!(
        transport_message(false, false, false, "boom"),
        "Request failed: boom"
    );
}

#[test]
fn transport_error_finishes_session() {
    let mut s = Session::new();
    assert!(s.on_status(200, "").is_none());
    let r = s.on_transport_error(false, false, true, "connection reset");
    assert_eq!(r, StreamChunk::Error("Read error: connection reset".to_string()));
    assert!(s.is_finished());
    assert!(s.on_end().is_none());
}

#[test]
fn stream_terminal_finishes_session() {
    let mut s = Session::new();
    assert!(s.on_status(200, "").is_none());
    let out = s.on_bytes(b"data: {\"type\":\"message_stop\"}\n");
    assert_eq!(out, vec![StreamChunk::Done]);
    assert!(s.is_finished());
    assert!(s.on_end().is_none());
}

#[test]
fn abrupt_close_synthesizes_done() {
    let mut s = Session::new();
    assert!(s.on_status(200, "").is_none());
    let out = s.on_bytes(b"data: {\"type\":\"content_block_delta\",\"delta\":{\"type\":\"text_delta\",\"text\":\"half\"}}\ndata: {\"type\":\"content_bl");
    assert_eq!(out, vec![StreamChunk::Text("half".to_string())]);
    assert!(!s.is_finished());
    assert_eq!(s.on_end(), Some(StreamChunk::Done));
}
