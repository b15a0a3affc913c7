//! Exercises the incremental frame parser on concrete streams.

use chatstream::parser::{StreamChunk, StreamParser};

fn run_whole(bytes: &[u8]) -> (Vec<StreamChunk>, Option<StreamChunk>) {
    let mut p = StreamParser::new();
    let mut out = p.feed(bytes);
    let fin = p.finish();
    (std::mem::take(&mut out), fin)
}

fn terminal_count(chunks: &[StreamChunk]) -> usize {
    chunks
        .iter()
        .filter(|c| matches!(c, StreamChunk::Done | StreamChunk::Error(_)))
        .count()
}

#[test]
fn reassembly_any_split() {
    // The increments "Hel" then "lo", with a multi-byte character in an
    // ignored line between them, cut at every possible byte boundary.
    let stream: Vec<u8> = [
        "event: content_block_delta\n",
        "data: {\"type\":\"content_block_delta\",\"index\":0,\"delta\":{\"type\":\"text_delta\",\"text\":\"Hel\"}}\n",
        ": k\u{e9}\u{e9}p-alive\n",
        "data: {\"type\":\"content_block_delta\",\"index\":0,\"delta\":{\"type\":\"text_delta\",\"text\":\"lo\"}}\n",
    ]
    .concat()
    .into_bytes();

    for cut in 0..=stream.len() {
        let mut p = StreamParser::new();
        let mut got = p.feed(&stream[..cut]);
        got.extend(p.feed(&stream[cut..]));
        assert_eq!(
            got,
            vec![
                StreamChunk::Text("Hel".to_string()),
                StreamChunk::Text("lo".to_string()),
            ],
            "split at {}",
            cut
        );
        let assembled: String = got
            .iter()
            .map(|c| match c {
                StreamChunk::Text(t) => t.as_str(),
                _ => "",
            })
            .collect();
        assert_eq!(assembled, "Hello");
    }
}

#[test]
fn partial_line_is_held_back() {
    let mut p = StreamParser::new();
    let out = p.feed(b"data: {\"type\":\"message_stop\"}");
    assert!(out.is_empty());
    let out = p.feed(b"\n");
    assert_eq!(out, vec![StreamChunk::Done]);
}

#[test]
fn single_terminal_on_abrupt_close() {
    let (out, fin) = run_whole(
        b"data: {\"type\":\"content_block_delta\",\"delta\":{\"type\":\"text_delta\",\"text\":\"Hi\"}}\n",
    );
    assert_eq!(out, vec![StreamChunk::Text("Hi".to_string())]);
    assert_eq!(fin, Some(StreamChunk::Done));
    assert_eq!(terminal_count(&out), 0);
}

#[test]
fn single_terminal_on_message_stop() {
    let (out, fin) = run_whole(
        b"data: {\"type\":\"message_stop\"}\ndata: {\"type\":\"content_block_delta\",\"delta\":{\"type\":\"text_delta\",\"text\":\"late\"}}\n",
    );
    assert_eq!(out, vec![StreamChunk::Done]);
    assert!(fin.is_none());
    assert_eq!(terminal_count(&out), 1);
}

#[test]
fn error_event_yields_error() {
    let (out, fin) = run_whole(
        b"data: {\"type\":\"error\",\"error\":{\"type\":\"overloaded_error\",\"message\":\"Overloaded\"}}\n",
    );
    assert_eq!(out, vec![StreamChunk::Error("Overloaded".to_string())]);
    assert!(fin.is_none());
}

#[test]
fn malformed_frame_is_skipped() {
    // One corrupt data frame between two valid ones: both texts survive,
    // and the corrupt frame alone ends nothing.
    let stream = [
        "data: {\"type\":\"content_block_delta\",\"delta\":{\"type\":\"text_delta\",\"text\":\"a\"}}\n",
        "data: {\"type\":\"content_block_delta\",\"delta\":{\"ty\n",
        "data: {\"type\":\"content_block_delta\",\"delta\":{\"type\":\"text_delta\",\"text\":\"b\"}}\n",
    ]
    .concat();
    let (out, fin) = run_whole(stream.as_bytes());
    assert_eq!(
        out,
        vec![
            StreamChunk::Text("a".to_string()),
            StreamChunk::Text("b".to_string()),
        ]
    );
    assert_eq!(fin, Some(StreamChunk::Done));
}

#[test]
fn ignorable_lines_are_ignored() {
    let stream = [
        "\n",
        "event: ping\n",
        "data: {\"type\":\"ping\"}\n",
        "data: {\"type\":\"content_block_start\",\"index\":0,\"content_block\":{\"type\":\"text\",\"text\":\"\"}}\n",
        "data: {\"type\":\"content_block_delta\",\"delta\":{\"type\":\"input_json_delta\",\"partial_json\":\"{\"}}\n",
        "data: {\"type\":\"content_block_delta\",\"delta\":{\"type\":\"text_delta\",\"text\":\"ok\"}}\n",
    ]
    .concat();
    let (out, _) = run_whole(stream.as_bytes());
    assert_eq!(out, vec![StreamChunk::Text("ok".to_string())]);
}

#[test]
fn escapes_are_decoded() {
    let (out, _) = run_whole(
        b"data: {\"type\":\"content_block_delta\",\"delta\":{\"type\":\"text_delta\",\"text\":\"a\\n\\t\\\"\\\\\\u0041\\u00e9\"}}\n",
    );
    assert_eq!(out, vec![StreamChunk::Text("a\n\t\"\\A\u{e9}".to_string())]);
}

#[test]
fn surrogate_pair_is_decoded() {
    let (out, _) = run_whole(
        b"data: {\"type\":\"content_block_delta\",\"delta\":{\"type\":\"text_delta\",\"text\":\"\\ud83d\\ude00!\"}}\n",
    );
    assert_eq!(out, vec![StreamChunk::Text("\u{1f600}!".to_string())]);
}

#[test]
fn lone_surrogate_is_malformed() {
    let (out, fin) = run_whole(
        b"data: {\"type\":\"content_block_delta\",\"delta\":{\"type\":\"text_delta\",\"text\":\"\\ud83d oops\"}}\n",
    );
    assert!(out.is_empty());
    assert_eq!(fin, Some(StreamChunk::Done));
}

#[test]
fn whole_payload_must_parse() {
    // A frame with a recognizable prefix but trailing garbage is corrupt
    // as a whole and yields nothing.
    let (out, fin) = run_whole(b"data: {\"type\":\"message_stop\"} x\n");
    assert!(out.is_empty());
    assert_eq!(fin, Some(StreamChunk::Done));
}

#[test]
fn payload_whitespace_is_tolerated() {
    let (out, _) = run_whole(b"data:  { \"type\" : \"message_stop\" } \r\n");
    assert_eq!(out, vec![StreamChunk::Done]);
}
