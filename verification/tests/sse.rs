use std::time::Duration;

use bytes::Bytes;
use wassel::sse::{system_stats_message, SseMessage};

#[test]
fn test_sse_message() {
    let msg = SseMessage::new("Hello, World!");
    assert_eq!(msg.to_string(), "data: Hello, World!\n\n");
}

#[test]
fn test_sse_message_multiline() {
    let msg = SseMessage::new("Hello, World!\nSecond Line\nThird Line");
    assert_eq!(
        msg.to_string(),
        "data: Hello, World!\ndata: Second Line\ndata: Third Line\n\n"
    );
}

#[test]
fn test_sse_message_with_event() {
    let msg = SseMessage::new("Hello, World!").with_event("greet");
    assert_eq!(msg.to_string(), "event: greet\ndata: Hello, World!\n\n");
}

#[test]
fn test_sse_message_with_id() {
    let msg = SseMessage::new("Hello, World!").with_id(2281337);
    assert_eq!(msg.to_string(), "id: 2281337\ndata: Hello, World!\n\n");
}

#[test]
fn test_sse_message_with_retry() {
    let msg = SseMessage::new("Hello, World!").with_retry(Duration::from_secs(5).as_millis());
    assert_eq!(msg.to_string(), "retry: 5000\ndata: Hello, World!\n\n");
}

#[test]
fn test_sse_message_with_full() {
    let msg = SseMessage::new("Hello, World!")
        .with_event("greet")
        .with_id(2281337)
        .with_retry(Duration::from_secs(5).as_millis());
    assert_eq!(
        msg.to_string(),
        "event: greet\nid: 2281337\nretry: 5000\ndata: Hello, World!\n\n"
    );
}

#[test]
fn test_sse_message_with_bytes() {
    let msg = SseMessage::new("Hello, World!")
        .with_event("greet")
        .with_id(2281337)
        .with_retry(Duration::from_secs(5).as_millis());
    let bytes: Bytes = Bytes::from(msg.into_bytes());
    assert_eq!(
        bytes,
        Bytes::from_static(b"event: greet\nid: 2281337\nretry: 5000\ndata: Hello, World!\n\n")
    );
}

#[test]
fn sse_empty_data_has_one_data_line() {
    let msg = SseMessage::new("");
    assert_eq!(msg.to_string(), "data: \n\n");
}

#[test]
fn sse_trailing_newline_gives_empty_last_line() {
    let msg = SseMessage::new("a\n");
    assert_eq!(msg.to_string(), "data: a\ndata: \n\n");
}

#[test]
fn sse_negative_and_extreme_ids() {
    assert_eq!(SseMessage::new("x").with_id(-42).to_string(), "id: -42\ndata: x\n\n");
    assert_eq!(
        SseMessage::new("x").with_id(i64::MIN).to_string(),
        "id: -9223372036854775808\ndata: x\n\n"
    );
    assert_eq!(SseMessage::new("x").with_id(0).to_string(), "id: 0\ndata: x\n\n");
}

#[test]
fn sse_non_ascii_bytes_are_utf8() {
    let msg = SseMessage::new("é");
    assert_eq!(msg.into_bytes(), "data: é\n\n".as_bytes().to_vec());
}

#[test]
fn sse_system_stats_message() {
    let msg = system_stats_message("{\"memory\":1}", 7);
    assert_eq!(
        msg.to_string(),
        "event: system\nid: 7\nretry: 5000\ndata: {\"memory\":1}\n\n"
    );
}

#[test]
fn sse_stats_stream_numbers_messages_in_turn() {
    let mut stream = wassel::sse::StatsStream::new();
    let first = stream.next_message("{}");
    let second = stream.next_message("{}");
    assert_eq!(first.to_string(), "event: system\nid: 0\nretry: 5000\ndata: {}\n\n");
    assert_eq!(second.to_string(), "event: system\nid: 1\nretry: 5000\ndata: {}\n\n");
    assert_eq!(stream.next_id, 2);
}
