//! Messages of SSE parse errors.

use praxis_openai::sse::SseParseError;
use std::time::Duration;

#[test]
fn display_malformed_json() {
    let err = SseParseError::MalformedJson {
        event_type: "response.created".to_owned(),
        err: "expected value at line 1 column 1".to_owned(),
    };
    let msg = err.to_string();
    assert!(msg.contains("response.created"), "should mention the event type");
    assert!(msg.contains("expected value"), "should include the JSON error");
}

#[test]
fn display_missing_event_type() {
    let err = SseParseError::MissingEventType {
        field: "data.type",
        event_type: "response.created".to_owned(),
    };
    let msg = err.to_string();
    assert!(msg.contains("data.type"), "should mention the missing field");
    assert!(
        msg.contains("response.created"),
        "should mention the observed event type"
    );
}

#[test]
fn display_event_type_mismatch() {
    let err = SseParseError::EventTypeMismatch {
        sse_event_type: "response.completed".to_owned(),
        data_event_type: "response.output_text.delta".to_owned(),
    };
    let msg = err.to_string();
    assert!(msg.contains("response.completed"), "should mention the SSE event type");
    assert!(
        msg.contains("response.output_text.delta"),
        "should mention the payload event type"
    );
}

#[test]
fn display_event_limit_exceeded() {
    let err = SseParseError::EventLimitExceeded { count: 101, limit: 100 };
    let msg = err.to_string();
    assert!(msg.contains("101"), "should mention the count");
    assert!(msg.contains("100"), "should mention the limit");
}

#[test]
fn display_timeout() {
    let err = SseParseError::Timeout {
        elapsed: Duration::from_secs(35),
        limit: Duration::from_secs(30),
    };
    let msg = err.to_string();
    assert!(msg.contains("35"), "should mention elapsed time");
    assert!(msg.contains("30"), "should mention the limit");
}

#[test]
fn display_missing_terminal_event() {
    let err = SseParseError::MissingTerminalEvent;
    let msg = err.to_string();
    assert!(msg.contains("terminal"), "should mention missing terminal event");
}

#[test]
fn display_buffer_overflow() {
    let err = SseParseError::BufferOverflow {
        buffered_bytes: 70_000,
        limit: 65_536,
    };
    let msg = err.to_string();
    assert!(msg.contains("70000"), "should mention buffered bytes");
    assert!(msg.contains("65536"), "should mention the limit");
}

#[test]
fn display_event_after_terminal() {
    let err = SseParseError::EventAfterTerminal {
        event_type: "response.output_text.delta".to_owned(),
    };
    let msg = err.to_string();
    assert!(
        msg.contains("response.output_text.delta"),
        "should mention the event type"
    );
    assert!(msg.contains("terminal"), "should mention terminal context");
}

#[test]
fn messages_in_full() {
    let full = |err: SseParseError| err.to_string();
    assert_eq!(
        full(SseParseError::BufferOverflow { buffered_bytes: 70_000, limit: 65_536 }),
        "SSE buffer overflow: 70000 bytes exceeds 65536 byte limit"
    );
    assert_eq!(
        full(SseParseError::MalformedJson { event_type: "a".to_owned(), err: "b".to_owned() }),
        "malformed JSON in SSE event 'a': b"
    );
    assert_eq!(
        full(SseParseError::MissingEventType { field: "data.type", event_type: "a".to_owned() }),
        "missing string SSE event type field 'data.type' near 'a'"
    );
    assert_eq!(
        full(SseParseError::EventTypeMismatch {
            sse_event_type: "a".to_owned(),
            data_event_type: "b".to_owned(),
        }),
        "SSE event type 'a' does not match JSON payload type 'b'"
    );
    assert_eq!(
        full(SseParseError::EventLimitExceeded { count: 0, limit: usize::MAX }),
        format!("SSE event limit exceeded: 0 events exceeds {} limit", usize::MAX)
    );
    assert_eq!(
        full(SseParseError::Timeout {
            elapsed: Duration::from_millis(1500),
            limit: Duration::from_micros(20),
        }),
        "SSE stream timeout: 1.5s exceeds 20µs limit"
    );
    assert_eq!(
        full(SseParseError::MissingTerminalEvent),
        "SSE stream ended without terminal event"
    );
    assert_eq!(
        full(SseParseError::EventAfterTerminal { event_type: "a".to_owned() }),
        "SSE event 'a' arrived after terminal event"
    );
}
