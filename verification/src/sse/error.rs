//! Errors from SSE parsing, shared across frame and event layers.

use crate::text::{decimal, decimal_text};
use praxis_filter::sse::SseDecodeError;
use std::time::Duration;
use vstd::prelude::*;

verus! {

/// Errors from SSE parsing, shared across frame and event layers.
#[derive(Debug)]
pub enum SseParseError {
    /// Buffered bytes exceeded the configured limit.
    BufferOverflow {
        /// The number of bytes currently buffered.
        buffered_bytes: usize,
        /// The maximum allowed buffered bytes.
        limit: usize,
    },
    /// A `data:` payload was not valid JSON.
    MalformedJson {
        /// The SSE event type that had invalid JSON.
        event_type: String,
        /// The JSON parsing error description.
        err: String,
    },
    /// A required event type field was missing or not a string.
    MissingEventType {
        /// Missing field name.
        field: &'static str,
        /// Event type observed in the other event location.
        event_type: String,
    },
    /// The SSE `event:` field did not match the JSON payload `type`.
    EventTypeMismatch {
        /// Event type from the SSE `event:` field.
        sse_event_type: String,
        /// Event type from the JSON payload `type` field.
        data_event_type: String,
    },
    /// The number of parsed events exceeded the configured limit.
    EventLimitExceeded {
        /// The actual event count.
        count: usize,
        /// The maximum allowed events.
        limit: usize,
    },
    /// The stream exceeded the configured timeout.
    Timeout {
        /// The elapsed time since stream start.
        elapsed: Duration,
        /// The maximum allowed time.
        limit: Duration,
    },
    /// Stream ended without a terminal event.
    MissingTerminalEvent,
    /// A non-error event arrived after stream termination.
    EventAfterTerminal {
        /// Event type observed after termination.
        event_type: String,
    },
}

/// The text that the `Debug` form of a duration shows.
pub uninterp spec fn duration_debug_text(duration: Duration) -> Seq<char>;

/// `Debug` of `Duration`: the duration as text with a unit. The digits and the
/// unit that it picks are left to the name.
#[verifier::external_body]
fn duration_debug(duration: &Duration) -> (text: String)
    ensures
        text@ == duration_debug_text(*duration),
{
    format!("{duration:?}")
}

impl SseParseError {
    /// The message of the error.
    pub open spec fn message(&self) -> Seq<char> {
        match self {
            SseParseError::BufferOverflow { buffered_bytes, limit } => "SSE buffer overflow: "@
                + decimal(*buffered_bytes as nat) + " bytes exceeds "@ + decimal(*limit as nat)
                + " byte limit"@,
            SseParseError::MalformedJson { event_type, err } => "malformed JSON in SSE event '"@
                + event_type@ + "': "@ + err@,
            SseParseError::MissingEventType { field, event_type } =>
                "missing string SSE event type field '"@ + field@ + "' near '"@ + event_type@
                + "'"@,
            SseParseError::EventTypeMismatch { sse_event_type, data_event_type } =>
                "SSE event type '"@ + sse_event_type@ + "' does not match JSON payload type '"@
                + data_event_type@ + "'"@,
            SseParseError::EventLimitExceeded { count, limit } => "SSE event limit exceeded: "@
                + decimal(*count as nat) + " events exceeds "@ + decimal(*limit as nat)
                + " limit"@,
            SseParseError::Timeout { elapsed, limit } => "SSE stream timeout: "@
                + duration_debug_text(*elapsed) + " exceeds "@ + duration_debug_text(*limit)
                + " limit"@,
            SseParseError::MissingTerminalEvent => "SSE stream ended without terminal event"@,
            SseParseError::EventAfterTerminal { event_type } => "SSE event '"@ + event_type@
                + "' arrived after terminal event"@,
        }
    }

    /// Render the error for logs and client-facing replies.
    pub fn to_string(&self) -> (text: String)
        ensures
            text@ == self.message(),
    {
        match self {
            SseParseError::BufferOverflow { buffered_bytes, limit } => {
                let mut text = String::from_str("SSE buffer overflow: ");
                text.append(decimal_text(*buffered_bytes as u64).as_str());
                text.append(" bytes exceeds ");
                text.append(decimal_text(*limit as u64).as_str());
                text.append(" byte limit");
                text
            },
            SseParseError::MalformedJson { event_type, err } => {
                let mut text = String::from_str("malformed JSON in SSE event '");
                text.append(event_type.as_str());
                text.append("': ");
                text.append(err.as_str());
                text
            },
            SseParseError::MissingEventType { field, event_type } => {
                let mut text = String::from_str("missing string SSE event type field '");
                text.append(field);
                text.append("' near '");
                text.append(event_type.as_str());
                text.append("'");
                text
            },
            SseParseError::EventTypeMismatch { sse_event_type, data_event_type } => {
                let mut text = String::from_str("SSE event type '");
                text.append(sse_event_type.as_str());
                text.append("' does not match JSON payload type '");
                text.append(data_event_type.as_str());
                text.append("'");
                text
            },
            SseParseError::EventLimitExceeded { count, limit } => {
                let mut text = String::from_str("SSE event limit exceeded: ");
                text.append(decimal_text(*count as u64).as_str());
                text.append(" events exceeds ");
                text.append(decimal_text(*limit as u64).as_str());
                text.append(" limit");
                text
            },
            SseParseError::Timeout { elapsed, limit } => {
                let mut text = String::from_str("SSE stream timeout: ");
                text.append(duration_debug(elapsed).as_str());
                text.append(" exceeds ");
                text.append(duration_debug(limit).as_str());
                text.append(" limit");
                text
            },
            SseParseError::MissingTerminalEvent => String::from_str(
                "SSE stream ended without terminal event",
            ),
            SseParseError::EventAfterTerminal { event_type } => {
                let mut text = String::from_str("SSE event '");
                text.append(event_type.as_str());
                text.append("' arrived after terminal event");
                text
            },
        }
    }
}

/// The error that a decoder's limit violation surfaces as: every bound on
/// retained memory is a framing overflow.
pub open spec fn overflow_error(error: SseDecodeError) -> SseParseError {
    match error {
        SseDecodeError::LineTooLong { size, limit } => SseParseError::BufferOverflow {
            buffered_bytes: size,
            limit,
        },
        SseDecodeError::RecordTooLarge { size, limit } => SseParseError::BufferOverflow {
            buffered_bytes: size,
            limit,
        },
        SseDecodeError::TooManyFields { count, limit } => SseParseError::BufferOverflow {
            buffered_bytes: count,
            limit,
        },
        SseDecodeError::Finished => SseParseError::BufferOverflow { buffered_bytes: 0, limit: 0 },
    }
}

/// Map a decoder's framing error onto [`SseParseError`].
pub fn map_decode_error(err: SseDecodeError) -> (mapped: SseParseError)
    ensures
        mapped == overflow_error(err),
{
    let (buffered_bytes, limit): (usize, usize) = match err {
        SseDecodeError::LineTooLong { size, limit }
        | SseDecodeError::RecordTooLarge { size, limit } => (size, limit),
        SseDecodeError::TooManyFields { count, limit } => (count, limit),
        SseDecodeError::Finished => (0, 0),
    };
    SseParseError::BufferOverflow { buffered_bytes, limit }
}

} // verus!
