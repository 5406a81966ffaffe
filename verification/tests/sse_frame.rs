//! Frames, event budget and overflow reports of the SSE frame parser.

use bytes::Bytes;
use praxis_filter::sse::SseDecodeError;
use praxis_openai::sse::error::map_decode_error;
use praxis_openai::sse::frame::{check_event_limit, deliver_frames, SseFrame, SseFrameParser};
use praxis_openai::sse::SseParseError;

const MAX_BUF: usize = 65_536;

/// Wrap a byte slice as the `Bytes` the parser hands around.
fn chunk(bytes: &'static [u8]) -> Bytes {
    Bytes::from_static(bytes)
}

// -------------------------------------------------------------------------

#[test]
fn data_record_maps_to_frame() {
    let mut parser = SseFrameParser::new(MAX_BUF);
    let frames = parser.parse_chunk(&chunk(b"data: hello\n\n")).unwrap();
    assert_eq!(frames.len(), 1, "single complete frame should dispatch");
    assert_eq!(frames[0].data, b"hello", "frame data should match");
    assert_eq!(frames[0].event_type, None, "frame should not have event type");
}

#[test]
fn event_field_maps_to_frame_event_type() {
    let mut parser = SseFrameParser::new(MAX_BUF);
    let frames = parser
        .parse_chunk(&chunk(b"event: response.created\ndata: {\"id\":\"r1\"}\n\n"))
        .unwrap();
    assert_eq!(frames.len(), 1, "single event frame should dispatch");
    assert_eq!(
        frames[0].event_type.as_deref(),
        Some("response.created"),
        "event type should be captured"
    );
    assert_eq!(frames[0].data, b"{\"id\":\"r1\"}", "event data should match");
}

#[test]
fn every_record_in_chunk_maps_to_a_frame() {
    let mut parser = SseFrameParser::new(MAX_BUF);
    let frames = parser.parse_chunk(&chunk(b"data: first\n\ndata: second\n\n")).unwrap();
    assert_eq!(frames.len(), 2, "both records in the chunk should map to frames");
    assert_eq!(frames[0].data, b"first", "first frame data should match");
    assert_eq!(frames[1].data, b"second", "second frame data should match");
}

#[test]
fn multiline_data_is_joined_into_frame() {
    let mut parser = SseFrameParser::new(MAX_BUF);
    let frames = parser
        .parse_chunk(&chunk(b"data: line1\ndata: line2\ndata: line3\n\n"))
        .unwrap();
    assert_eq!(frames.len(), 1, "multiline data should dispatch one frame");
    assert_eq!(
        frames[0].data, b"line1\nline2\nline3",
        "the record's joined data should surface in the frame"
    );
}

#[test]
fn decoder_state_persists_across_chunks() {
    // The adapter owns the request-scoped decoder, so a record split across
    // two `parse_chunk` calls must still complete.
    let mut parser = SseFrameParser::new(MAX_BUF);
    let frames1 = parser.parse_chunk(&chunk(b"data: hel")).unwrap();
    assert!(frames1.is_empty(), "partial frame should not dispatch");
    let frames2 = parser.parse_chunk(&chunk(b"lo\n\n")).unwrap();
    assert_eq!(frames2.len(), 1, "completed split frame should dispatch");
    assert_eq!(frames2[0].data, b"hello", "joined frame data should match");
}

#[test]
fn lossy_event_type_from_invalid_utf8() {
    let mut parser = SseFrameParser::new(MAX_BUF);
    let frames = parser.parse_chunk(&chunk(b"event: \xFF\xFF\ndata: x\n\n")).unwrap();
    assert_eq!(
        frames.len(),
        1,
        "invalid-UTF-8 event type should still dispatch its data frame"
    );
    assert_eq!(
        frames[0].event_type.as_deref(),
        Some("\u{FFFD}\u{FFFD}"),
        "invalid UTF-8 in the event type should be replaced lossily"
    );
    assert_eq!(
        frames[0].data, b"x",
        "data should be preserved alongside the lossy event type"
    );
}

// -------------------------------------------------------------------------
// Non-event records are skipped (is_event filtering)
// -------------------------------------------------------------------------

#[test]
fn comment_only_record_is_not_a_frame() {
    let mut parser = SseFrameParser::new(MAX_BUF);
    let frames = parser.parse_chunk(&chunk(b": keepalive\n\ndata: hello\n\n")).unwrap();
    assert_eq!(frames.len(), 1, "a comment-only block is not a dispatchable event");
    assert_eq!(frames[0].data, b"hello", "only the data-bearing frame dispatches");
}

#[test]
fn event_only_record_is_not_a_frame() {
    let mut parser = SseFrameParser::new(MAX_BUF);
    let frames = parser.parse_chunk(&chunk(b"event: ping\n\ndata: hello\n\n")).unwrap();
    assert_eq!(
        frames.len(),
        1,
        "an event-only block carries no data and does not dispatch"
    );
    assert_eq!(frames[0].data, b"hello", "only the data-bearing frame dispatches");
    assert_eq!(
        frames[0].event_type, None,
        "the discarded event: does not leak into the next frame"
    );
}

#[test]
fn unterminated_final_block_is_discarded() {
    let mut parser = SseFrameParser::new(MAX_BUF);
    let frames = parser.parse_chunk(&chunk(b"data: no terminator")).unwrap();
    assert!(
        frames.is_empty(),
        "an unterminated final block is never dispatched (finish is not called; WHATWG discard)"
    );
}

// -------------------------------------------------------------------------
// Framing-limit -> BufferOverflow mapping
// -------------------------------------------------------------------------

#[test]
fn line_overflow_maps_to_buffer_overflow() {
    let mut parser = SseFrameParser::new(10);
    let result = parser.parse_chunk(&chunk(b"data: this line is way too long for the limit\n\n"));
    assert!(
        matches!(result, Err(SseParseError::BufferOverflow { .. })),
        "an over-long line should map to a buffer overflow error"
    );
}

#[test]
fn record_overflow_maps_to_buffer_overflow() {
    let mut parser = SseFrameParser::new(20);
    let result = parser.parse_chunk(&chunk(b"event: 1234567890123\ndata: 12345678\n\n"));
    assert!(
        matches!(result, Err(SseParseError::BufferOverflow { .. })),
        "retained record bytes over the limit should map to a buffer overflow error"
    );
}

#[test]
fn overflow_after_a_frame_discards_the_chunk_frames() {
    let mut parser = SseFrameParser::new(15);
    let result = parser.parse_chunk(&chunk(b"data: ok\n\ndata: this-is-way-too-long\n\n"));
    assert!(
        matches!(result, Err(SseParseError::BufferOverflow { .. })),
        "an overflow after a completed frame should still return an error, discarding the chunk's frames"
    );
}

// -------------------------------------------------------------------------
// Event budget (a consumer limit layered above framing)
// -------------------------------------------------------------------------

#[test]
fn event_limit_allows_frames_within_budget() {
    let mut parser = SseFrameParser::new(MAX_BUF);
    let frames = parser
        .parse_chunk_with_event_limit(&chunk(b"data: one\n\ndata: two\n\n"), 0, 5)
        .unwrap();
    assert_eq!(frames.len(), 2, "both frames should be emitted within budget");
}

#[test]
fn event_limit_exact_boundary_succeeds() {
    let mut parser = SseFrameParser::new(MAX_BUF);
    let frames = parser
        .parse_chunk_with_event_limit(&chunk(b"data: one\n\ndata: two\n\n"), 0, 2)
        .unwrap();
    assert_eq!(frames.len(), 2, "exactly at limit should succeed");
}

#[test]
fn event_limit_exceeded_returns_error_before_extra_frame() {
    let mut parser = SseFrameParser::new(MAX_BUF);
    let result = parser.parse_chunk_with_event_limit(&chunk(b"data: one\n\ndata: two\n\ndata: three\n\n"), 0, 2);
    assert!(
        matches!(result, Err(SseParseError::EventLimitExceeded { count: 3, limit: 2 })),
        "third frame should exceed limit of 2"
    );
}

#[test]
fn event_limit_accounts_for_current_events() {
    let mut parser = SseFrameParser::new(MAX_BUF);
    let result = parser.parse_chunk_with_event_limit(&chunk(b"data: one\n\n"), 5, 5);
    assert!(
        matches!(result, Err(SseParseError::EventLimitExceeded { count: 6, limit: 5 })),
        "current_events at limit should reject the next frame"
    );
}

#[test]
fn event_limit_no_frames_always_succeeds() {
    let mut parser = SseFrameParser::new(MAX_BUF);
    let frames = parser
        .parse_chunk_with_event_limit(&chunk(b"data: partial"), 100, 100)
        .unwrap();
    assert!(
        frames.is_empty(),
        "no complete frames should succeed regardless of current count"
    );
}

#[test]
fn counted_event_limit_skips_uncounted_frames() {
    let mut parser = SseFrameParser::new(MAX_BUF);
    // The `[DONE]` sentinel is not counted against the budget but is still
    // emitted, mirroring the OpenAI consumers' `count_frame` predicate.
    let frames = parser
        .parse_chunk_with_counted_event_limit(&chunk(b"data: one\n\ndata: [DONE]\n\n"), 0, 1, |frame| {
            frame.data != b"[DONE]"
        })
        .unwrap();
    assert_eq!(
        frames.len(),
        2,
        "the uncounted sentinel frame is still emitted within budget"
    );
    assert_eq!(frames[1].data, b"[DONE]", "sentinel frame preserved");
}


// -------------------------------------------------------------------------
// Exact reports, permanence and chunk boundaries
// -------------------------------------------------------------------------

fn parse_whole(bytes: &[u8]) -> Vec<SseFrame> {
    let mut parser = SseFrameParser::new(MAX_BUF);
    parser.parse_chunk(&Bytes::copy_from_slice(bytes)).unwrap()
}

fn overflow(result: Result<Vec<SseFrame>, SseParseError>) -> (usize, usize) {
    match result {
        Err(SseParseError::BufferOverflow { buffered_bytes, limit }) => (buffered_bytes, limit),
        other => panic!("expected BufferOverflow, got {other:?}"),
    }
}

#[test]
fn line_overflow_reports_size_and_limit() {
    let mut parser = SseFrameParser::new(10);
    assert_eq!(overflow(parser.parse_chunk(&chunk(b"data: 1234567\n\n"))), (13, 10));
}

#[test]
fn record_overflow_reports_size_and_limit() {
    let mut parser = SseFrameParser::new(20);
    let result = parser.parse_chunk(&chunk(b"event: 1234567890123\ndata: 12345678\n\n"));
    assert_eq!(overflow(result), (21, 20));
}

#[test]
fn field_overflow_reports_count_and_limit() {
    let mut parser = SseFrameParser::new(MAX_BUF);
    let many = Bytes::from(b"data:\n".repeat(4097));
    assert_eq!(overflow(parser.parse_chunk(&many)), (4097, 4096));
}

#[test]
fn most_fields_that_fit_make_one_frame() {
    let mut parser = SseFrameParser::new(MAX_BUF);
    let mut bytes = b"data:\n".repeat(4096);
    bytes.push(b'\n');
    let frames = parser.parse_chunk(&Bytes::from(bytes)).unwrap();
    assert_eq!(frames.len(), 1);
    assert_eq!(frames[0].data, b"\n".repeat(4095));
}

#[test]
fn line_as_long_as_the_limit_is_accepted_and_one_byte_more_is_refused() {
    let mut parser = SseFrameParser::new(10);
    assert!(parser.parse_chunk(&chunk(b"data: 1234")).unwrap().is_empty());
    let frames = parser.parse_chunk(&chunk(b"\n\n")).unwrap();
    assert_eq!(frames[0].data, b"1234");

    // Too long before it ends, and whatever the cut.
    let mut parser = SseFrameParser::new(10);
    assert!(parser.parse_chunk(&chunk(b"data: 1234")).unwrap().is_empty());
    assert_eq!(overflow(parser.parse_chunk(&chunk(b"5"))), (11, 10));
}

#[test]
fn byte_order_mark_is_no_part_of_a_line() {
    let mut parser = SseFrameParser::new(10);
    let frames = parser.parse_chunk(&chunk(b"\xEF\xBB\xBFdata: 1234\n\n")).unwrap();
    assert_eq!(frames[0].data, b"1234");
    let mut parser = SseFrameParser::new(1);
    assert!(parser.parse_chunk(&chunk(b"\xEF\xBB")).unwrap().is_empty());
    assert_eq!(overflow(parser.parse_chunk(&chunk(b"x"))), (2, 1));
}

#[test]
fn record_as_large_as_the_limit_is_accepted_and_one_byte_more_is_refused() {
    let mut parser = SseFrameParser::new(12);
    let frames = parser.parse_chunk(&chunk(b"data: 123456\ndata: 123456\n\n")).unwrap();
    assert_eq!(frames[0].data, b"123456\n123456");

    // Refused as soon as the line that is too much has ended.
    let mut parser = SseFrameParser::new(12);
    let first = parser.parse_chunk(&chunk(b"data: 123456\ndata: 123456\nid: 1")).unwrap();
    assert!(first.is_empty());
    assert_eq!(overflow(parser.parse_chunk(&chunk(b"\n"))), (13, 12));

    // Of an unknown field, the name counts too.
    let mut parser = SseFrameParser::new(12);
    assert_eq!(overflow(parser.parse_chunk(&chunk(b"data: 123456\nother: 12\n"))), (13, 12));
}

#[test]
fn blocks_are_dispatched_at_blank_lines_only() {
    let mut parser = SseFrameParser::new(MAX_BUF);
    for bytes in [&b"data: a\n"[..], b"data: b\r", b"\n", b"event: c"] {
        assert!(parser.parse_chunk(&Bytes::copy_from_slice(bytes)).unwrap().is_empty());
    }
    assert!(parser.parse_chunk(&chunk(b"\r\n")).unwrap().is_empty());
    let frames = parser.parse_chunk(&chunk(b"\r")).unwrap();
    assert_eq!(frames.len(), 1);
    assert_eq!(frames[0].data, b"a\nb");
    // The rest of that line end, and further blank lines, complete nothing.
    assert!(parser.parse_chunk(&chunk(b"\n\n\r\n\r")).unwrap().is_empty());
}

#[test]
fn long_streams_of_short_lines_are_accepted() {
    let mut parser = SseFrameParser::new(16);
    let many = Bytes::from(b"data: 12345678\n\n".repeat(5000));
    assert_eq!(parser.parse_chunk(&many).unwrap().len(), 5000);
}

#[test]
fn overflow_is_permanent() {
    let mut parser = SseFrameParser::new(10);
    assert_eq!(overflow(parser.parse_chunk(&chunk(b"data: 1234567\n\n"))), (13, 10));
    assert_eq!(overflow(parser.parse_chunk(&chunk(b"data: x\n\n"))), (13, 10));
    assert_eq!(overflow(parser.parse_chunk(&chunk(b""))), (13, 10));
    assert_eq!(
        overflow(parser.parse_chunk_with_event_limit(&chunk(b"data: x\n\n"), 9, 0)),
        (13, 10)
    );
}

#[test]
fn event_limit_leaves_the_parser_running() {
    let mut parser = SseFrameParser::new(MAX_BUF);
    let result = parser.parse_chunk_with_event_limit(&chunk(b"data: a\n\ndata: b\n\ndata: c"), 0, 1);
    assert!(matches!(result, Err(SseParseError::EventLimitExceeded { count: 2, limit: 1 })));
    let frames = parser.parse_chunk(&chunk(b"d\n\n")).unwrap();
    assert_eq!(frames.len(), 1);
    assert_eq!(frames[0].data, b"cd");
}

#[test]
fn event_limit_comes_before_a_framing_error() {
    let mut parser = SseFrameParser::new(15);
    let bytes = chunk(b"data: ok\n\ndata: this-is-way-too-long\n\n");
    let result = parser.parse_chunk_with_event_limit(&bytes, 3, 3);
    assert!(matches!(result, Err(SseParseError::EventLimitExceeded { count: 4, limit: 3 })));
    assert_eq!(overflow(parser.parse_chunk(&chunk(b"\n"))).1, 15);
}

#[test]
fn event_count_is_capped() {
    assert!(matches!(
        check_event_limit(usize::MAX, 0, usize::MAX - 1),
        Err(SseParseError::EventLimitExceeded { count: usize::MAX, limit }) if limit == usize::MAX - 1
    ));
    assert!(check_event_limit(usize::MAX, usize::MAX, usize::MAX).is_ok());
    assert!(check_event_limit(2, 1, 4).is_ok());
    assert!(check_event_limit(2, 1, 3).is_err());
}

#[test]
fn every_cut_delivers_the_same_frames() {
    let stream: &[u8] = b"\xEF\xBB\xBFevent: e\r\ndata: 1\rdata: 2\n\n: hi\n\nid: 7\ndata:x\r\n\r\ndata";
    let whole = parse_whole(stream);
    assert_eq!(whole.len(), 2);
    assert_eq!(whole[0].event_type.as_deref(), Some("e"));
    assert_eq!(whole[0].data, b"1\n2");
    assert_eq!(whole[1].data, b"x");
    for a in 0..=stream.len() {
        for b in a..=stream.len() {
            let mut parser = SseFrameParser::new(MAX_BUF);
            let mut frames = Vec::new();
            for piece in [&stream[..a], &stream[a..b], &stream[b..]] {
                frames.extend(parser.parse_chunk(&Bytes::copy_from_slice(piece)).unwrap());
            }
            assert_eq!(frames, whole);
        }
    }
}

#[test]
fn last_event_field_wins_and_empty_data_counts() {
    let frames = parse_whole(b"event: a\nevent: b\ndata\n\n");
    assert_eq!(frames.len(), 1);
    assert_eq!(frames[0].event_type.as_deref(), Some("b"));
    assert!(frames[0].data.is_empty());
}

#[test]
fn frames_are_asked_about_in_order_up_to_the_limit() {
    let frames = parse_whole(b"data: 1\n\ndata: 2\n\ndata: 3\n\n");
    let mut asked = Vec::new();
    let result = deliver_frames(frames, None, 0, 1, |frame: &SseFrame| {
        asked.push(frame.data.clone());
        true
    });
    assert!(matches!(result, Err(SseParseError::EventLimitExceeded { count: 2, limit: 1 })));
    assert_eq!(asked, vec![b"1".to_vec(), b"2".to_vec()]);
}

#[test]
fn framing_error_follows_uncounted_frames() {
    let frames = parse_whole(b"data: 1\n\n");
    let error = SseDecodeError::TooManyFields { count: 9, limit: 8 };
    let result = deliver_frames(frames, Some(error), 5, 0, |_: &SseFrame| false);
    assert_eq!(overflow(result), (9, 8));
}

#[test]
fn decode_errors_map_to_buffer_overflow() {
    let mapped = |err: SseDecodeError| match map_decode_error(err) {
        SseParseError::BufferOverflow { buffered_bytes, limit } => (buffered_bytes, limit),
        other => panic!("expected BufferOverflow, got {other:?}"),
    };
    assert_eq!(mapped(SseDecodeError::LineTooLong { size: 3, limit: 2 }), (3, 2));
    assert_eq!(mapped(SseDecodeError::RecordTooLarge { size: 5, limit: 4 }), (5, 4));
    assert_eq!(mapped(SseDecodeError::TooManyFields { count: 7, limit: 6 }), (7, 6));
    assert_eq!(mapped(SseDecodeError::Finished), (0, 0));
}
