//! What holds of frames, budgets and reports, said of the fields that come in and
//! of the results that go out.

use crate::sse::codec::{
    data_values, decode_chunk, has_data, last_event, utf8_lossy_text, DecoderState, RecordField,
};
use crate::sse::error::{duration_debug_text, overflow_error, SseParseError};
use crate::sse::frame::{
    after_chunk, answered, chunk_frames, chunk_result, counted_frames, decides_as, delivered,
    event_frames, frame_of, frame_views, keeps_event_type, lemma_budget_bounds_count,
    limited_result, next_event_count, over_budget, result_view, selected, within_budget, SseFrame,
    SseFrameView,
};
use crate::text::decimal;
use praxis_filter::sse::SseDecodeError;
use std::time::Duration;
use vstd::prelude::*;
use vstd::utf8::{decode_utf8, valid_utf8};

verus! {

/// A frame has the data of its block, line by line and in full: one more data field
/// adds its whole value, behind a line feed where there was data before; no other
/// field adds anything.
pub proof fn law_data_fields_extend_the_frame(fields: Seq<RecordField>, value: Seq<u8>, kept: nat)
    ensures
        frame_of(Seq::empty()).data == Seq::<u8>::empty(),
        ({
            let extended = frame_of(fields.push(RecordField::Data(value))).data;
            if exists|i: int| 0 <= i < fields.len() && #[trigger] fields[i] is Data {
                extended == frame_of(fields).data + seq![10u8] + value
            } else {
                extended == value
            }
        }),
        frame_of(fields.push(RecordField::Event(value))).data == frame_of(fields).data,
        frame_of(fields.push(RecordField::Other(kept))).data == frame_of(fields).data,
{
    let more = fields.push(RecordField::Data(value));
    assert(more.drop_last() =~= fields);
    assert(fields.push(RecordField::Event(value)).drop_last() =~= fields);
    assert(fields.push(RecordField::Other(kept)).drop_last() =~= fields);
    let before = data_values(fields);
    let after = data_values(more);
    assert(after =~= before.push(value));
    assert(after.drop_last() =~= before);
    lemma_data_values(fields);
    if before.len() > 0 {
        assert(frame_of(more).data =~= frame_of(fields).data + seq![10u8] + value);
    }
}

/// There are data values where there are data fields.
proof fn lemma_data_values(fields: Seq<RecordField>)
    ensures
        data_values(fields).len() > 0 <==> exists|i: int|
            0 <= i < fields.len() && #[trigger] fields[i] is Data,
    decreases fields.len(),
{
    if fields.len() > 0 {
        let before = fields.drop_last();
        lemma_data_values(before);
        if exists|i: int| 0 <= i < before.len() && #[trigger] before[i] is Data {
            let i = choose|i: int| 0 <= i < before.len() && #[trigger] before[i] is Data;
            assert(fields[i] is Data);
        }
        if exists|i: int| 0 <= i < fields.len() && #[trigger] fields[i] is Data {
            let i = choose|i: int| 0 <= i < fields.len() && #[trigger] fields[i] is Data;
            if i < before.len() {
                assert(before[i] is Data);
            }
        }
        if fields.last() is Data {
            assert(fields[fields.len() - 1] is Data);
        }
    }
}

/// The frame of a block with one data field has the whole value of that field as
/// its data, of whatever length.
pub proof fn law_single_data_field_is_the_data(fields: Seq<RecordField>, at: int, value: Seq<u8>)
    requires
        0 <= at < fields.len(),
        fields[at] == RecordField::Data(value),
        forall|i: int| 0 <= i < fields.len() && i != at ==> !(#[trigger] fields[i] is Data),
    ensures
        frame_of(fields).data == value,
    decreases fields.len(),
{
    let before = fields.drop_last();
    assert(before.push(fields.last()) =~= fields);
    if at == fields.len() - 1 {
        law_data_fields_extend_the_frame(before, value, 0);
        if exists|i: int| 0 <= i < before.len() && #[trigger] before[i] is Data {
            let i = choose|i: int| 0 <= i < before.len() && #[trigger] before[i] is Data;
            assert(fields[i] is Data);
        }
    } else {
        assert(!(fields[fields.len() - 1] is Data));
        assert forall|i: int| 0 <= i < before.len() && i != at implies !(
        #[trigger] before[i] is Data) by {
            assert(before[i] == fields[i]);
        }
        law_single_data_field_is_the_data(before, at, value);
        match fields.last() {
            RecordField::Event(name) => {
                law_data_fields_extend_the_frame(before, name, 0);
            },
            RecordField::Other(kept) => {
                law_data_fields_extend_the_frame(before, value, kept);
            },
            RecordField::Data(_) => {},
        }
    }
}

/// The number of data fields.
pub open spec fn data_field_count(fields: Seq<RecordField>) -> nat
    decreases fields.len(),
{
    if fields.len() == 0 {
        0
    } else {
        data_field_count(fields.drop_last()) + if fields.last() is Data {
            1nat
        } else {
            0
        }
    }
}

/// The number of bytes in the values of the data fields.
pub open spec fn data_byte_count(fields: Seq<RecordField>) -> nat
    decreases fields.len(),
{
    if fields.len() == 0 {
        0
    } else {
        data_byte_count(fields.drop_last()) + match fields.last() {
            RecordField::Data(value) => value.len(),
            _ => 0,
        }
    }
}

/// No byte of data is lost or added: a frame has as many bytes as its data fields
/// have, and one line feed less than there are such fields.
pub proof fn law_frame_data_length(fields: Seq<RecordField>)
    ensures
        data_field_count(fields) == 0 ==> frame_of(fields).data.len() == 0,
        data_field_count(fields) > 0 ==> frame_of(fields).data.len() == data_byte_count(fields)
            + data_field_count(fields) - 1,
    decreases fields.len(),
{
    if fields.len() > 0 {
        let before = fields.drop_last();
        law_frame_data_length(before);
        lemma_data_field_count(before);
        assert(before.push(fields.last()) =~= fields);
        match fields.last() {
            RecordField::Event(value) => {
                law_data_fields_extend_the_frame(before, value, 0);
            },
            RecordField::Other(kept) => {
                law_data_fields_extend_the_frame(before, Seq::empty(), kept);
            },
            RecordField::Data(value) => {
                law_data_fields_extend_the_frame(before, value, 0);
            },
        }
    }
}

/// Data fields are counted where there are any, and without any there is no byte.
proof fn lemma_data_field_count(fields: Seq<RecordField>)
    ensures
        data_field_count(fields) > 0 <==> exists|i: int|
            0 <= i < fields.len() && #[trigger] fields[i] is Data,
        data_field_count(fields) == 0 ==> data_byte_count(fields) == 0,
    decreases fields.len(),
{
    if fields.len() > 0 {
        let before = fields.drop_last();
        lemma_data_field_count(before);
        if exists|i: int| 0 <= i < before.len() && #[trigger] before[i] is Data {
            let i = choose|i: int| 0 <= i < before.len() && #[trigger] before[i] is Data;
            assert(fields[i] is Data);
        }
        if exists|i: int| 0 <= i < fields.len() && #[trigger] fields[i] is Data {
            let i = choose|i: int| 0 <= i < fields.len() && #[trigger] fields[i] is Data;
            if i < before.len() {
                assert(before[i] is Data);
            }
        }
        if fields.last() is Data {
            assert(fields[fields.len() - 1] is Data);
        }
    }
}

/// The event type of a frame is the text of the block's last `event` field, and a
/// block without one has none.
pub proof fn law_last_event_field_is_the_type(fields: Seq<RecordField>, value: Seq<u8>, kept: nat)
    ensures
        frame_of(Seq::empty()).event_type is None,
        frame_of(fields.push(RecordField::Event(value))).event_type == Some(
            utf8_lossy_text(value),
        ),
        frame_of(fields.push(RecordField::Data(value))).event_type == frame_of(fields).event_type,
        frame_of(fields.push(RecordField::Other(kept))).event_type == frame_of(fields).event_type,
{
    assert(fields.push(RecordField::Event(value)).drop_last() =~= fields);
    assert(fields.push(RecordField::Data(value)).drop_last() =~= fields);
    assert(fields.push(RecordField::Other(kept)).drop_last() =~= fields);
}

/// A well-formed event type is kept character by character. The hypothesis on the
/// block is what building its frame ensures.
pub proof fn law_well_formed_event_type_is_kept(
    fields: Seq<RecordField>,
    at: int,
    value: Seq<u8>,
)
    requires
        keeps_event_type(fields),
        0 <= at < fields.len(),
        fields[at] == RecordField::Event(value),
        forall|i: int| at < i < fields.len() ==> !(#[trigger] fields[i] is Event),
        valid_utf8(value),
    ensures
        frame_of(fields).event_type == Some(decode_utf8(value)),
{
    lemma_last_event(fields, at, value);
}

/// The last `event` field is the one behind which there is none.
proof fn lemma_last_event(fields: Seq<RecordField>, at: int, value: Seq<u8>)
    requires
        0 <= at < fields.len(),
        fields[at] == RecordField::Event(value),
        forall|i: int| at < i < fields.len() ==> !(#[trigger] fields[i] is Event),
    ensures
        last_event(fields) == Some(value),
    decreases fields.len(),
{
    if at < fields.len() - 1 {
        let before = fields.drop_last();
        assert(!(fields[fields.len() - 1] is Event));
        assert forall|i: int| at < i < before.len() implies !(#[trigger] before[i] is Event) by {
            assert(before[i] == fields[i]);
        }
        lemma_last_event(before, at, value);
    }
}

/// Each block with a data field makes one frame, its own, behind those of the
/// blocks before it; a block without one makes none.
pub proof fn law_each_block_with_data_makes_its_frame(
    records: Seq<Seq<RecordField>>,
    fields: Seq<RecordField>,
)
    ensures
        event_frames(Seq::empty()).len() == 0,
        if exists|i: int| 0 <= i < fields.len() && #[trigger] fields[i] is Data {
            event_frames(records.push(fields)) == event_frames(records).push(frame_of(fields))
        } else {
            event_frames(records.push(fields)) == event_frames(records)
        },
{
    assert(records.push(fields).drop_last() =~= records);
    if has_data(fields) {
        let i = choose|i: int| 0 <= i < fields.len() && fields[i] is Data;
        assert(fields[i] is Data);
    }
}

/// The view of a frame says what the frame says: its type, if any, and all its data.
pub proof fn law_frame_views_are_faithful(frame: SseFrame, frames: Seq<SseFrame>)
    ensures
        frame@.data == frame.data@,
        match frame.event_type {
            Some(text) => frame@.event_type == Some(text@),
            None => frame@.event_type is None,
        },
        frame_views(frames).len() == frames.len(),
        forall|i: int| 0 <= i < frames.len() ==> #[trigger] frame_views(frames)[i] == frames[i]@,
{
}

/// The view of a result is that of its frames, or its error.
pub proof fn law_result_views_are_faithful(frames: Vec<SseFrame>, error: SseParseError)
    ensures
        result_view(Ok(frames)) matches Ok(shown) && shown.len() == frames@.len() && forall|i: int|
            0 <= i < shown.len() ==> #[trigger] shown[i] == frames@[i]@,
        result_view(Err(error)) == Err::<Seq<SseFrameView>, SseParseError>(error),
{
}

/// A running parser hands its decoder the whole chunk and turns what comes back
/// into frames; it keeps its limits and is stopped by the decoder's error alone.
pub proof fn law_chunks_go_to_the_decoder(state: DecoderState, chunk: Seq<u8>)
    requires
        state.failure is None,
    ensures
        ({
            let decoded = decode_chunk(
                state.limits.max_line_bytes,
                state.limits.max_record_bytes,
                state.limits.max_fields_per_record,
                state.fed,
                chunk,
            );
            let next = after_chunk(state, chunk);
            &&& chunk_result(state, chunk).records == decoded.records
            &&& chunk_result(state, chunk).error == decoded.error
            &&& chunk_frames(state, chunk) == event_frames(decoded.records)
            &&& next.limits == state.limits
            &&& next.fed == state.fed + chunk
            &&& next.failure == decoded.error
        }),
{
}

/// A stopped parser takes in nothing and repeats its error.
pub proof fn law_stopped_parsers_stay_as_they_are(
    state: DecoderState,
    chunk: Seq<u8>,
    error: SseDecodeError,
)
    requires
        state.failure == Some(error),
    ensures
        chunk_result(state, chunk).records.len() == 0,
        chunk_result(state, chunk).error == Some(error),
        chunk_frames(state, chunk).len() == 0,
        after_chunk(state, chunk) == state,
{
}

/// A chunk that completes one block, with one data field, is parsed to one frame
/// that has the whole value of that field as its data. The hypothesis on the result
/// is what parsing the chunk ensures.
pub proof fn law_single_block_is_parsed_in_full(
    state: DecoderState,
    chunk: Seq<u8>,
    fields: Seq<RecordField>,
    at: int,
    value: Seq<u8>,
    result: Result<Vec<SseFrame>, SseParseError>,
)
    requires
        chunk_result(state, chunk).records == seq![fields],
        chunk_result(state, chunk).error is None,
        0 <= at < fields.len(),
        fields[at] == RecordField::Data(value),
        forall|i: int| 0 <= i < fields.len() && i != at ==> !(#[trigger] fields[i] is Data),
        result_view(result) == Ok::<Seq<SseFrameView>, SseParseError>(
            chunk_frames(state, chunk),
        ),
    ensures
        result matches Ok(frames) && frames@.len() == 1 && frames@[0].data@ == value,
{
    law_single_data_field_is_the_data(fields, at, value);
    law_each_block_with_data_makes_its_frame(Seq::empty(), fields);
    assert(Seq::<Seq<RecordField>>::empty().push(fields) =~= seq![fields]);
    assert(fields[at] is Data);
    assert(event_frames(seq![fields]).len() == 1);
    assert(event_frames(seq![fields])[0] == frame_of(fields));
    if let Ok(frames) = result {
        assert(frame_views(frames@)[0] == frames@[0]@);
    }
}

/// Answers are counted one by one: each `true` is one, each `false` none.
pub proof fn law_answers_are_counted(answers: Seq<bool>, answer: bool)
    ensures
        counted_frames(Seq::empty()) == 0,
        counted_frames(answers.push(answer)) == counted_frames(answers) + if answer {
            1int
        } else {
            0
        },
        counted_frames(answers) <= answers.len(),
    decreases answers.len(),
{
    assert(answers.push(answer).drop_last() =~= answers);
    if answers.len() > 0 {
        law_answers_are_counted(answers.drop_last(), answers.last());
        assert(answers.drop_last().push(answers.last()) =~= answers);
    }
}

/// Frames are selected one by one.
pub proof fn law_frames_are_selected(
    frames: Seq<SseFrameView>,
    frame: SseFrameView,
    selects: spec_fn(SseFrameView) -> bool,
)
    ensures
        selected(Seq::empty(), selects) == 0,
        selected(frames.push(frame), selects) == selected(frames, selects) + if selects(frame) {
            1int
        } else {
            0
        },
{
    assert(Seq::<SseFrameView>::empty().map_values(selects) =~= Seq::empty());
    assert(frames.push(frame).map_values(selects) =~= frames.map_values(selects).push(
        selects(frame),
    ));
    law_answers_are_counted(frames.map_values(selects), selects(frame));
}

/// One more event is counted as one more, up to the largest number there is.
pub proof fn law_next_event_is_counted(current_events: usize, counted_in_chunk: nat)
    ensures
        current_events + counted_in_chunk < usize::MAX ==> next_event_count(
            current_events,
            counted_in_chunk,
        ) == current_events + counted_in_chunk + 1,
        current_events + counted_in_chunk >= usize::MAX ==> next_event_count(
            current_events,
            counted_in_chunk,
        ) == usize::MAX,
{
}

/// Frames that fit the budget are delivered, all of them: the events before the
/// chunk and the counted frames of the chunk together are no more than allowed, or
/// no frame counts.
pub proof fn law_frames_within_the_budget_are_delivered(
    frames: Seq<SseFrameView>,
    counted: nat,
    current_events: usize,
    max_events: usize,
)
    requires
        current_events + counted <= max_events || counted == 0 || max_events == usize::MAX,
    ensures
        limited_result(frames, counted, None, current_events, max_events) == Ok::<
            Seq<SseFrameView>,
            SseParseError,
        >(frames),
{
}

/// Without an excess of events, a framing error is what is reported.
pub proof fn law_framing_errors_are_reported_within_the_budget(
    frames: Seq<SseFrameView>,
    counted: nat,
    error: SseDecodeError,
    current_events: usize,
    max_events: usize,
)
    requires
        current_events + counted <= max_events || counted == 0 || max_events == usize::MAX,
    ensures
        limited_result(frames, counted, Some(error), current_events, max_events) == Err::<
            Seq<SseFrameView>,
            SseParseError,
        >(overflow_error(error)),
{
}

/// Counted frames beyond the budget are refused. The report gives the budget and
/// the number of the first event beyond it: one more than the budget, or than the
/// events before the chunk where those are beyond it already.
pub proof fn law_frames_beyond_the_budget_are_refused(
    frames: Seq<SseFrameView>,
    counted: nat,
    error: Option<SseDecodeError>,
    current_events: usize,
    max_events: usize,
)
    requires
        counted > 0,
        max_events < usize::MAX,
        current_events + counted > max_events,
    ensures
        limited_result(frames, counted, error, current_events, max_events) matches Err(
            SseParseError::EventLimitExceeded { count, limit },
        ) && limit == max_events && {
            &&& current_events <= max_events ==> count == max_events + 1
            &&& max_events < current_events < usize::MAX ==> count == current_events + 1
            &&& current_events == usize::MAX ==> count == usize::MAX
        },
{
}

/// What becomes of frames, in plain numbers: where the events before the chunk and
/// those counted in it are no more than allowed, or none is counted, all frames were
/// asked about and all are handed on, unless there is a framing error, which then is
/// reported.
pub proof fn law_delivery_of_frames_that_fit(
    frames: Seq<SseFrame>,
    answers: Seq<bool>,
    error: Option<SseDecodeError>,
    current_events: usize,
    max_events: usize,
    result: Result<Vec<SseFrame>, SseParseError>,
)
    requires
        delivered(frames, answers, error, current_events, max_events, result),
        current_events + counted_frames(answers) <= max_events || counted_frames(answers) == 0
            || max_events == usize::MAX,
    ensures
        answers.len() == frames.len(),
        match error {
            None => result matches Ok(kept) && kept@ == frames,
            Some(framing) => result == Err::<Vec<SseFrame>, SseParseError>(
                overflow_error(framing),
            ),
        },
{
    assert forall|i: int| 0 <= i < answers.len() implies !over_budget(
        answers,
        i,
        current_events,
        max_events,
    ) by {
        lemma_counted_before(answers, i);
    }
    assert(within_budget(answers, current_events, max_events));
}

/// A `true` answer and those before it are among the counted ones.
proof fn lemma_counted_before(answers: Seq<bool>, i: int)
    requires
        0 <= i < answers.len(),
    ensures
        counted_frames(answers.take(i)) <= counted_frames(answers),
        answers[i] ==> counted_frames(answers.take(i)) + 1 <= counted_frames(answers),
    decreases answers.len(),
{
    let before = answers.drop_last();
    if i == answers.len() - 1 {
        assert(answers.take(i) =~= before);
    } else {
        lemma_counted_before(before, i);
        assert(before.take(i) =~= answers.take(i));
    }
}

/// A frame beyond the budget ends the chunk: the report gives the budget and one
/// more than the budget, or than the events before the chunk where those are beyond
/// it already; and the frame it ends at is the last one asked about.
pub proof fn law_delivery_of_frames_that_do_not_fit(
    frames: Seq<SseFrame>,
    answers: Seq<bool>,
    error: Option<SseDecodeError>,
    current_events: usize,
    max_events: usize,
    result: Result<Vec<SseFrame>, SseParseError>,
)
    requires
        delivered(frames, answers, error, current_events, max_events, result),
        max_events < usize::MAX,
        counted_frames(answers) > 0,
        current_events + counted_frames(answers) > max_events,
    ensures
        result matches Err(SseParseError::EventLimitExceeded { count, limit }) && limit
            == max_events && {
            &&& current_events <= max_events ==> count == max_events + 1
            &&& max_events < current_events < usize::MAX ==> count == current_events + 1
            &&& current_events == usize::MAX ==> count == usize::MAX
        },
        answers.len() > 0 && answers.last(),
{
    if within_budget(answers, current_events, max_events) {
        lemma_budget_bounds_count(answers, current_events, max_events);
    } else {
        let before = answers.drop_last();
        let last = answers.len() - 1;
        lemma_budget_bounds_count(before, current_events, max_events);
        assert(answers.take(last) =~= before);
        let i = choose|i: int|
            0 <= i < answers.len() && over_budget(answers, i, current_events, max_events);
        assert(over_budget(answers, i, current_events, max_events));
        if i < last {
            assert(before.take(i) =~= answers.take(i));
            assert(!over_budget(before, i, current_events, max_events));
        }
    }
}

/// The answers are those of the counting predicate, on the first frames in order.
pub proof fn law_answers_are_those_of_the_predicate<F: FnMut(&SseFrame) -> bool>(
    count_frame: F,
    frames: Seq<SseFrame>,
    answers: Seq<bool>,
)
    requires
        answered(count_frame, frames, answers),
    ensures
        answers.len() <= frames.len(),
        forall|i: int|
            0 <= i < answers.len() ==> call_ensures(
                count_frame,
                (&frames[i],),
                #[trigger] answers[i],
            ),
{
}

/// A predicate whose answers depend on what a frame says alone is one that decides
/// by it.
pub proof fn law_predicates_on_views_decide<F: FnMut(&SseFrame) -> bool>(
    count_frame: F,
    selects: spec_fn(SseFrameView) -> bool,
)
    requires
        forall|frame: &SseFrame, counted: bool| #[trigger]
            call_ensures(count_frame, (frame,), counted) ==> counted == selects(frame@),
    ensures
        decides_as(count_frame, selects),
{
}

/// An overflow is reported with the size or the count that the decoder gives, and
/// with the limit that it gives.
pub proof fn law_overflows_report_what_the_decoder_reports(amount: usize, limit: usize)
    ensures
        overflow_error(SseDecodeError::LineTooLong { size: amount, limit }) == (
        SseParseError::BufferOverflow { buffered_bytes: amount, limit }),
        overflow_error(SseDecodeError::RecordTooLarge { size: amount, limit }) == (
        SseParseError::BufferOverflow { buffered_bytes: amount, limit }),
        overflow_error(SseDecodeError::TooManyFields { count: amount, limit }) == (
        SseParseError::BufferOverflow { buffered_bytes: amount, limit }),
        overflow_error(SseDecodeError::Finished) == (SseParseError::BufferOverflow {
            buffered_bytes: 0,
            limit: 0,
        }),
{
}

/// Messages about a limit name the amount first and the limit last, both in
/// decimal.
pub proof fn law_limit_messages(amount: usize, limit: usize)
    ensures
        (SseParseError::BufferOverflow { buffered_bytes: amount, limit }).message()
            == "SSE buffer overflow: "@ + decimal(amount as nat) + " bytes exceeds "@ + decimal(
            limit as nat,
        ) + " byte limit"@,
        (SseParseError::EventLimitExceeded { count: amount, limit }).message()
            == "SSE event limit exceeded: "@ + decimal(amount as nat) + " events exceeds "@
            + decimal(limit as nat) + " limit"@,
{
}

/// Messages about an event name it in full.
pub proof fn law_event_messages(text: String, other: String, field: &'static str)
    ensures
        (SseParseError::MalformedJson { event_type: text, err: other }).message()
            == "malformed JSON in SSE event '"@ + text@ + "': "@ + other@,
        (SseParseError::MissingEventType { field, event_type: text }).message()
            == "missing string SSE event type field '"@ + field@ + "' near '"@ + text@ + "'"@,
        (SseParseError::EventTypeMismatch { sse_event_type: text, data_event_type: other }).message(
        ) == "SSE event type '"@ + text@ + "' does not match JSON payload type '"@ + other@
            + "'"@,
        (SseParseError::EventAfterTerminal { event_type: text }).message() == "SSE event '"@
            + text@ + "' arrived after terminal event"@,
{
}

/// Messages about the end of a stream.
pub proof fn law_end_messages(elapsed: Duration, limit: Duration)
    ensures
        (SseParseError::Timeout { elapsed, limit }).message() == "SSE stream timeout: "@
            + duration_debug_text(elapsed) + " exceeds "@ + duration_debug_text(limit)
            + " limit"@,
        (SseParseError::MissingTerminalEvent).message()
            == "SSE stream ended without terminal event"@,
{
}

} // verus!
