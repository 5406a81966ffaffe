//! What holds of the frame parser over several calls.

use crate::sse::codec::{
    all_fit, begins_line, blank_line_added, blocks_ended, breaks_limit, content_start, data_values,
    decode_stream, ends_blank_line, fits, has_data, has_line_end, has_long_line, has_overfull_block,
    has_oversized_record, is_caused, join_lines, lines_ended, lines_of_one_block, overfills,
    record_size, DecoderState, RecordField,
};
use crate::sse::error::{overflow_error, SseParseError};
use crate::sse::frame::{
    after_chunk, chunk_facts, chunk_frames, chunk_result, counted_frames, delivered, event_frames,
    lemma_budget_bounds_count, limited_result, sound, stream_frames, SseFrame, SseFrameView,
};
use praxis_filter::sse::{SseDecodeError, SseLimits};
use vstd::prelude::*;

verus! {

/// A framing error is permanent: every later chunk completes nothing, is answered
/// with the same error, whatever the event budget, and leaves the parser as it is.
pub proof fn law_framing_error_is_permanent(
    state: DecoderState,
    chunk: Seq<u8>,
    later: Seq<u8>,
    error: SseDecodeError,
    current_events: usize,
    max_events: usize,
)
    requires
        chunk_result(state, chunk).error == Some(error),
    ensures
        ({
            let stopped = after_chunk(state, chunk);
            &&& after_chunk(stopped, later) == stopped
            &&& chunk_frames(stopped, later).len() == 0
            &&& chunk_result(stopped, later).error == Some(error)
            &&& limited_result(
                chunk_frames(stopped, later),
                chunk_frames(stopped, later).len(),
                chunk_result(stopped, later).error,
                current_events,
                max_events,
            ) == Err::<Seq<SseFrameView>, SseParseError>(overflow_error(error))
        }),
{
}

/// Chunk boundaries do not matter: a stream handed over in two pieces completes
/// the frames that it completes in one, overflows where it does in one, and
/// leaves the parser in the same state. The hypotheses are what every call that
/// takes in the chunk ensures.
pub proof fn law_chunk_boundaries_do_not_matter(state: DecoderState, a: Seq<u8>, b: Seq<u8>)
    requires
        state.failure is None,
        after_chunk(state, a).failure is None,
        chunk_facts(state, a),
        chunk_facts(after_chunk(state, a), b),
        chunk_facts(state, a + b),
    ensures
        chunk_frames(state, a + b) == chunk_frames(state, a) + chunk_frames(
            after_chunk(state, a),
            b,
        ),
        after_chunk(state, a + b).failure is None <==> after_chunk(
            after_chunk(state, a),
            b,
        ).failure is None,
        after_chunk(state, a + b).failure is None ==> after_chunk(state, a + b) == after_chunk(
            after_chunk(state, a),
            b,
        ),
{
    let between = after_chunk(state, a);
    assert(state.fed + (a + b) =~= (state.fed + a) + b);
    let start = stream_frames(state);
    let first = chunk_frames(state, a);
    let second = chunk_frames(between, b);
    let whole = chunk_frames(state, a + b);
    assert(start + whole =~= start + (first + second));
    assert(whole =~= (start + whole).skip(start.len() as int));
    assert(first + second =~= (start + (first + second)).skip(start.len() as int));
}

/// The bytes of the chunks, one after the other.
pub open spec fn joined(chunks: Seq<Seq<u8>>) -> Seq<u8>
    decreases chunks.len(),
{
    if chunks.len() == 0 {
        Seq::empty()
    } else {
        joined(chunks.drop_last()) + chunks.last()
    }
}

/// The state of a parser after a run of chunks.
pub open spec fn after_chunks(state: DecoderState, chunks: Seq<Seq<u8>>) -> DecoderState
    decreases chunks.len(),
{
    if chunks.len() == 0 {
        state
    } else {
        after_chunk(after_chunks(state, chunks.drop_last()), chunks.last())
    }
}

/// The frames that a run of chunks completes.
pub open spec fn run_frames(state: DecoderState, chunks: Seq<Seq<u8>>) -> Seq<SseFrameView>
    decreases chunks.len(),
{
    if chunks.len() == 0 {
        Seq::empty()
    } else {
        run_frames(state, chunks.drop_last()) + chunk_frames(
            after_chunks(state, chunks.drop_last()),
            chunks.last(),
        )
    }
}

/// What the calls that take in the chunks ensure, chunk by chunk.
pub open spec fn run_facts(state: DecoderState, chunks: Seq<Seq<u8>>) -> bool
    decreases chunks.len(),
{
    chunks.len() > 0 ==> {
        &&& run_facts(state, chunks.drop_last())
        &&& chunk_facts(after_chunks(state, chunks.drop_last()), chunks.last())
    }
}

/// However a stream is cut into chunks, the parser delivers the same frames for
/// it and ends in the same state, as long as no cut of it overflows. The
/// hypotheses on the runs are what the calls that take in the chunks ensure.
pub proof fn law_frames_do_not_depend_on_the_cut(
    state: DecoderState,
    one: Seq<Seq<u8>>,
    other: Seq<Seq<u8>>,
)
    requires
        joined(one) == joined(other),
        run_facts(state, one),
        run_facts(state, other),
        after_chunks(state, one).failure is None,
        after_chunks(state, other).failure is None,
    ensures
        run_frames(state, one) == run_frames(state, other),
        after_chunks(state, one) == after_chunks(state, other),
{
    lemma_run(state, one);
    lemma_run(state, other);
    let start = stream_frames(state);
    let first = run_frames(state, one);
    let second = run_frames(state, other);
    assert(first =~= (start + first).skip(start.len() as int));
    assert(second =~= (start + second).skip(start.len() as int));
}

/// A run that never overflows takes in all its bytes and completes the frames
/// that they add to the stream.
proof fn lemma_run(state: DecoderState, chunks: Seq<Seq<u8>>)
    requires
        run_facts(state, chunks),
        after_chunks(state, chunks).failure is None,
    ensures
        after_chunks(state, chunks) == (DecoderState {
            limits: state.limits,
            fed: state.fed + joined(chunks),
            failure: None,
        }),
        stream_frames(after_chunks(state, chunks)) == stream_frames(state) + run_frames(
            state,
            chunks,
        ),
    decreases chunks.len(),
{
    if chunks.len() == 0 {
        assert(state.fed + joined(chunks) =~= state.fed);
        assert(stream_frames(state) + run_frames(state, chunks) =~= stream_frames(state));
    } else {
        let before = chunks.drop_last();
        lemma_run(state, before);
        assert((state.fed + joined(before)) + chunks.last() =~= state.fed + joined(chunks));
        let last = chunk_frames(after_chunks(state, before), chunks.last());
        assert((stream_frames(state) + run_frames(state, before)) + last =~= stream_frames(state)
            + run_frames(state, chunks));
    }
}

/// An overflow report is genuine: it names a limit of the parser and an amount
/// above it, which a line or a block of the stream up to now has; and the parser
/// stays sound.
pub proof fn law_overflow_reports_a_broken_limit(
    state: DecoderState,
    chunk: Seq<u8>,
    error: SseDecodeError,
)
    requires
        sound(state),
        chunk_facts(state, chunk),
        chunk_result(state, chunk).error == Some(error),
    ensures
        breaks_limit(error, state.limits),
        is_caused(error, after_chunk(state, chunk).fed),
        sound(after_chunk(state, chunk)),
        overflow_error(error) matches SseParseError::BufferOverflow { buffered_bytes, limit }
            && buffered_bytes > limit,
{
}

/// A line longer than the line limit is refused, ended or not, however the stream
/// was cut: the bytes `i..j` of the stream are part of one line.
pub proof fn law_long_line_is_refused(state: DecoderState, chunk: Seq<u8>, i: int, j: int)
    requires
        state.failure is None,
        chunk_facts(state, chunk),
        content_start(state.fed + chunk) <= i <= j <= (state.fed + chunk).len(),
        j - i > state.limits.max_line_bytes,
        !has_line_end((state.fed + chunk).subrange(i, j)),
    ensures
        chunk_result(state, chunk).error is Some,
        after_chunk(state, chunk).failure is Some,
{
    assert(has_long_line(state.fed + chunk, state.limits));
}

/// Lines that are too much for one record are refused, before a blank line ends
/// them and however the stream was cut: the bytes `i..j` of the stream are such
/// lines.
pub proof fn law_overfull_block_is_refused(state: DecoderState, chunk: Seq<u8>, i: int, j: int)
    requires
        state.failure is None,
        chunk_facts(state, chunk),
        content_start(state.fed + chunk) <= i <= j <= (state.fed + chunk).len(),
        overfills((state.fed + chunk).subrange(i, j), state.limits),
    ensures
        chunk_result(state, chunk).error is Some,
        after_chunk(state, chunk).failure is Some,
{
    assert(has_overfull_block(state.fed + chunk, state.limits));
}

/// A record that does not fit the limits is refused, where other limits would let
/// it through; and so it is as soon as its last line has ended.
pub proof fn law_oversized_record_is_refused(
    state: DecoderState,
    chunk: Seq<u8>,
    other: SseLimits,
)
    requires
        state.failure is None,
        chunk_facts(state, chunk),
        !all_fit(
            decode_stream(other, blank_line_added(state.fed + chunk)).records,
            state.limits,
        ),
    ensures
        chunk_result(state, chunk).error is Some,
        after_chunk(state, chunk).failure is Some,
{
    assert(has_oversized_record(state.fed + chunk, state.limits));
}

/// A frame is bounded by the limits: its data is no longer than a record may be,
/// but for the line feeds that join its lines.
pub proof fn law_frames_are_bounded(state: DecoderState, chunk: Seq<u8>, i: int)
    requires
        chunk_facts(state, chunk),
        0 <= i < chunk_frames(state, chunk).len(),
    ensures
        chunk_frames(state, chunk)[i].data.len() <= state.limits.max_record_bytes
            + state.limits.max_fields_per_record,
{
    lemma_frames_of_fitting_records(chunk_result(state, chunk).records, state.limits, i);
}

/// The frames of records that fit the limits are bounded.
proof fn lemma_frames_of_fitting_records(
    records: Seq<Seq<RecordField>>,
    limits: SseLimits,
    i: int,
)
    requires
        all_fit(records, limits),
        0 <= i < event_frames(records).len(),
    ensures
        event_frames(records)[i].data.len() <= limits.max_record_bytes
            + limits.max_fields_per_record,
    decreases records.len(),
{
    let before = records.drop_last();
    assert(all_fit(before, limits)) by {
        assert forall|k: int| 0 <= k < before.len() implies fits(
            #[trigger] before[k],
            limits,
        ) by {
            assert(fits(records[k], limits));
        }
    }
    if i < event_frames(before).len() {
        lemma_frames_of_fitting_records(before, limits, i);
    } else {
        assert(fits(records[records.len() - 1], limits));
        lemma_joined_data(records.last());
    }
}

/// The joined data of a record is what is kept of its data fields, and a line feed
/// between any two.
proof fn lemma_joined_data(fields: Seq<RecordField>)
    ensures
        data_values(fields).len() <= fields.len(),
        join_lines(data_values(fields)).len() <= record_size(fields) + data_values(fields).len(),
    decreases fields.len(),
{
    if fields.len() > 0 {
        let before = fields.drop_last();
        lemma_joined_data(before);
        if let RecordField::Data(value) = fields.last() {
            assert(data_values(fields).drop_last() =~= data_values(before));
        }
    }
}

/// No block of the stream has more lines than a record may have fields.
pub open spec fn has_few_lines(stream: Seq<u8>, limits: SseLimits) -> bool {
    forall|i: int, j: int| #[trigger]
        lines_of_one_block(stream, i, j) ==> lines_ended(stream, i, j)
            <= limits.max_fields_per_record
}

/// No line of the stream is longer than a line may be, and no block has more lines
/// or, but for the line ends, more bytes than a record may have.
pub open spec fn stays_within(stream: Seq<u8>, limits: SseLimits) -> bool {
    &&& !has_long_line(stream, limits)
    &&& has_few_lines(stream, limits)
    &&& forall|i: int, j: int| #[trigger]
        lines_of_one_block(stream, i, j) ==> j - i <= limits.max_record_bytes + lines_ended(
            stream,
            i,
            j,
        )
}

/// A stream whose lines and blocks stay within the limits never overflows, however
/// long it is: a running parser takes in the chunk and, with no event budget to
/// hold it to, hands on its frames.
pub proof fn law_streams_within_limits_are_accepted(state: DecoderState, chunk: Seq<u8>)
    requires
        state.failure is None,
        chunk_facts(state, chunk),
        stays_within(state.fed + chunk, state.limits),
    ensures
        chunk_result(state, chunk).error is None,
        after_chunk(state, chunk).failure is None,
        limited_result(
            chunk_frames(state, chunk),
            chunk_frames(state, chunk).len(),
            chunk_result(state, chunk).error,
            0,
            usize::MAX,
        ) == Ok::<Seq<SseFrameView>, SseParseError>(chunk_frames(state, chunk)),
{
    let stream = state.fed + chunk;
    if let Some(error) = chunk_result(state, chunk).error {
        assert(breaks_limit(error, state.limits) && is_caused(error, stream));
        if let SseDecodeError::LineTooLong { size, limit } = error {
            lemma_long_line(stream, error, state.limits);
        }
        assert(false);
    }
}

/// Where an over-long line is reported, there is one.
proof fn lemma_long_line(stream: Seq<u8>, error: SseDecodeError, limits: SseLimits)
    requires
        error is LineTooLong,
        breaks_limit(error, limits),
        is_caused(error, stream),
    ensures
        has_long_line(stream, limits),
{
    if let SseDecodeError::LineTooLong { size, limit } = error {
        let i = choose|i: int|
            {
                &&& begins_line(stream, i)
                &&& i + size <= stream.len()
                &&& !has_line_end(#[trigger] stream.subrange(i, i + size))
            };
        let j = i + size;
        assert(!has_line_end(stream.subrange(i, j)));
    }
}

/// No more lines end than there are bytes.
proof fn lemma_lines_ended(stream: Seq<u8>, from: int, to: int)
    requires
        from <= to,
    ensures
        lines_ended(stream, from, to) <= to - from,
    decreases to - from,
{
    if from < to {
        lemma_lines_ended(stream, from, to - 1);
    }
}

/// A stream that is no longer than any limit never overflows: a running parser
/// takes in the chunk and, with no event budget to hold it to, hands on its frames.
pub proof fn law_short_streams_are_accepted(state: DecoderState, chunk: Seq<u8>)
    requires
        state.failure is None,
        chunk_facts(state, chunk),
        state.fed.len() + chunk.len() <= state.limits.max_line_bytes,
        state.fed.len() + chunk.len() <= state.limits.max_record_bytes,
        state.fed.len() + chunk.len() <= state.limits.max_fields_per_record,
    ensures
        chunk_result(state, chunk).error is None,
        after_chunk(state, chunk).failure is None,
        limited_result(
            chunk_frames(state, chunk),
            chunk_frames(state, chunk).len(),
            chunk_result(state, chunk).error,
            0,
            usize::MAX,
        ) == Ok::<Seq<SseFrameView>, SseParseError>(chunk_frames(state, chunk)),
{
    lemma_short_stream_has_few_lines(state.fed + chunk, state.limits);
    law_streams_within_limits_are_accepted(state, chunk);
}

/// A stream of no more bytes than a record may have fields has few lines.
proof fn lemma_short_stream_has_few_lines(stream: Seq<u8>, limits: SseLimits)
    requires
        stream.len() <= limits.max_fields_per_record,
    ensures
        has_few_lines(stream, limits),
{
    assert forall|i: int, j: int| #[trigger]
        lines_of_one_block(stream, i, j) implies lines_ended(stream, i, j)
        <= limits.max_fields_per_record by {
        lemma_lines_ended(stream, i, j);
    }
}

/// An over-long line is reported against the byte budget: where lines and records
/// have one budget, as in every new parser, and no block has more lines than fields
/// are allowed, the reported limit is that budget. A stream of no more bytes than
/// fields are allowed has no such block.
pub proof fn law_long_line_reports_the_byte_budget(
    state: DecoderState,
    chunk: Seq<u8>,
    i: int,
    j: int,
)
    requires
        state.failure is None,
        chunk_facts(state, chunk),
        state.limits.max_line_bytes == state.limits.max_record_bytes,
        has_few_lines(state.fed + chunk, state.limits) || (state.fed + chunk).len()
            <= state.limits.max_fields_per_record,
        content_start(state.fed + chunk) <= i <= j <= (state.fed + chunk).len(),
        j - i > state.limits.max_line_bytes,
        !has_line_end((state.fed + chunk).subrange(i, j)),
    ensures
        chunk_result(state, chunk).error matches Some(error) && overflow_error(
            error,
        ) matches SseParseError::BufferOverflow { buffered_bytes, limit } && limit
            == state.limits.max_line_bytes && buffered_bytes > limit,
{
    law_long_line_is_refused(state, chunk, i, j);
    if (state.fed + chunk).len() <= state.limits.max_fields_per_record {
        lemma_short_stream_has_few_lines(state.fed + chunk, state.limits);
    }
}

/// A block is dispatched only at a blank line: a chunk completes no more frames
/// than blocks end in it, and none where it ends no blank line.
pub proof fn law_blocks_are_dispatched_at_blank_lines(state: DecoderState, chunk: Seq<u8>)
    requires
        chunk_facts(state, chunk),
    ensures
        chunk_frames(state, chunk).len() <= blocks_ended(
            state.fed + chunk,
            state.fed.len() as int,
            (state.fed + chunk).len() as int,
        ),
        (forall|i: int|
            state.fed.len() <= i < (state.fed + chunk).len() ==> !#[trigger] ends_blank_line(
                state.fed + chunk,
                i,
            )) ==> chunk_frames(state, chunk).len() == 0,
{
    let stream = state.fed + chunk;
    lemma_no_more_frames_than_records(chunk_result(state, chunk).records);
    if forall|i: int|
        state.fed.len() <= i < stream.len() ==> !#[trigger] ends_blank_line(stream, i) {
        lemma_no_block_ends(stream, state.fed.len() as int, stream.len() as int);
    }
}

/// Every block that ends is completed: a chunk that does not overflow completes as
/// many records as blocks end in it, and where all of them carry data, as many
/// frames.
pub proof fn law_ended_blocks_are_completed(state: DecoderState, chunk: Seq<u8>)
    requires
        state.failure is None,
        chunk_facts(state, chunk),
        chunk_result(state, chunk).error is None,
    ensures
        chunk_result(state, chunk).records.len() == blocks_ended(
            state.fed + chunk,
            state.fed.len() as int,
            (state.fed + chunk).len() as int,
        ),
        (forall|i: int|
            0 <= i < chunk_result(state, chunk).records.len() ==> has_data(
                #[trigger] chunk_result(state, chunk).records[i],
            )) ==> chunk_frames(state, chunk).len() == blocks_ended(
            state.fed + chunk,
            state.fed.len() as int,
            (state.fed + chunk).len() as int,
        ),
{
    let records = chunk_result(state, chunk).records;
    if forall|i: int| 0 <= i < records.len() ==> has_data(#[trigger] records[i]) {
        lemma_frame_per_event(records);
    }
}

/// Records make at most one frame each.
proof fn lemma_no_more_frames_than_records(records: Seq<Seq<RecordField>>)
    ensures
        event_frames(records).len() <= records.len(),
    decreases records.len(),
{
    if records.len() > 0 {
        lemma_no_more_frames_than_records(records.drop_last());
    }
}

/// Records that all carry data make one frame each.
proof fn lemma_frame_per_event(records: Seq<Seq<RecordField>>)
    requires
        forall|i: int| 0 <= i < records.len() ==> has_data(#[trigger] records[i]),
    ensures
        event_frames(records).len() == records.len(),
    decreases records.len(),
{
    if records.len() > 0 {
        let before = records.drop_last();
        assert(has_data(records[records.len() - 1]));
        assert forall|i: int| 0 <= i < before.len() implies has_data(#[trigger] before[i]) by {
            assert(before[i] == records[i]);
        }
        lemma_frame_per_event(before);
    }
}

/// Where no blank line ends, no block does.
proof fn lemma_no_block_ends(stream: Seq<u8>, from: int, to: int)
    requires
        forall|i: int| from <= i < to ==> !#[trigger] ends_blank_line(stream, i),
    ensures
        blocks_ended(stream, from, to) == 0,
    decreases to - from,
{
    if from < to {
        lemma_no_block_ends(stream, from, to - 1);
        assert(!ends_blank_line(stream, to - 1));
    }
}

/// A block that no line end completes is never dispatched, and without an overflow
/// such a chunk is accepted whatever the event budget.
pub proof fn law_unterminated_block_is_not_dispatched(
    state: DecoderState,
    chunk: Seq<u8>,
    current_events: usize,
    max_events: usize,
)
    requires
        chunk_facts(state, chunk),
        !has_line_end(chunk),
    ensures
        chunk_frames(state, chunk).len() == 0,
        chunk_result(state, chunk).error is None ==> limited_result(
            chunk_frames(state, chunk),
            0,
            None,
            current_events,
            max_events,
        ) == Ok::<Seq<SseFrameView>, SseParseError>(chunk_frames(state, chunk)),
{
    let stream = state.fed + chunk;
    assert forall|i: int| state.fed.len() <= i < stream.len() implies !#[trigger] ends_blank_line(
        stream,
        i,
    ) by {
        assert(stream[i] == chunk[i - state.fed.len()]);
    }
    law_blocks_are_dispatched_at_blank_lines(state, chunk);
}

/// Blocks without data never surface as frames.
pub proof fn law_blocks_without_data_are_no_frames(records: Seq<Seq<RecordField>>)
    requires
        forall|i: int| 0 <= i < records.len() ==> !has_data(#[trigger] records[i]),
    ensures
        event_frames(records).len() == 0,
    decreases records.len(),
{
    if records.len() > 0 {
        assert(!has_data(records.last()));
        assert forall|i: int| 0 <= i < records.drop_last().len() implies !has_data(
            #[trigger] records.drop_last()[i],
        ) by {
            assert(records.drop_last()[i] == records[i]);
        }
        law_blocks_without_data_are_no_frames(records.drop_last());
    }
}

/// Frames are handed on all together or not at all, and only where the counted
/// ones fit the budget.
pub proof fn law_delivery_stays_in_budget(
    frames: Seq<SseFrame>,
    answers: Seq<bool>,
    error: Option<SseDecodeError>,
    current_events: usize,
    max_events: usize,
    kept: Vec<SseFrame>,
)
    requires
        answers.len() <= frames.len(),
        delivered(frames, answers, error, current_events, max_events, Ok(kept)),
    ensures
        kept@ == frames,
        error is None,
        answers.len() == frames.len(),
        counted_frames(answers) > 0 && max_events < usize::MAX ==> current_events + counted_frames(
            answers,
        ) <= max_events,
{
    if max_events < usize::MAX {
        lemma_budget_bounds_count(answers, current_events, max_events);
    }
}

/// The event budget comes before a framing error of the same chunk.
pub proof fn law_event_limit_precedes_framing_error(
    frames: Seq<SseFrameView>,
    counted: nat,
    error: SseDecodeError,
    current_events: usize,
    max_events: usize,
)
    requires
        limited_result(frames, counted, None, current_events, max_events) is Err,
    ensures
        limited_result(frames, counted, Some(error), current_events, max_events) == limited_result(
            frames,
            counted,
            None,
            current_events,
            max_events,
        ),
{
}

} // verus!
