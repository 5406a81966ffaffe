//! SSE frame reassembly on top of the shared record decoder.
//!
//! The decoder frames every block that a blank line ends. This layer keeps the
//! blocks that carry data, in order, and holds them to an event budget. Provider
//! JSON typing, the `[DONE]` sentinel, timeouts and lifecycle rules belong to
//! the consumers of the frames.

use crate::sse::codec::{
    all_fit, all_record_fields, blocks_ended, breaks_limit, bytes_contents, data_values, decode,
    decode_stream, decoder_state, exceeds_limits, has_data, is_caused, join_lines, last_event,
    record_data, record_fields, utf8_lossy, utf8_lossy_text, DecodedChunk, DecoderState,
    RecordField,
};
use crate::sse::error::{map_decode_error, overflow_error, SseParseError};
use bytes::Bytes;
use praxis_filter::sse::{SseDecodeError, SseDecoder, SseLimits, SseRecord};
use vstd::prelude::*;
use vstd::utf8::{decode_utf8, valid_utf8};

verus! {

/// A completed SSE frame: one event boundary's worth of data.
#[derive(Debug, PartialEq, Eq)]
pub struct SseFrame {
    /// Value from the last `event:` field, if present (lossily UTF-8 decoded).
    pub event_type: Option<String>,
    /// Joined `data:` field values, separated by `\n`.
    pub data: Vec<u8>,
}

/// What a frame says.
pub struct SseFrameView {
    /// The event type, if the block named one.
    pub event_type: Option<Seq<char>>,
    /// The joined data.
    pub data: Seq<u8>,
}

impl View for SseFrame {
    type V = SseFrameView;

    open spec fn view(&self) -> SseFrameView {
        SseFrameView {
            event_type: match self.event_type {
                Some(text) => Some(text@),
                None => None,
            },
            data: self.data@,
        }
    }
}

/// What the frames of a sequence say.
pub open spec fn frame_views(frames: Seq<SseFrame>) -> Seq<SseFrameView> {
    frames.map_values(|frame: SseFrame| frame@)
}

/// The frame of a record with these fields.
pub open spec fn frame_of(fields: Seq<RecordField>) -> SseFrameView {
    SseFrameView {
        event_type: match last_event(fields) {
            Some(bytes) => Some(utf8_lossy_text(bytes)),
            None => None,
        },
        data: join_lines(data_values(fields)),
    }
}

/// A well-formed event type of a record with these fields is kept as it stands.
pub open spec fn keeps_event_type(fields: Seq<RecordField>) -> bool {
    last_event(fields) matches Some(bytes) ==> valid_utf8(bytes) ==> frame_of(fields).event_type
        == Some(decode_utf8(bytes))
}

/// The frames of the records that carry data, in order.
pub open spec fn event_frames(records: Seq<Seq<RecordField>>) -> Seq<SseFrameView>
    decreases records.len(),
{
    if records.len() == 0 {
        Seq::empty()
    } else if has_data(records.last()) {
        event_frames(records.drop_last()).push(frame_of(records.last()))
    } else {
        event_frames(records.drop_last())
    }
}

/// Build an [`SseFrame`] from a data-bearing decoder record.
pub fn frame_from_record(record: &SseRecord) -> (frame: SseFrame)
    ensures
        frame@ == frame_of(record_fields(*record)),
        keeps_event_type(record_fields(*record)),
{
    let event_type = match record.event() {
        Some(bytes) => Some(utf8_lossy(bytes)),
        None => None,
    };
    SseFrame { event_type, data: record_data(record) }
}

/// Build the frames of the records that carry data, in order.
pub fn frames_from_records(records: &Vec<SseRecord>) -> (frames: Vec<SseFrame>)
    ensures
        frame_views(frames@) == event_frames(all_record_fields(records@)),
        forall|i: int|
            0 <= i < records@.len() && has_data(record_fields(records@[i])) ==> keeps_event_type(
                #[trigger] record_fields(records@[i]),
            ),
{
    let mut frames: Vec<SseFrame> = Vec::new();
    let mut i: usize = 0;
    while i < records.len()
        invariant
            i <= records@.len(),
            frame_views(frames@) == event_frames(all_record_fields(records@.take(i as int))),
            forall|j: int|
                0 <= j < i && has_data(record_fields(records@[j])) ==> keeps_event_type(
                    #[trigger] record_fields(records@[j]),
                ),
        decreases records@.len() - i,
    {
        let record = &records[i];
        proof {
            let taken = all_record_fields(records@.take(i + 1));
            assert(taken.drop_last() =~= all_record_fields(records@.take(i as int)));
            assert(taken.last() == record_fields(*record));
        }
        if record.is_event() {
            let frame = frame_from_record(record);
            let ghost before = frames@;
            frames.push(frame);
            assert(frame_views(frames@) =~= frame_views(before).push(frame@));
        }
        i += 1;
    }
    assert(records@.take(i as int) =~= records@);
    frames
}

/// The number of `true` answers.
pub open spec fn counted_frames(answers: Seq<bool>) -> nat
    decreases answers.len(),
{
    if answers.len() == 0 {
        0
    } else {
        counted_frames(answers.drop_last()) + if answers.last() {
            1nat
        } else {
            0
        }
    }
}

/// The event count that one more frame would bring, capped at `usize::MAX`.
pub open spec fn next_event_count(current_events: usize, counted_in_chunk: nat) -> usize {
    if current_events + counted_in_chunk + 1 > usize::MAX {
        usize::MAX
    } else {
        (current_events + counted_in_chunk + 1) as usize
    }
}

/// Frame `i` counts and would exceed the budget.
pub open spec fn over_budget(
    answers: Seq<bool>,
    i: int,
    current_events: usize,
    max_events: usize,
) -> bool {
    answers[i] && next_event_count(current_events, counted_frames(answers.take(i))) > max_events
}

/// No frame that was asked about exceeds the budget.
pub open spec fn within_budget(
    answers: Seq<bool>,
    current_events: usize,
    max_events: usize,
) -> bool {
    forall|i: int| 0 <= i < answers.len() ==> !over_budget(answers, i, current_events, max_events)
}

/// `answers` are what `count_frame` said of the first frames, in order.
pub open spec fn answered<F: FnMut(&SseFrame) -> bool>(
    count_frame: F,
    frames: Seq<SseFrame>,
    answers: Seq<bool>,
) -> bool {
    &&& answers.len() <= frames.len()
    &&& forall|i: int|
        0 <= i < answers.len() ==> call_ensures(count_frame, (&frames[i],), #[trigger] answers[i])
}

/// What becomes of the frames of one chunk, given what `count_frame` answered.
///
/// The event budget comes first: the first counted frame above it ends the
/// chunk. A framing error is next. Only then are the frames handed on, all of
/// them.
pub open spec fn delivered(
    frames: Seq<SseFrame>,
    answers: Seq<bool>,
    error: Option<SseDecodeError>,
    current_events: usize,
    max_events: usize,
    result: Result<Vec<SseFrame>, SseParseError>,
) -> bool {
    if within_budget(answers, current_events, max_events) {
        &&& answers.len() == frames.len()
        &&& match error {
            Some(err) => result == Err::<Vec<SseFrame>, SseParseError>(overflow_error(err)),
            None => result matches Ok(kept) && kept@ == frames,
        }
    } else {
        &&& within_budget(answers.drop_last(), current_events, max_events)
        &&& result == Err::<Vec<SseFrame>, SseParseError>(
            SseParseError::EventLimitExceeded {
                count: next_event_count(current_events, counted_frames(answers.drop_last())),
                limit: max_events,
            },
        )
    }
}

/// A parse result, its frames replaced by what they say.
pub open spec fn result_view(result: Result<Vec<SseFrame>, SseParseError>) -> Result<
    Seq<SseFrameView>,
    SseParseError,
> {
    match result {
        Ok(frames) => Ok(frame_views(frames@)),
        Err(err) => Err(err),
    }
}

/// What becomes of the frames of one chunk of which `counted` count against the
/// budget.
pub open spec fn limited_result(
    frames: Seq<SseFrameView>,
    counted: nat,
    error: Option<SseDecodeError>,
    current_events: usize,
    max_events: usize,
) -> Result<Seq<SseFrameView>, SseParseError> {
    if counted > 0 && max_events < usize::MAX && current_events + counted > max_events {
        let passed = if current_events > max_events {
            current_events
        } else {
            max_events
        };
        Err(
            SseParseError::EventLimitExceeded {
                count: next_event_count(passed, 0),
                limit: max_events,
            },
        )
    } else {
        match error {
            Some(err) => Err(overflow_error(err)),
            None => Ok(frames),
        }
    }
}

/// `count_frame` answers by what a frame says, as `selects` does.
pub open spec fn decides_as<F: FnMut(&SseFrame) -> bool>(
    count_frame: F,
    selects: spec_fn(SseFrameView) -> bool,
) -> bool {
    forall|frame: &SseFrame, counted: bool|
        call_ensures(count_frame, (frame,), counted) ==> counted == selects(frame@)
}

/// The number of frames that `selects` holds of.
pub open spec fn selected(
    frames: Seq<SseFrameView>,
    selects: spec_fn(SseFrameView) -> bool,
) -> nat {
    counted_frames(frames.map_values(selects))
}

/// Check whether another counted frame would exceed the event budget.
pub fn check_event_limit(
    current_events: usize,
    counted_in_chunk: usize,
    max_events: usize,
) -> (result: Result<(), SseParseError>)
    ensures
        ({
            let count = next_event_count(current_events, counted_in_chunk as nat);
            result == if count > max_events {
                Err::<(), SseParseError>(
                    SseParseError::EventLimitExceeded { count, limit: max_events },
                )
            } else {
                Ok::<(), SseParseError>(())
            }
        }),
{
    let count: usize = current_events.saturating_add(counted_in_chunk).saturating_add(1);
    if count > max_events {
        return Err(SseParseError::EventLimitExceeded { count, limit: max_events });
    }
    Ok(())
}

/// Hold the frames of one chunk to the event budget, then report the chunk's
/// framing error, if any, or hand the frames on.
///
/// A frame for which `count_frame` answers `true` is checked against the budget
/// before it is kept. Whatever error is returned, the chunk's frames are gone.
pub fn deliver_frames<F: FnMut(&SseFrame) -> bool>(
    frames: Vec<SseFrame>,
    error: Option<SseDecodeError>,
    current_events: usize,
    max_events: usize,
    count_frame: F,
) -> (result: Result<Vec<SseFrame>, SseParseError>)
    requires
        forall|frame: &SseFrame| count_frame.requires((frame,)),
    ensures
        exists|answers: Seq<bool>|
            {
                &&& #[trigger] answered(count_frame, frames@, answers)
                &&& delivered(frames@, answers, error, current_events, max_events, result)
            },
        forall|selects: spec_fn(SseFrameView) -> bool| #[trigger]
            decides_as(count_frame, selects) ==> result_view(result) == limited_result(
                frame_views(frames@),
                selected(frame_views(frames@), selects),
                error,
                current_events,
                max_events,
            ),
{
    let mut counts = count_frame;
    let ghost mut answers: Seq<bool> = Seq::empty();
    let mut counted_in_chunk: usize = 0;
    let mut i: usize = 0;
    while i < frames.len()
        invariant
            i <= frames@.len(),
            answers.len() == i,
            counted_in_chunk == counted_frames(answers),
            counted_in_chunk <= i,
            counts == count_frame,
            forall|frame: &SseFrame| counts.requires((frame,)),
            answered(count_frame, frames@, answers),
            within_budget(answers, current_events, max_events),
        decreases frames@.len() - i,
    {
        let counted = counts(&frames[i]);
        let ghost before = answers;
        proof {
            answers = before.push(counted);
            assert(answers.drop_last() =~= before);
            assert(answers.take(i as int) =~= before);
            assert forall|j: int| 0 <= j < before.len() implies !over_budget(
                answers,
                j,
                current_events,
                max_events,
            ) by {
                assert(answers.take(j) =~= before.take(j));
                assert(!over_budget(before, j, current_events, max_events));
            }
            assert(answered(count_frame, frames@, answers));
        }
        if counted {
            match check_event_limit(current_events, counted_in_chunk, max_events) {
                Ok(()) => {},
                Err(err) => {
                    assert(over_budget(answers, i as int, current_events, max_events));
                    assert(delivered(
                        frames@,
                        answers,
                        error,
                        current_events,
                        max_events,
                        Err(err),
                    ));
                    proof {
                        lemma_deterministic(
                            count_frame,
                            frames@,
                            answers,
                            error,
                            current_events,
                            max_events,
                            Err(err),
                        );
                    }
                    return Err(err);
                },
            }
            counted_in_chunk = counted_in_chunk.saturating_add(1);
        }
        i += 1;
    }
    let ghost all = frames@;
    let result = match error {
        Some(err) => Err(map_decode_error(err)),
        None => Ok(frames),
    };
    proof {
        lemma_deterministic(
            count_frame,
            all,
            answers,
            error,
            current_events,
            max_events,
            result,
        );
    }
    result
}

/// The first answers count no more frames than all of them.
proof fn lemma_counted_prefix(answers: Seq<bool>, n: int)
    requires
        0 <= n <= answers.len(),
    ensures
        counted_frames(answers.take(n)) <= counted_frames(answers),
    decreases answers.len() - n,
{
    if n == answers.len() {
        assert(answers.take(n) =~= answers);
    } else {
        assert(answers.take(n + 1).drop_last() =~= answers.take(n));
        lemma_counted_prefix(answers, n + 1);
    }
}

/// Where every answer is `true`, as many frames count as were asked about.
proof fn lemma_all_counted(answers: Seq<bool>)
    requires
        forall|i: int| 0 <= i < answers.len() ==> answers[i],
    ensures
        counted_frames(answers) == answers.len(),
    decreases answers.len(),
{
    if answers.len() > 0 {
        lemma_all_counted(answers.drop_last());
    }
}

/// Within a budget, the counted frames fit it.
pub proof fn lemma_budget_bounds_count(
    answers: Seq<bool>,
    current_events: usize,
    max_events: usize,
)
    requires
        within_budget(answers, current_events, max_events),
        max_events < usize::MAX,
    ensures
        counted_frames(answers) > 0 ==> current_events + counted_frames(answers) <= max_events,
    decreases answers.len(),
{
    if answers.len() > 0 {
        let before = answers.drop_last();
        let last = answers.len() - 1;
        assert(answers.take(last) =~= before);
        assert(!over_budget(answers, last, current_events, max_events));
        if !answers.last() {
            assert forall|i: int| 0 <= i < before.len() implies !over_budget(
                before,
                i,
                current_events,
                max_events,
            ) by {
                assert(before.take(i) =~= answers.take(i));
                assert(!over_budget(answers, i, current_events, max_events));
            }
            lemma_budget_bounds_count(before, current_events, max_events);
        }
    }
}

/// Where `count_frame` decides by what a frame says, [`delivered`] leaves one
/// result.
proof fn lemma_deterministic<F: FnMut(&SseFrame) -> bool>(
    count_frame: F,
    frames: Seq<SseFrame>,
    answers: Seq<bool>,
    error: Option<SseDecodeError>,
    current_events: usize,
    max_events: usize,
    result: Result<Vec<SseFrame>, SseParseError>,
)
    requires
        answered(count_frame, frames, answers),
        delivered(frames, answers, error, current_events, max_events, result),
    ensures
        forall|selects: spec_fn(SseFrameView) -> bool| #[trigger]
            decides_as(count_frame, selects) ==> result_view(result) == limited_result(
                frame_views(frames),
                selected(frame_views(frames), selects),
                error,
                current_events,
                max_events,
            ),
{
    assert forall|selects: spec_fn(SseFrameView) -> bool| #[trigger]
        decides_as(count_frame, selects) implies result_view(result) == limited_result(
        frame_views(frames),
        selected(frame_views(frames), selects),
        error,
        current_events,
        max_events,
    ) by {
        let all = frame_views(frames).map_values(selects);
        assert(answers =~= all.take(answers.len() as int)) by {
            assert forall|i: int| 0 <= i < answers.len() implies answers[i] == all[i] by {
                assert(call_ensures(count_frame, (&frames[i],), answers[i]));
            }
        }
        if within_budget(answers, current_events, max_events) {
            assert(answers =~= all);
            if max_events < usize::MAX {
                lemma_budget_bounds_count(answers, current_events, max_events);
            }
        } else {
            let before = answers.drop_last();
            let last = answers.len() - 1;
            let i = choose|i: int|
                0 <= i < answers.len() && over_budget(answers, i, current_events, max_events);
            assert(over_budget(answers, i, current_events, max_events));
            if i < last {
                assert(before.take(i) =~= answers.take(i));
                assert(!over_budget(before, i, current_events, max_events));
            }
            assert(answers.take(last) =~= before);
            lemma_budget_bounds_count(before, current_events, max_events);
            lemma_counted_prefix(all, answers.len() as int);
        }
    }
}

/// What a parser in this state gets out of a chunk: a stopped one completes
/// nothing and repeats its error.
pub open spec fn chunk_result(state: DecoderState, chunk: Seq<u8>) -> DecodedChunk {
    match state.failure {
        Some(error) => DecodedChunk { records: Seq::empty(), error: Some(error) },
        None => decode(state.limits, state.fed, chunk),
    }
}

/// The frames that a chunk completes for a parser in this state.
pub open spec fn chunk_frames(state: DecoderState, chunk: Seq<u8>) -> Seq<SseFrameView> {
    event_frames(chunk_result(state, chunk).records)
}

/// The state of a parser after a chunk. The event budget plays no part in it.
pub open spec fn after_chunk(state: DecoderState, chunk: Seq<u8>) -> DecoderState {
    match state.failure {
        Some(error) => state,
        None => DecoderState {
            limits: state.limits,
            fed: state.fed + chunk,
            failure: decode(state.limits, state.fed, chunk).error,
        },
    }
}

/// The frames in all the bytes that a parser has taken in, read as one stream.
pub open spec fn stream_frames(state: DecoderState) -> Seq<SseFrameView> {
    event_frames(decode_stream(state.limits, state.fed).records)
}

/// A stopped parser was stopped by a limit that its stream exceeded.
pub open spec fn sound(state: DecoderState) -> bool {
    state.failure matches Some(error) ==> breaks_limit(error, state.limits) && is_caused(
        error,
        state.fed,
    )
}

/// What holds of every chunk that a parser takes in.
pub open spec fn chunk_facts(state: DecoderState, chunk: Seq<u8>) -> bool {
    let next = after_chunk(state, chunk);
    let records = chunk_result(state, chunk).records;
    // A well-formed event type reaches its frame as it stands.
    &&& forall|i: int|
        0 <= i < records.len() && has_data(records[i]) ==> keeps_event_type(#[trigger] records[i])
    &&& state.failure is None ==> {
        // A record is completed where a blank line ends a block, and nowhere else.
        &&& records.len() <= blocks_ended(
            next.fed,
            state.fed.len() as int,
            next.fed.len() as int,
        )
        &&& next.failure is None ==> records.len() == blocks_ended(
            next.fed,
            state.fed.len() as int,
            next.fed.len() as int,
        )
        // Every record fits the limits; a line or a record that exceeds its limit is
        // refused.
        &&& all_fit(records, state.limits)
        &&& exceeds_limits(next.fed, state.limits) ==> next.failure is Some
        // A framing error reports a limit that was exceeded, and by what.
        &&& next.failure matches Some(error) ==> breaks_limit(error, state.limits) && is_caused(
            error,
            next.fed,
        )
        // The frames up to now are those of the stream, however it was cut.
        &&& stream_frames(next) == stream_frames(state) + chunk_frames(state, chunk)
        &&& decode_stream(state.limits, next.fed).error is None <==> next.failure is None
    }
}

/// Incremental SSE frame parser.
///
/// Feeds each body chunk to a request-scoped decoder and yields the data-bearing
/// records that the chunk completed. Comment-only, `event`-only and
/// `id`/`retry`-only blocks carry no data, so they never surface as frames.
pub struct SseFrameParser {
    /// Decoder holding the cross-chunk line and record state.
    decoder: SseDecoder,
}

impl View for SseFrameParser {
    type V = DecoderState;

    closed spec fn view(&self) -> DecoderState {
        decoder_state(self.decoder)
    }
}

impl SseFrameParser {
    /// Create a new parser with the given buffer byte limit.
    ///
    /// The budget bounds both one line held across chunks and the committed
    /// fields of one record. The decoder's default bound on the number of fields
    /// stays in place.
    pub fn new(max_buffer_bytes: usize) -> (parser: Self)
        ensures
            parser@ == (DecoderState {
                limits: SseLimits {
                    max_line_bytes: max_buffer_bytes,
                    max_record_bytes: max_buffer_bytes,
                    max_fields_per_record: 4096,
                },
                fed: Seq::empty(),
                failure: None,
            }),
            stream_frames(parser@).len() == 0,
            sound(parser@),
    {
        SseFrameParser {
            decoder: SseDecoder::with_limits(
                SseLimits {
                    max_line_bytes: max_buffer_bytes,
                    max_record_bytes: max_buffer_bytes,
                    ..SseLimits::default()
                },
            ),
        }
    }

    /// Feed a chunk of bytes, returning any complete SSE frames.
    pub fn parse_chunk(&mut self, chunk: &Bytes) -> (result: Result<Vec<SseFrame>, SseParseError>)
        ensures
            final(self)@ == after_chunk(old(self)@, bytes_contents(*chunk)),
            chunk_facts(old(self)@, bytes_contents(*chunk)),
            sound(old(self)@) ==> sound(final(self)@),
            result_view(result) == match chunk_result(old(self)@, bytes_contents(*chunk)).error {
                Some(err) => Err::<Seq<SseFrameView>, SseParseError>(overflow_error(err)),
                None => Ok::<Seq<SseFrameView>, SseParseError>(
                    chunk_frames(old(self)@, bytes_contents(*chunk)),
                ),
            },
    {
        self.parse_chunk_with_event_limit(chunk, 0, usize::MAX)
    }

    /// Feed a chunk and stop before emitting more frames than the event budget allows.
    pub fn parse_chunk_with_event_limit(
        &mut self,
        chunk: &Bytes,
        current_events: usize,
        max_events: usize,
    ) -> (result: Result<Vec<SseFrame>, SseParseError>)
        ensures
            final(self)@ == after_chunk(old(self)@, bytes_contents(*chunk)),
            chunk_facts(old(self)@, bytes_contents(*chunk)),
            sound(old(self)@) ==> sound(final(self)@),
            result_view(result) == limited_result(
                chunk_frames(old(self)@, bytes_contents(*chunk)),
                chunk_frames(old(self)@, bytes_contents(*chunk)).len(),
                chunk_result(old(self)@, bytes_contents(*chunk)).error,
                current_events,
                max_events,
            ),
    {
        let every_frame = |_frame: &SseFrame| -> (counted: bool)
            ensures
                counted,
            { true };
        let result = self.parse_chunk_with_counted_event_limit(
            chunk,
            current_events,
            max_events,
            every_frame,
        );
        proof {
            let frames = chunk_frames(old(self)@, bytes_contents(*chunk));
            let every = |frame: SseFrameView| true;
            assert(decides_as(every_frame, every));
            lemma_all_counted(frames.map_values(every));
        }
        result
    }

    /// Feed a chunk and count only selected frames against the event budget.
    ///
    /// The frames that this chunk completes are taken in order. One for which
    /// `count_frame` answers `true` is checked against the budget before it is
    /// kept; exceeding the budget returns
    /// [`SseParseError::EventLimitExceeded`] and discards the chunk's frames. A
    /// framing limit violation likewise discards them and surfaces as
    /// [`SseParseError::BufferOverflow`]. An unterminated final block stays
    /// buffered.
    pub fn parse_chunk_with_counted_event_limit<F: FnMut(&SseFrame) -> bool>(
        &mut self,
        chunk: &Bytes,
        current_events: usize,
        max_events: usize,
        count_frame: F,
    ) -> (result: Result<Vec<SseFrame>, SseParseError>)
        requires
            forall|frame: &SseFrame| count_frame.requires((frame,)),
        ensures
            final(self)@ == after_chunk(old(self)@, bytes_contents(*chunk)),
            chunk_facts(old(self)@, bytes_contents(*chunk)),
            sound(old(self)@) ==> sound(final(self)@),
            exists|frames: Seq<SseFrame>, answers: Seq<bool>|
                {
                    &&& frame_views(frames) == chunk_frames(old(self)@, bytes_contents(*chunk))
                    &&& #[trigger] answered(count_frame, frames, answers)
                    &&& delivered(
                        frames,
                        answers,
                        chunk_result(old(self)@, bytes_contents(*chunk)).error,
                        current_events,
                        max_events,
                        result,
                    )
                },
            forall|selects: spec_fn(SseFrameView) -> bool| #[trigger]
                decides_as(count_frame, selects) ==> result_view(result) == limited_result(
                    chunk_frames(old(self)@, bytes_contents(*chunk)),
                    selected(chunk_frames(old(self)@, bytes_contents(*chunk)), selects),
                    chunk_result(old(self)@, bytes_contents(*chunk)).error,
                    current_events,
                    max_events,
                ),
    {
        let batch = self.decoder.push(chunk);
        let frames = frames_from_records(&batch.records);
        proof {
            let state = old(self)@;
            let bytes = bytes_contents(*chunk);
            let records = chunk_result(state, bytes).records;
            assert(all_record_fields(batch.records@) =~= records);
            assert forall|i: int|
                0 <= i < records.len() && has_data(records[i]) implies keeps_event_type(
                #[trigger] records[i],
            ) by {
                assert(records[i] == record_fields(batch.records@[i]));
            }
            if state.failure is None {
                law_blocks_are_independent(
                    decode_stream(state.limits, state.fed).records,
                    chunk_result(state, bytes).records,
                );
            }
        }
        deliver_frames(frames, batch.error, current_events, max_events, count_frame)
    }
}

/// Blocks are framed one by one: the frames of two runs of records are the frames
/// of the one, then of the other. What a block without data names is never
/// carried over to a later block.
pub proof fn law_blocks_are_independent(a: Seq<Seq<RecordField>>, b: Seq<Seq<RecordField>>)
    ensures
        event_frames(a + b) == event_frames(a) + event_frames(b),
    decreases b.len(),
{
    if b.len() == 0 {
        assert(a + b =~= a);
        assert(event_frames(a) + event_frames(b) =~= event_frames(a));
    } else {
        law_blocks_are_independent(a, b.drop_last());
        assert((a + b).drop_last() =~= a + b.drop_last());
        assert((a + b).last() == b.last());
        assert(event_frames(a + b) =~= event_frames(a) + event_frames(b));
    }
}

} // verus!
