//! The record decoder of `praxis_filter`, as this crate sees it.
//!
//! Byte-level framing (line endings, byte order mark, field syntax, limits) is
//! the decoder's business. Its calls are trusted: their contracts are stated
//! here and believed. What a decoder makes of a chunk goes by the name
//! [`decode_chunk`]; the facts stated beside it are the ones its source shows.

use bytes::Bytes;
use praxis_filter::sse::{SseBatch, SseDecodeError, SseDecoder, SseLimits, SseRecord};
use vstd::prelude::*;
use vstd::utf8::{decode_utf8, valid_utf8};

verus! {

/// `praxis_filter::sse::SseDecodeError`, variants and fields visible.
#[verifier::external_type_specification]
pub struct ExSseDecodeError(praxis_filter::sse::SseDecodeError);

/// `praxis_filter::sse::SseLimits`, fields visible.
#[verifier::external_type_specification]
pub struct ExSseLimits(praxis_filter::sse::SseLimits);

/// `praxis_filter::sse::SseRecord`, opaque.
#[verifier::external_type_specification]
#[verifier::external_body]
pub struct ExSseRecord(praxis_filter::sse::SseRecord);

/// `praxis_filter::sse::SseBatch`, fields visible.
#[verifier::external_type_specification]
pub struct ExSseBatch(praxis_filter::sse::SseBatch);

/// `praxis_filter::sse::SseDecoder`, opaque.
#[verifier::external_type_specification]
#[verifier::external_body]
pub struct ExSseDecoder(praxis_filter::sse::SseDecoder);

/// `bytes::Bytes`, opaque.
#[verifier::external_type_specification]
#[verifier::external_body]
pub struct ExBytes(bytes::Bytes);

/// One field of a record, as far as frames are built from it.
pub enum RecordField {
    /// An `event` field with its value.
    Event(Seq<u8>),
    /// A `data` field with its value.
    Data(Seq<u8>),
    /// A comment, `id`, `retry` or unknown field, with the number of bytes kept
    /// of it: its value and, where the field is unknown, its name.
    Other(nat),
}

/// What one chunk gave: the records it completed, in order, and the limit
/// violation that stopped it, if any.
pub struct DecodedChunk {
    /// The fields of each completed record, in wire order.
    pub records: Seq<Seq<RecordField>>,
    /// The limit violation, if any.
    pub error: Option<SseDecodeError>,
}

/// What a decoder holds between two chunks.
pub struct DecoderState {
    /// The limits it was made with.
    pub limits: SseLimits,
    /// All bytes it has taken in.
    pub fed: Seq<u8>,
    /// The error that it answers every further chunk with, if it is stopped.
    pub failure: Option<SseDecodeError>,
}

/// The bytes that a `Bytes` holds.
pub uninterp spec fn bytes_contents(bytes: Bytes) -> Seq<u8>;

/// The fields that a record holds, in wire order.
pub uninterp spec fn record_fields(record: SseRecord) -> Seq<RecordField>;

/// What a decoder holds.
pub uninterp spec fn decoder_state(decoder: SseDecoder) -> DecoderState;

/// What a running decoder with the given limits, which has taken in the bytes
/// `fed`, makes of the chunk `chunk`.
pub uninterp spec fn decode_chunk(
    max_line_bytes: usize,
    max_record_bytes: usize,
    max_fields_per_record: usize,
    fed: Seq<u8>,
    chunk: Seq<u8>,
) -> DecodedChunk;

/// [`decode_chunk`] with the limits taken together.
pub open spec fn decode(limits: SseLimits, fed: Seq<u8>, chunk: Seq<u8>) -> DecodedChunk {
    decode_chunk(
        limits.max_line_bytes,
        limits.max_record_bytes,
        limits.max_fields_per_record,
        fed,
        chunk,
    )
}

/// What a fresh decoder makes of a whole byte stream handed over at once.
pub open spec fn decode_stream(limits: SseLimits, stream: Seq<u8>) -> DecodedChunk {
    decode(limits, Seq::empty(), stream)
}

/// The contents of the records of a batch.
pub open spec fn all_record_fields(records: Seq<SseRecord>) -> Seq<Seq<RecordField>> {
    records.map_values(|record: SseRecord| record_fields(record))
}

/// The bytes hold a line terminator.
pub open spec fn has_line_end(bytes: Seq<u8>) -> bool {
    exists|i: int| 0 <= i < bytes.len() && (bytes[i] == 10 || bytes[i] == 13)
}

/// The error reports a limit of `limits` together with an amount above it.
pub open spec fn breaks_limit(error: SseDecodeError, limits: SseLimits) -> bool {
    match error {
        SseDecodeError::LineTooLong { size, limit } => limit == limits.max_line_bytes && size
            > limit,
        SseDecodeError::RecordTooLarge { size, limit } => limit == limits.max_record_bytes && size
            > limit,
        SseDecodeError::TooManyFields { count, limit } => limit == limits.max_fields_per_record
            && count == limit + 1,
        SseDecodeError::Finished => false,
    }
}

/// The bytes kept of a field.
pub open spec fn kept_bytes(field: RecordField) -> nat {
    match field {
        RecordField::Event(value) => value.len(),
        RecordField::Data(value) => value.len(),
        RecordField::Other(size) => size,
    }
}

/// The bytes kept of a record with these fields.
pub open spec fn record_size(fields: Seq<RecordField>) -> nat
    decreases fields.len(),
{
    if fields.len() == 0 {
        0
    } else {
        record_size(fields.drop_last()) + kept_bytes(fields.last())
    }
}

/// A record with these fields stays within the limits on a record.
pub open spec fn fits(fields: Seq<RecordField>, limits: SseLimits) -> bool {
    &&& record_size(fields) <= limits.max_record_bytes
    &&& fields.len() <= limits.max_fields_per_record
}

/// Where the lines of a stream begin: behind the byte order mark, or what may
/// still become one.
pub open spec fn content_start(stream: Seq<u8>) -> int {
    if {
        &&& stream.len() > 0 ==> stream[0] == 0xEF
        &&& stream.len() > 1 ==> stream[1] == 0xBB
        &&& stream.len() > 2 ==> stream[2] == 0xBF
    } {
        3
    } else {
        0
    }
}

/// The byte at `i` ends a line: it is a carriage return, or a line feed that does
/// not belong to the carriage return before it.
pub open spec fn ends_line(stream: Seq<u8>, i: int) -> bool {
    &&& 0 <= i < stream.len()
    &&& stream[i] == 13 || (stream[i] == 10 && !(i > 0 && stream[i - 1] == 13))
}

/// What stands at `i` begins a line, unless it still belongs to the end of the
/// line before.
pub open spec fn begins_line(stream: Seq<u8>, i: int) -> bool {
    ||| i == content_start(stream)
    ||| content_start(stream) < i <= stream.len() && (stream[i - 1] == 10 || stream[i - 1] == 13)
}

/// The byte at `i` ends an empty line.
pub open spec fn ends_blank_line(stream: Seq<u8>, i: int) -> bool {
    ends_line(stream, i) && begins_line(stream, i)
}

/// Where the line end begins that stands right before `i`.
pub open spec fn previous_line_end(stream: Seq<u8>, i: int) -> int {
    if i >= 2 && stream[i - 1] == 10 && stream[i - 2] == 13 {
        i - 2
    } else {
        i - 1
    }
}

/// The byte at `i` ends a block: it ends an empty line behind one that is not.
pub open spec fn ends_block(stream: Seq<u8>, i: int) -> bool {
    &&& ends_blank_line(stream, i)
    &&& i > content_start(stream)
    &&& !ends_blank_line(stream, previous_line_end(stream, i))
}

/// The number of blocks that end at `from` or behind it and before `to`.
pub open spec fn blocks_ended(stream: Seq<u8>, from: int, to: int) -> nat
    decreases to - from,
{
    if to <= from {
        0
    } else {
        blocks_ended(stream, from, to - 1) + if ends_block(stream, to - 1) {
            1nat
        } else {
            0
        }
    }
}

/// The number of lines that end at `from` or behind it and before `to`.
pub open spec fn lines_ended(stream: Seq<u8>, from: int, to: int) -> nat
    decreases to - from,
{
    if to <= from {
        0
    } else {
        lines_ended(stream, from, to - 1) + if ends_line(stream, to - 1) {
            1nat
        } else {
            0
        }
    }
}

/// The bytes `i..j` of the stream are lines of one block: none is empty, and the
/// last one ends at `j`.
pub open spec fn lines_of_one_block(stream: Seq<u8>, i: int, j: int) -> bool {
    &&& begins_line(stream, i)
    &&& i < j <= stream.len()
    &&& ends_line(stream, j - 1)
    &&& forall|k: int| i <= k < j ==> !#[trigger] ends_blank_line(stream, k)
}

/// The error reports something that the stream holds: a line of that many bytes,
/// ended or not; that many lines of one block; or lines of one block that have, but
/// for their ends, at least that many bytes.
pub open spec fn is_caused(error: SseDecodeError, stream: Seq<u8>) -> bool {
    match error {
        SseDecodeError::LineTooLong { size, limit } => exists|i: int|
            {
                &&& begins_line(stream, i)
                &&& i + size <= stream.len()
                &&& !has_line_end(#[trigger] stream.subrange(i, i + size))
            },
        SseDecodeError::RecordTooLarge { size, limit } => exists|i: int, j: int|
            {
                &&& #[trigger] lines_of_one_block(stream, i, j)
                &&& size + lines_ended(stream, i, j) <= j - i
            },
        SseDecodeError::TooManyFields { count, limit } => exists|i: int, j: int|
            {
                &&& #[trigger] lines_of_one_block(stream, i, j)
                &&& count == lines_ended(stream, i, j)
            },
        SseDecodeError::Finished => false,
    }
}

/// The stream holds a line, ended or not, of more than `max_line_bytes` bytes.
pub open spec fn has_long_line(stream: Seq<u8>, limits: SseLimits) -> bool {
    exists|i: int, j: int|
        {
            &&& content_start(stream) <= i <= j <= stream.len()
            &&& j - i > limits.max_line_bytes
            &&& !has_line_end(#[trigger] stream.subrange(i, j))
        }
}

/// The number of line feeds.
pub open spec fn line_feeds(bytes: Seq<u8>) -> nat
    decreases bytes.len(),
{
    if bytes.len() == 0 {
        0
    } else {
        line_feeds(bytes.drop_last()) + if bytes.last() == 10 {
            1nat
        } else {
            0
        }
    }
}

/// The bytes are lines that a line feed ends each, none of them blank.
pub open spec fn is_block(bytes: Seq<u8>) -> bool {
    &&& bytes.len() > 0 && bytes[0] != 10 && bytes.last() == 10
    &&& forall|i: int| 0 <= i < bytes.len() ==> bytes[i] != 13
    &&& forall|i: int| 0 < i < bytes.len() && bytes[i - 1] == 10 ==> #[trigger] bytes[i] != 10
}

/// The block is too much for one record: it has too many lines, or too many
/// bytes. Of a line all is kept but, at most, a name of five bytes, the colon, a
/// space and the line feed.
pub open spec fn overfills(block: Seq<u8>, limits: SseLimits) -> bool {
    &&& is_block(block)
    &&& line_feeds(block) > limits.max_fields_per_record || block.len() > limits.max_record_bytes
        + 8 * line_feeds(block)
}

/// The stream holds a block that is too much for one record.
pub open spec fn has_overfull_block(stream: Seq<u8>, limits: SseLimits) -> bool {
    exists|i: int, j: int|
        {
            &&& content_start(stream) <= i <= j <= stream.len()
            &&& overfills(#[trigger] stream.subrange(i, j), limits)
        }
}

/// The stream with a blank line behind it, if its last line has ended in a line
/// feed: so the fields up to now make a record.
pub open spec fn blank_line_added(stream: Seq<u8>) -> Seq<u8> {
    if stream.len() > 0 && stream.last() == 10 {
        stream.push(10)
    } else {
        stream
    }
}

/// All the records stay within the limits on a record.
pub open spec fn all_fit(records: Seq<Seq<RecordField>>, limits: SseLimits) -> bool {
    forall|i: int| 0 <= i < records.len() ==> fits(#[trigger] records[i], limits)
}

/// The stream holds a record that does not fit the limits: some other limits let
/// it through.
pub open spec fn has_oversized_record(stream: Seq<u8>, limits: SseLimits) -> bool {
    exists|other: SseLimits|
        !all_fit((#[trigger] decode_stream(other, blank_line_added(stream))).records, limits)
}

/// A line or a record of the stream exceeds its limit.
pub open spec fn exceeds_limits(stream: Seq<u8>, limits: SseLimits) -> bool {
    ||| has_long_line(stream, limits)
    ||| has_overfull_block(stream, limits)
    ||| has_oversized_record(stream, limits)
}

/// A record with these fields is an event: it has a `data` field.
pub open spec fn has_data(fields: Seq<RecordField>) -> bool {
    exists|i: int| 0 <= i < fields.len() && fields[i] is Data
}

/// The value of the last `event` field.
pub open spec fn last_event(fields: Seq<RecordField>) -> Option<Seq<u8>>
    decreases fields.len(),
{
    if fields.len() == 0 {
        None
    } else {
        match fields.last() {
            RecordField::Event(value) => Some(value),
            _ => last_event(fields.drop_last()),
        }
    }
}

/// The values of the `data` fields, in order.
pub open spec fn data_values(fields: Seq<RecordField>) -> Seq<Seq<u8>>
    decreases fields.len(),
{
    if fields.len() == 0 {
        Seq::empty()
    } else {
        match fields.last() {
            RecordField::Data(value) => data_values(fields.drop_last()).push(value),
            _ => data_values(fields.drop_last()),
        }
    }
}

/// Lines joined by a single line feed each.
pub open spec fn join_lines(lines: Seq<Seq<u8>>) -> Seq<u8>
    decreases lines.len(),
{
    if lines.len() == 0 {
        Seq::empty()
    } else if lines.len() == 1 {
        lines[0]
    } else {
        join_lines(lines.drop_last()).push(10) + lines.last()
    }
}

/// The text that `String::from_utf8_lossy` makes of `bytes`.
pub uninterp spec fn utf8_lossy_text(bytes: Seq<u8>) -> Seq<char>;

/// `SseLimits::default`: one mebibyte for a line, ten mebibytes for a record,
/// 4096 fields for a record.
pub assume_specification[ <SseLimits as Default>::default ]() -> (limits: SseLimits)
    ensures
        limits.max_line_bytes == 1_048_576,
        limits.max_record_bytes == 10_485_760,
        limits.max_fields_per_record == 4096,
;

/// `SseDecoder::with_limits`: a running decoder with these limits, which has
/// taken in nothing. Such a decoder completes no record on an empty chunk.
pub assume_specification[ SseDecoder::with_limits ](limits: SseLimits) -> (decoder: SseDecoder)
    ensures
        decoder_state(decoder).limits == limits,
        decoder_state(decoder).fed == Seq::<u8>::empty(),
        decoder_state(decoder).failure is None,
        decode_stream(limits, decoder_state(decoder).fed).records.len() == 0,
        decode_stream(limits, decoder_state(decoder).fed).error is None,
;

/// `SseDecoder::push`: a stopped decoder completes nothing and repeats its
/// error. A running one gives what [`decode_chunk`] names, and is stopped by an
/// error from then on.
///
/// Of a running decoder the contract also claims: without an error a record is
/// completed for every block that ends in the chunk, and for nothing else; before
/// an error no more than that; every record that is completed fits the limits; a
/// line or a record that exceeds its limit is refused, a line as soon as it grows
/// too long and a record as soon as the line that is too much for it ends; an
/// error reports a limit that was exceeded, and by what in the stream; and the
/// records completed up to now, and whether a limit was exceeded, do not depend on
/// how the stream was cut into chunks. The size that an over-long line is reported
/// with does depend on it.
pub assume_specification[ SseDecoder::push ](decoder: &mut SseDecoder, chunk: &Bytes) -> (batch:
    SseBatch)
    ensures
        decoder_state(*final(decoder)).limits == decoder_state(*old(decoder)).limits,
        match decoder_state(*old(decoder)).failure {
            Some(error) => {
                &&& batch.records@.len() == 0
                &&& batch.error == Some(error)
                &&& decoder_state(*final(decoder)) == decoder_state(*old(decoder))
            },
            None => {
                let state = decoder_state(*old(decoder));
                let bytes = bytes_contents(*chunk);
                let result = decode_chunk(
                    state.limits.max_line_bytes,
                    state.limits.max_record_bytes,
                    state.limits.max_fields_per_record,
                    state.fed,
                    bytes,
                );
                let before = decode_stream(state.limits, state.fed);
                let after = decode_stream(state.limits, state.fed + bytes);
                &&& all_record_fields(batch.records@) == result.records
                &&& batch.error == result.error
                &&& decoder_state(*final(decoder)).fed == state.fed + bytes
                &&& decoder_state(*final(decoder)).failure == batch.error
                &&& batch.records@.len() <= blocks_ended(
                    state.fed + bytes,
                    state.fed.len() as int,
                    (state.fed + bytes).len() as int,
                )
                &&& batch.error is None ==> batch.records@.len() == blocks_ended(
                    state.fed + bytes,
                    state.fed.len() as int,
                    (state.fed + bytes).len() as int,
                )
                &&& all_fit(all_record_fields(batch.records@), state.limits)
                &&& exceeds_limits(state.fed + bytes, state.limits) ==> batch.error is Some
                &&& batch.error matches Some(error) ==> breaks_limit(error, state.limits)
                    && is_caused(error, state.fed + bytes)
                &&& after.records == before.records + result.records
                &&& after.error is None <==> batch.error is None
            },
        },
;

/// `SseRecord::is_event`: whether the record has a `data` field.
pub assume_specification[ SseRecord::is_event ](record: &SseRecord) -> (event: bool)
    ensures
        event == has_data(record_fields(*record)),
;

/// `SseRecord::event`: the value of the record's last `event` field.
pub assume_specification[ SseRecord::event ](record: &SseRecord) -> (value: Option<&[u8]>)
    ensures
        match last_event(record_fields(*record)) {
            Some(bytes) => value matches Some(slice) && slice@ == bytes,
            None => value is None,
        },
;

/// `SseRecord::data`: the record's `data` values joined by line feeds.
#[verifier::external_body]
pub(crate) fn record_data(record: &SseRecord) -> (data: Vec<u8>)
    ensures
        data@ == join_lines(data_values(record_fields(*record))),
{
    record.data().to_vec()
}

/// `String::from_utf8_lossy`: the bytes as text. Well-formed UTF-8 is decoded as
/// it stands; how ill-formed sequences are replaced is left to the name.
#[verifier::external_body]
pub(crate) fn utf8_lossy(bytes: &[u8]) -> (text: String)
    ensures
        text@ == utf8_lossy_text(bytes@),
        valid_utf8(bytes@) ==> text@ == decode_utf8(bytes@),
{
    String::from_utf8_lossy(bytes).into_owned()
}

} // verus!
