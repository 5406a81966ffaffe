//! What the library believes of the record decoder, held against the decoder on
//! all short streams over a few telling pieces, whole and cut in two.

use bytes::Bytes;
use praxis_filter::sse::{SseDecodeError, SseDecoder, SseLimits};

const PIECES: [&[u8]; 8] = [
    b"\r",
    b"\n",
    b"a",
    b":",
    b"data: xy",
    b"event:z\n",
    b"\xEF",
    b"\xBB\xBF",
];

const LIMITS: [SseLimits; 5] = [
    SseLimits { max_line_bytes: 100, max_record_bytes: 100, max_fields_per_record: 100 },
    SseLimits { max_line_bytes: 1, max_record_bytes: 100, max_fields_per_record: 100 },
    SseLimits { max_line_bytes: 100, max_record_bytes: 1, max_fields_per_record: 100 },
    SseLimits { max_line_bytes: 100, max_record_bytes: 100, max_fields_per_record: 1 },
    SseLimits { max_line_bytes: 8, max_record_bytes: 2, max_fields_per_record: 2 },
];

fn is_end(byte: u8) -> bool {
    byte == b'\n' || byte == b'\r'
}

fn content_start(stream: &[u8]) -> usize {
    let mark = b"\xEF\xBB\xBF";
    if stream.iter().zip(mark).all(|(a, b)| a == b) {
        3
    } else {
        0
    }
}

fn ends_line(stream: &[u8], i: usize) -> bool {
    stream[i] == b'\r' || (stream[i] == b'\n' && !(i > 0 && stream[i - 1] == b'\r'))
}

fn begins_line(stream: &[u8], i: usize) -> bool {
    let start = content_start(stream);
    i == start || (start < i && i <= stream.len() && is_end(stream[i - 1]))
}

fn ends_blank_line(stream: &[u8], i: usize) -> bool {
    ends_line(stream, i) && begins_line(stream, i)
}

fn ends_block(stream: &[u8], i: usize) -> bool {
    if !ends_blank_line(stream, i) || i <= content_start(stream) {
        return false;
    }
    let pair = i >= 2 && stream[i - 1] == b'\n' && stream[i - 2] == b'\r';
    !ends_blank_line(stream, if pair { i - 2 } else { i - 1 })
}

fn lines_ended(stream: &[u8], from: usize, to: usize) -> usize {
    (from..to).filter(|&i| ends_line(stream, i)).count()
}

/// The bounds of all lines of one block.
fn block_parts(stream: &[u8]) -> Vec<(usize, usize)> {
    let mut parts = Vec::new();
    for i in 0..=stream.len() {
        for j in i + 1..=stream.len() {
            if begins_line(stream, i)
                && ends_line(stream, j - 1)
                && (i..j).all(|k| !ends_blank_line(stream, k))
            {
                parts.push((i, j));
            }
        }
    }
    parts
}

fn is_caused(error: SseDecodeError, stream: &[u8]) -> bool {
    match error {
        SseDecodeError::LineTooLong { size, .. } => (0..=stream.len()).any(|i| {
            begins_line(stream, i)
                && i + size <= stream.len()
                && !stream[i..i + size].iter().any(|&b| is_end(b))
        }),
        SseDecodeError::RecordTooLarge { size, .. } => block_parts(stream)
            .iter()
            .any(|&(i, j)| size + lines_ended(stream, i, j) <= j - i),
        SseDecodeError::TooManyFields { count, .. } => {
            block_parts(stream).iter().any(|&(i, j)| count == lines_ended(stream, i, j))
        }
        SseDecodeError::Finished => false,
    }
}

fn has_long_line(stream: &[u8], limits: SseLimits) -> bool {
    let start = content_start(stream);
    let size = limits.max_line_bytes + 1;
    start < stream.len()
        && stream[start..].windows(size).any(|part| !part.iter().any(|&b| is_end(b)))
}

fn has_overfull_block(stream: &[u8], limits: SseLimits) -> bool {
    (content_start(stream)..stream.len()).any(|i| {
        (i + 1..=stream.len()).any(|j| {
            let block = &stream[i..j];
            let feeds = block.iter().filter(|&&b| b == b'\n').count();
            block[0] != b'\n'
                && block[block.len() - 1] == b'\n'
                && !block.contains(&b'\r')
                && block.windows(2).all(|pair| pair != b"\n\n")
                && (feeds > limits.max_fields_per_record
                    || block.len() > limits.max_record_bytes + 8 * feeds)
        })
    })
}

/// Feed the chunks one by one and compare each batch with what is believed of it.
fn check(limits: SseLimits, chunks: &[&[u8]]) {
    let mut decoder = SseDecoder::with_limits(limits);
    let mut fed: Vec<u8> = Vec::new();
    for chunk in chunks {
        let batch = decoder.push(&Bytes::copy_from_slice(chunk));
        let from = fed.len();
        fed.extend_from_slice(chunk);
        let ended = (from..fed.len()).filter(|&i| ends_block(&fed, i)).count();
        assert!(batch.records.len() <= ended, "{limits:?} {chunks:?}");
        if has_long_line(&fed, limits) || has_overfull_block(&fed, limits) {
            assert!(batch.error.is_some(), "{limits:?} {chunks:?}");
        }
        match batch.error {
            None => assert_eq!(batch.records.len(), ended, "{limits:?} {chunks:?}"),
            Some(error) => {
                assert!(is_caused(error, &fed), "{error:?} {chunks:?}");
                return;
            }
        }
    }
}

fn check_all_cuts(stream: &[u8]) {
    for limits in LIMITS {
        for cut in 0..=stream.len() {
            check(limits, &[&stream[..cut], &stream[cut..]]);
        }
    }
}

fn check_streams(first: &[u8], pieces: usize) {
    check_all_cuts(first);
    if pieces > 0 {
        for piece in PIECES {
            check_streams(&[first, piece].concat(), pieces - 1);
        }
    }
}

#[test]
fn blocks_and_overflows_are_as_stated() {
    check_streams(b"", 4);
}

#[test]
fn blocks_behind_a_mark_are_as_stated() {
    check_streams(b"\xEF\xBB\xBF", 3);
    check_streams(b"data: q\n", 3);
    check_streams(b"data: q\r\n", 3);
}
