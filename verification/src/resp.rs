//! Response side of the HTTP/1 codec: the parsed head with its backing
//! storage, and the streaming body decoder.

use vstd::prelude::*;
use crate::error::ParseError;
use crate::parse::{chunk_size_parse, parse_chunk_line, ChunkParse, ChunkParseSpec};

verus! {

/// Marker for the codec state that expects the response head next.
pub struct ClientResponse {
}

/// A completely parsed response head owning the storage its fields were
/// parsed from. The bytes past `header_len` are the body-prefix residual.
pub struct OwnedResponse {
    pub code: u16,
    pub version: u8,
    pub headers: Vec<(Vec<u8>, Vec<u8>)>,
    pub buf: Vec<u8>,
    pub header_len: usize,
}

impl OwnedResponse {
    pub open spec fn wf(self) -> bool {
        self.header_len <= self.buf@.len()
    }

    /// Bytes read past the header that belong to the body.
    pub fn remaining_bytes(&self) -> (r: &[u8])
        requires
            self.wf(),
        ensures
            r@ == self.buf@.skip(self.header_len as int),
    {
        vstd::slice::slice_subrange(self.buf.as_slice(), self.header_len, self.buf.len())
    }

    /// Give the backing storage back.
    pub fn into_buf(self) -> (r: Vec<u8>)
        ensures
            r@ == self.buf@,
    {
        self.buf
    }
}

/// Decoder state for the response body.
#[derive(Clone, Copy, PartialEq, Eq, Structural)]
pub enum RecvMode {
    /// Length-delimited body with this many bytes still owed.
    Known { remaining: u64 },
    /// Body delimited by the end of the stream.
    ToEof,
    /// Chunked: at the start of a chunk-size line.
    ChunkSize,
    /// Chunked: inside chunk data with this many bytes owed.
    ChunkData { remaining: u64 },
    /// Chunked: expecting the CR after chunk data.
    ChunkDataCr,
    /// Chunked: expecting the LF after chunk data.
    ChunkDataLf,
    /// Chunked: at the start of a trailer line.
    TrailerStart,
    /// Chunked: saw the CR of the trailer section's final empty line.
    TrailerStartCr,
    /// Chunked: inside a trailer field line.
    TrailerLine,
    /// Chunked: saw a CR inside a trailer field line.
    TrailerLineCr,
    /// The body is complete.
    Done,
}

/// Codec state for receiving the response body.
pub struct ClientResponseBody {
    pub mode: RecvMode,
    pub persistent: bool,
}

/// Rank used to order zero-consumption decoder transitions.
pub open spec fn mode_rank(m: RecvMode) -> nat {
    match m {
        RecvMode::ChunkData { .. } => 1,
        _ => 0,
    }
}

pub open spec fn min3(a: int, b: int, c: int) -> int {
    if a <= b && a <= c {
        a
    } else if b <= c {
        b
    } else {
        c
    }
}

/// Outcome of one decoder run: input bytes consumed, output bytes produced,
/// the state left behind, and a protocol failure if the input is malformed.
pub struct Decoded {
    pub read: nat,
    pub out: Seq<u8>,
    pub mode: RecvMode,
    pub fail: Option<ParseError>,
}

/// What one call of the body decoder does on `src` with room for `max`
/// output bytes. `end` says the transport has reached its end.
pub open spec fn decode_spec(m: RecvMode, src: Seq<u8>, end: bool, max: nat) -> Decoded
    decreases src.len(), mode_rank(m),
{
    match m {
        RecvMode::Known { remaining } => {
            let n = min3(src.len() as int, remaining as int, max as int);
            Decoded {
                read: n as nat,
                out: src.take(n),
                mode: if remaining == n { RecvMode::Done } else {
                    RecvMode::Known { remaining: (remaining - n) as u64 }
                },
                fail: None,
            }
        },
        RecvMode::ToEof => {
            let n = if src.len() <= max { src.len() as int } else { max as int };
            Decoded {
                read: n as nat,
                out: src.take(n),
                mode: if end && n == src.len() { RecvMode::Done } else { RecvMode::ToEof },
                fail: None,
            }
        },
        RecvMode::Done => Decoded { read: 0, out: Seq::empty(), mode: RecvMode::Done, fail: None },
        RecvMode::ChunkSize => match chunk_size_parse(src) {
            ChunkParseSpec::Complete { consumed, size } => if 1 <= consumed <= src.len() {
                let next = if size == 0 { RecvMode::TrailerStart } else {
                    RecvMode::ChunkData { remaining: size }
                };
                let rest = decode_spec(next, src.skip(consumed as int), end, max);
                Decoded { read: (consumed + rest.read) as nat, out: rest.out, mode: rest.mode,
                    fail: rest.fail }
            } else {
                Decoded { read: 0, out: Seq::empty(), mode: m, fail: Some(ParseError::Chunk) }
            },
            ChunkParseSpec::Partial => Decoded { read: 0, out: Seq::empty(), mode: m,
                fail: None },
            ChunkParseSpec::Invalid => Decoded { read: 0, out: Seq::empty(), mode: m,
                fail: Some(ParseError::Chunk) },
        },
        RecvMode::ChunkData { remaining } => {
            if remaining == 0 {
                decode_spec(RecvMode::ChunkDataCr, src, end, max)
            } else {
                let n = min3(src.len() as int, remaining as int, max as int);
                if n == 0 {
                    Decoded { read: 0, out: Seq::empty(), mode: m, fail: None }
                } else {
                    let next = if remaining == n { RecvMode::ChunkDataCr } else {
                        RecvMode::ChunkData { remaining: (remaining - n) as u64 }
                    };
                    let rest = decode_spec(next, src.skip(n), end, (max - n) as nat);
                    Decoded { read: (n + rest.read) as nat, out: src.take(n) + rest.out,
                        mode: rest.mode, fail: rest.fail }
                }
            }
        },
        RecvMode::ChunkDataCr => {
            if src.len() == 0 {
                Decoded { read: 0, out: Seq::empty(), mode: m, fail: None }
            } else if src[0] == 13 {
                let rest = decode_spec(RecvMode::ChunkDataLf, src.skip(1), end, max);
                Decoded { read: (1 + rest.read) as nat, out: rest.out, mode: rest.mode,
                    fail: rest.fail }
            } else {
                Decoded { read: 0, out: Seq::empty(), mode: m, fail: Some(ParseError::Chunk) }
            }
        },
        RecvMode::ChunkDataLf => {
            if src.len() == 0 {
                Decoded { read: 0, out: Seq::empty(), mode: m, fail: None }
            } else if src[0] == 10 {
                let rest = decode_spec(RecvMode::ChunkSize, src.skip(1), end, max);
                Decoded { read: (1 + rest.read) as nat, out: rest.out, mode: rest.mode,
                    fail: rest.fail }
            } else {
                Decoded { read: 0, out: Seq::empty(), mode: m, fail: Some(ParseError::Chunk) }
            }
        },
        RecvMode::TrailerStart => {
            if src.len() == 0 {
                Decoded { read: 0, out: Seq::empty(), mode: m, fail: None }
            } else {
                let next = if src[0] == 13 { RecvMode::TrailerStartCr } else {
                    RecvMode::TrailerLine
                };
                let rest = decode_spec(next, src.skip(1), end, max);
                Decoded { read: (1 + rest.read) as nat, out: rest.out, mode: rest.mode,
                    fail: rest.fail }
            }
        },
        RecvMode::TrailerStartCr => {
            if src.len() == 0 {
                Decoded { read: 0, out: Seq::empty(), mode: m, fail: None }
            } else if src[0] == 10 {
                Decoded { read: 1, out: Seq::empty(), mode: RecvMode::Done, fail: None }
            } else {
                Decoded { read: 0, out: Seq::empty(), mode: m, fail: Some(ParseError::Chunk) }
            }
        },
        RecvMode::TrailerLine => {
            if src.len() == 0 {
                Decoded { read: 0, out: Seq::empty(), mode: m, fail: None }
            } else {
                let next = if src[0] == 13 { RecvMode::TrailerLineCr } else {
                    RecvMode::TrailerLine
                };
                let rest = decode_spec(next, src.skip(1), end, max);
                Decoded { read: (1 + rest.read) as nat, out: rest.out, mode: rest.mode,
                    fail: rest.fail }
            }
        },
        RecvMode::TrailerLineCr => {
            if src.len() == 0 {
                Decoded { read: 0, out: Seq::empty(), mode: m, fail: None }
            } else if src[0] == 10 {
                let rest = decode_spec(RecvMode::TrailerStart, src.skip(1), end, max);
                Decoded { read: (1 + rest.read) as nat, out: rest.out, mode: rest.mode,
                    fail: rest.fail }
            } else {
                Decoded { read: 0, out: Seq::empty(), mode: m, fail: Some(ParseError::Chunk) }
            }
        },
    }
}

/// The decoder never consumes more than the input nor produces more than
/// `max` bytes.
pub proof fn lemma_decode_bounds(m: RecvMode, src: Seq<u8>, end: bool, max: nat)
    ensures
        decode_spec(m, src, end, max).read <= src.len(),
        decode_spec(m, src, end, max).out.len() <= max,
    decreases src.len(), mode_rank(m),
{
    match m {
        RecvMode::ChunkSize => {
            match chunk_size_parse(src) {
                ChunkParseSpec::Complete { consumed, size } => {
                    if 1 <= consumed <= src.len() {
                        let next = if size == 0 { RecvMode::TrailerStart } else {
                            RecvMode::ChunkData { remaining: size }
                        };
                        lemma_decode_bounds(next, src.skip(consumed as int), end, max);
                    }
                },
                _ => {},
            }
        },
        RecvMode::ChunkData { remaining } => {
            if remaining == 0 {
                lemma_decode_bounds(RecvMode::ChunkDataCr, src, end, max);
            } else {
                let n = min3(src.len() as int, remaining as int, max as int);
                if n != 0 {
                    let next = if remaining == n { RecvMode::ChunkDataCr } else {
                        RecvMode::ChunkData { remaining: (remaining - n) as u64 }
                    };
                    lemma_decode_bounds(next, src.skip(n), end, (max - n) as nat);
                }
            }
        },
        RecvMode::ChunkDataCr => {
            if src.len() > 0 && src[0] == 13 {
                lemma_decode_bounds(RecvMode::ChunkDataLf, src.skip(1), end, max);
            }
        },
        RecvMode::ChunkDataLf => {
            if src.len() > 0 && src[0] == 10 {
                lemma_decode_bounds(RecvMode::ChunkSize, src.skip(1), end, max);
            }
        },
        RecvMode::TrailerStart => {
            if src.len() > 0 {
                let next = if src[0] == 13 { RecvMode::TrailerStartCr } else {
                    RecvMode::TrailerLine
                };
                lemma_decode_bounds(next, src.skip(1), end, max);
            }
        },
        RecvMode::TrailerLine => {
            if src.len() > 0 {
                let next = if src[0] == 13 { RecvMode::TrailerLineCr } else {
                    RecvMode::TrailerLine
                };
                lemma_decode_bounds(next, src.skip(1), end, max);
            }
        },
        RecvMode::TrailerLineCr => {
            if src.len() > 0 && src[0] == 10 {
                lemma_decode_bounds(RecvMode::TrailerStart, src.skip(1), end, max);
            }
        },
        _ => {},
    }
}

/// Run the body decoder over `src`, appending at most `max` decoded bytes
/// to `out`.
#[verifier::rlimit(100)]
pub(crate) fn decode(m: RecvMode, src: &[u8], end: bool, max: usize, out: &mut Vec<u8>) -> (r: (
    usize, RecvMode, Option<ParseError>))
    ensures
        ({
            let d = decode_spec(m, src@, end, max as nat);
            &&& r.0 == d.read
            &&& final(out)@ == old(out)@ + d.out
            &&& r.1 == d.mode
            &&& r.2 == d.fail
        }),
    decreases src@.len(), mode_rank(m),
{
    proof {
        lemma_decode_bounds(m, src@, end, max as nat);
    }
    match m {
        RecvMode::Known { remaining } => {
            let lim: u64 = if remaining <= max as u64 { remaining } else { max as u64 };
            let n: usize = if (src.len() as u64) <= lim { src.len() } else { lim as usize };
            out.extend_from_slice(vstd::slice::slice_subrange(src, 0, n));
            let m2 = if remaining == n as u64 { RecvMode::Done } else {
                RecvMode::Known { remaining: remaining - n as u64 }
            };
            (n, m2, None)
        },
        RecvMode::ToEof => {
            let n: usize = if src.len() <= max { src.len() } else { max };
            out.extend_from_slice(vstd::slice::slice_subrange(src, 0, n));
            let m2 = if end && n == src.len() { RecvMode::Done } else { RecvMode::ToEof };
            (n, m2, None)
        },
        RecvMode::Done => (0, RecvMode::Done, None),
        RecvMode::ChunkSize => match parse_chunk_line(src) {
            ChunkParse::Complete(consumed, size) => {
                let next = if size == 0 { RecvMode::TrailerStart } else {
                    RecvMode::ChunkData { remaining: size }
                };
                let rest = vstd::slice::slice_subrange(src, consumed, src.len());
                let r = decode(next, rest, end, max, out);
                (consumed + r.0, r.1, r.2)
            },
            ChunkParse::Partial => (0, m, None),
            ChunkParse::Invalid => (0, m, Some(ParseError::Chunk)),
        },
        RecvMode::ChunkData { remaining } => {
            if remaining == 0 {
                decode(RecvMode::ChunkDataCr, src, end, max, out)
            } else {
                let lim: u64 = if remaining <= max as u64 { remaining } else { max as u64 };
                let n: usize = if (src.len() as u64) <= lim { src.len() } else { lim as usize };
                if n == 0 {
                    (0, m, None)
                } else {
                    out.extend_from_slice(vstd::slice::slice_subrange(src, 0, n));
                    let next = if remaining == n as u64 { RecvMode::ChunkDataCr } else {
                        RecvMode::ChunkData { remaining: remaining - n as u64 }
                    };
                    let rest = vstd::slice::slice_subrange(src, n, src.len());
                    let r = decode(next, rest, end, max - n, out);
                    proof {
                        let d = decode_spec(m, src@, end, max as nat);
                        assert(final(out)@ =~= old(out)@ + d.out);
                    }
                    (n + r.0, r.1, r.2)
                }
            }
        },
        RecvMode::ChunkDataCr => {
            if src.len() == 0 {
                (0, m, None)
            } else if src[0] == 13 {
                let rest = vstd::slice::slice_subrange(src, 1, src.len());
                let r = decode(RecvMode::ChunkDataLf, rest, end, max, out);
                (1 + r.0, r.1, r.2)
            } else {
                (0, m, Some(ParseError::Chunk))
            }
        },
        RecvMode::ChunkDataLf => {
            if src.len() == 0 {
                (0, m, None)
            } else if src[0] == 10 {
                let rest = vstd::slice::slice_subrange(src, 1, src.len());
                let r = decode(RecvMode::ChunkSize, rest, end, max, out);
                (1 + r.0, r.1, r.2)
            } else {
                (0, m, Some(ParseError::Chunk))
            }
        },
        RecvMode::TrailerStart => {
            if src.len() == 0 {
                (0, m, None)
            } else {
                let next = if src[0] == 13 { RecvMode::TrailerStartCr } else {
                    RecvMode::TrailerLine
                };
                let rest = vstd::slice::slice_subrange(src, 1, src.len());
                let r = decode(next, rest, end, max, out);
                (1 + r.0, r.1, r.2)
            }
        },
        RecvMode::TrailerStartCr => {
            if src.len() == 0 {
                (0, m, None)
            } else if src[0] == 10 {
                (1, RecvMode::Done, None)
            } else {
                (0, m, Some(ParseError::Chunk))
            }
        },
        RecvMode::TrailerLine => {
            if src.len() == 0 {
                (0, m, None)
            } else {
                let next = if src[0] == 13 { RecvMode::TrailerLineCr } else {
                    RecvMode::TrailerLine
                };
                let rest = vstd::slice::slice_subrange(src, 1, src.len());
                let r = decode(next, rest, end, max, out);
                (1 + r.0, r.1, r.2)
            }
        },
        RecvMode::TrailerLineCr => {
            if src.len() == 0 {
                (0, m, None)
            } else if src[0] == 10 {
                let rest = vstd::slice::slice_subrange(src, 1, src.len());
                let r = decode(RecvMode::TrailerStart, rest, end, max, out);
                (1 + r.0, r.1, r.2)
            } else {
                (0, m, Some(ParseError::Chunk))
            }
        },
    }
}

} // verus!
