//! Request side of the HTTP/1 codec: header serialization and body framing.
//!
//! `ClientRequest::send_header` serializes the request line and headers;
//! `ClientRequestBody` frames staged body bytes for the wire (raw,
//! length-delimited or chunked) and accounts for the bytes a writer accepts.

use vstd::prelude::*;
use crate::buffer::VecRingBuffer;

verus! {

/// One request header field.
pub struct Header {
    pub name: Vec<u8>,
    pub value: Vec<u8>,
}

/// Declared size of the request body.
#[derive(Clone, Copy, PartialEq, Eq, Structural)]
pub enum BodySize {
    NoBody,
    Known(u64),
    Unknown,
}

/// Persistence judgment produced at the end of an exchange.
pub struct ClientFinished {
    pub persistent: bool,
}

pub open spec fn crlf() -> Seq<u8> {
    seq![13u8, 10u8]
}

/// The last-chunk marker and empty trailer section: `0 CRLF CRLF`.
pub open spec fn term_seq() -> Seq<u8> {
    seq![48u8, 13u8, 10u8, 13u8, 10u8]
}

/// ` HTTP/1.1` followed by CRLF.
pub open spec fn http11_suffix() -> Seq<u8> {
    seq![32u8, 72u8, 84u8, 84u8, 80u8, 47u8, 49u8, 46u8, 49u8, 13u8, 10u8]
}

/// `Content-Length: `
pub open spec fn content_length_prefix() -> Seq<u8> {
    seq![67u8, 111u8, 110u8, 116u8, 101u8, 110u8, 116u8, 45u8, 76u8, 101u8, 110u8,
        103u8, 116u8, 104u8, 58u8, 32u8]
}

/// `Transfer-Encoding: chunked` followed by CRLF.
pub open spec fn te_chunked_line() -> Seq<u8> {
    seq![84u8, 114u8, 97u8, 110u8, 115u8, 102u8, 101u8, 114u8, 45u8, 69u8, 110u8,
        99u8, 111u8, 100u8, 105u8, 110u8, 103u8, 58u8, 32u8, 99u8, 104u8, 117u8,
        110u8, 107u8, 101u8, 100u8, 13u8, 10u8]
}

/// Decimal numeral of `n`, most significant digit first.
pub open spec fn dec_bytes(n: nat) -> Seq<u8>
    decreases n,
{
    if n < 10 {
        seq![(48 + n) as u8]
    } else {
        dec_bytes(n / 10) + seq![(48 + n % 10) as u8]
    }
}

/// Lowercase hexadecimal digit for `d < 16`.
pub open spec fn hex_digit(d: nat) -> u8 {
    if d < 10 {
        (48 + d) as u8
    } else {
        (87 + d) as u8
    }
}

/// Hexadecimal numeral of `n`, most significant digit first.
pub open spec fn hex_bytes(n: nat) -> Seq<u8>
    decreases n,
{
    if n < 16 {
        seq![hex_digit(n)]
    } else {
        hex_bytes(n / 16) + seq![hex_digit(n % 16)]
    }
}

/// `name: value` followed by CRLF.
pub open spec fn header_line(name: Seq<u8>, value: Seq<u8>) -> Seq<u8> {
    name + seq![58u8, 32u8] + value + crlf()
}

pub open spec fn header_lines(hs: Seq<(Seq<u8>, Seq<u8>)>) -> Seq<u8>
    decreases hs.len(),
{
    if hs.len() == 0 {
        Seq::empty()
    } else {
        header_line(hs[0].0, hs[0].1) + header_lines(hs.skip(1))
    }
}

/// The framing header the codec adds for the declared body size. A WebSocket
/// handshake carries no body framing.
pub open spec fn body_framing_line(bs: BodySize, websocket: bool) -> Seq<u8> {
    if websocket {
        Seq::empty()
    } else {
        match bs {
            BodySize::NoBody => Seq::empty(),
            BodySize::Known(n) => content_length_prefix() + dec_bytes(n as nat) + crlf(),
            BodySize::Unknown => te_chunked_line(),
        }
    }
}

pub open spec fn headers_view(hs: Seq<Header>) -> Seq<(Seq<u8>, Seq<u8>)> {
    hs.map_values(|h: Header| (h.name@, h.value@))
}

/// The serialized request head: request line, caller headers, framing header,
/// final CRLF.
pub open spec fn request_header_bytes(
    method: Seq<u8>,
    uri: Seq<u8>,
    hs: Seq<(Seq<u8>, Seq<u8>)>,
    bs: BodySize,
    websocket: bool,
) -> Seq<u8> {
    method + seq![32u8] + uri + http11_suffix() + header_lines(hs)
        + body_framing_line(bs, websocket) + crlf()
}

fn push_dec(v: &mut Vec<u8>, n: u64)
    ensures
        final(v)@ == old(v)@ + dec_bytes(n as nat),
    decreases n,
{
    if n < 10 {
        v.push((48 + n) as u8);
    } else {
        proof {
            assert(n / 10 < n) by (nonlinear_arith)
                requires n >= 10;
        }
        push_dec(v, n / 10);
        v.push((48 + n % 10) as u8);
        proof {
            assert(final(v)@ =~= old(v)@ + dec_bytes(n as nat));
        }
    }
}

fn push_hex(v: &mut Vec<u8>, n: u64)
    ensures
        final(v)@ == old(v)@ + hex_bytes(n as nat),
    decreases n,
{
    if n < 16 {
        let d = if n < 10 { (48 + n) as u8 } else { (87 + n) as u8 };
        v.push(d);
    } else {
        proof {
            assert(n / 16 < n) by (nonlinear_arith)
                requires n >= 16;
        }
        push_hex(v, n / 16);
        let m = n % 16;
        let d = if m < 10 { (48 + m) as u8 } else { (87 + m) as u8 };
        v.push(d);
        proof {
            assert(final(v)@ =~= old(v)@ + hex_bytes(n as nat));
        }
    }
}

fn push_crlf(v: &mut Vec<u8>)
    ensures
        final(v)@ == old(v)@ + crlf(),
{
    v.push(13);
    v.push(10);
    proof {
        assert(final(v)@ =~= old(v)@ + crlf());
    }
}

fn push_http11_suffix(v: &mut Vec<u8>)
    ensures
        final(v)@ == old(v)@ + http11_suffix(),
{
    v.push(32);
    v.push(72);
    v.push(84);
    v.push(84);
    v.push(80);
    v.push(47);
    v.push(49);
    v.push(46);
    v.push(49);
    v.push(13);
    v.push(10);
    proof {
        assert(final(v)@ =~= old(v)@ + http11_suffix());
    }
}

fn push_content_length_prefix(v: &mut Vec<u8>)
    ensures
        final(v)@ == old(v)@ + content_length_prefix(),
{
    v.push(67);
    v.push(111);
    v.push(110);
    v.push(116);
    v.push(101);
    v.push(110);
    v.push(116);
    v.push(45);
    v.push(76);
    v.push(101);
    v.push(110);
    v.push(103);
    v.push(116);
    v.push(104);
    v.push(58);
    v.push(32);
    proof {
        assert(final(v)@ =~= old(v)@ + content_length_prefix());
    }
}

fn push_te_chunked_line(v: &mut Vec<u8>)
    ensures
        final(v)@ == old(v)@ + te_chunked_line(),
{
    v.push(84);
    v.push(114);
    v.push(97);
    v.push(110);
    v.push(115);
    v.push(102);
    v.push(101);
    v.push(114);
    v.push(45);
    v.push(69);
    v.push(110);
    v.push(99);
    v.push(111);
    v.push(100);
    v.push(105);
    v.push(110);
    v.push(103);
    v.push(58);
    v.push(32);
    v.push(99);
    v.push(104);
    v.push(117);
    v.push(110);
    v.push(107);
    v.push(101);
    v.push(100);
    v.push(13);
    v.push(10);
    proof {
        assert(final(v)@ =~= old(v)@ + te_chunked_line());
    }
}

proof fn lemma_header_lines_push(hs: Seq<(Seq<u8>, Seq<u8>)>, x: (Seq<u8>, Seq<u8>))
    ensures
        header_lines(hs.push(x)) == header_lines(hs) + header_line(x.0, x.1),
    decreases hs.len(),
{
    if hs.len() == 0 {
        assert(hs.push(x).skip(1) =~= Seq::<(Seq<u8>, Seq<u8>)>::empty());
        assert(hs.push(x)[0] == x);
        assert(hs.push(x).len() == 1);
        assert(header_lines(hs.push(x)) == header_line(x.0, x.1)
            + header_lines(hs.push(x).skip(1)));
        assert(header_lines(hs.push(x)) =~= header_lines(hs) + header_line(x.0, x.1));
    } else {
        assert(hs.push(x).skip(1) =~= hs.skip(1).push(x));
        lemma_header_lines_push(hs.skip(1), x);
        assert(hs.push(x)[0] == hs[0]);
        assert(header_lines(hs.push(x)) == header_line(hs[0].0, hs[0].1)
            + (header_lines(hs.skip(1)) + header_line(x.0, x.1)));
        assert(header_lines(hs.push(x)) =~= header_lines(hs) + header_line(x.0, x.1));
    }
}

/// Serialize the request head into a fresh byte vector.
fn serialize_request_header(
    method: &[u8],
    uri: &[u8],
    headers: &Vec<Header>,
    body_size: BodySize,
    websocket: bool,
) -> (r: Vec<u8>)
    ensures
        r@ == request_header_bytes(method@, uri@, headers_view(headers@), body_size, websocket),
{
    let mut v: Vec<u8> = Vec::new();
    v.extend_from_slice(method);
    v.push(32);
    v.extend_from_slice(uri);
    push_http11_suffix(&mut v);
    proof {
        assert(v@ =~= method@ + seq![32u8] + uri@ + http11_suffix()
            + header_lines(headers_view(headers@).take(0)));
    }
    let ghost prefix: Seq<u8> = v@;
    let mut i: usize = 0;
    while i < headers.len()
        invariant
            i <= headers.len(),
            v@ == prefix + header_lines(headers_view(headers@).take(i as int)),
        decreases headers.len() - i,
    {
        let h = &headers[i];
        v.extend_from_slice(h.name.as_slice());
        v.push(58);
        v.push(32);
        v.extend_from_slice(h.value.as_slice());
        push_crlf(&mut v);
        proof {
            let hv = headers_view(headers@);
            assert(hv.take(i + 1) =~= hv.take(i as int).push(hv[i as int]));
            lemma_header_lines_push(hv.take(i as int), hv[i as int]);
            assert(v@ =~= prefix + header_lines(hv.take(i + 1)));
        }
        i = i + 1;
    }
    proof {
        assert(headers_view(headers@).take(headers@.len() as int) =~= headers_view(headers@));
    }
    if !websocket {
        match body_size {
            BodySize::NoBody => {},
            BodySize::Known(n) => {
                push_content_length_prefix(&mut v);
                push_dec(&mut v, n);
                push_crlf(&mut v);
            },
            BodySize::Unknown => {
                push_te_chunked_line(&mut v);
            },
        }
    }
    push_crlf(&mut v);
    proof {
        assert(v@ =~= request_header_bytes(method@, uri@, headers_view(headers@), body_size,
            websocket));
    }
    v
}

/// Progress through the wire form of one chunk: the unsent part of the size
/// line, the unsent chunk data (still staged in the write buffer), and the
/// unsent part of the closing CRLF.
pub struct ChunkProgress {
    pub hdr_rest: Vec<u8>,
    pub body_rest: usize,
    pub trail_rest: usize,
}

/// Body framing state.
pub enum SendMode {
    /// No body follows the header.
    NoBody,
    /// Bytes pass unframed (WebSocket handshake hand-off).
    Raw,
    /// Length-delimited body with this many bytes still to send.
    Known { remaining: u64 },
    /// Chunked body: the active chunk, if any, and how much of the
    /// terminating `0 CRLF CRLF` is still unsent.
    Chunked { chunk: Option<ChunkProgress>, term_rest: usize },
}

/// Codec state for emitting the request body.
pub struct ClientRequestBody {
    pub mode: SendMode,
}

/// The start of the HTTP/1 codec: serializes one request head.
pub struct ClientRequest {
}

impl ClientRequest {
    pub fn new() -> (r: ClientRequest) {
        ClientRequest {  }
    }

    /// Serialize the request head into `buf`. Fails, changing nothing, when
    /// the serialized head does not fit in the buffer's free space.
    pub fn send_header(
        self,
        buf: &mut VecRingBuffer,
        method: &[u8],
        uri: &[u8],
        headers: &Vec<Header>,
        body_size: BodySize,
        websocket: bool,
    ) -> (r: Result<ClientRequestBody, ()>)
        requires
            old(buf).wf(),
            old(buf).has_inner(),
        ensures
            final(buf).wf(),
            final(buf).has_inner(),
            final(buf).capacity_spec() == old(buf).capacity_spec(),
            r is Ok <==> old(buf).readable().len() + request_header_bytes(method@, uri@,
                headers_view(headers@), body_size, websocket).len()
                <= old(buf).capacity_spec(),
            r is Ok ==> final(buf).readable() == old(buf).readable()
                + request_header_bytes(method@, uri@, headers_view(headers@), body_size,
                    websocket),
            r is Err ==> final(buf).readable() == old(buf).readable(),
            r matches Ok(b) ==> b.mode == initial_send_mode(body_size, websocket),
    {
        let wire = serialize_request_header(method, uri, headers, body_size, websocket);
        match buf.write_all(wire.as_slice()) {
            Ok(()) => {
                let mode = if websocket {
                    SendMode::Raw
                } else {
                    match body_size {
                        BodySize::NoBody => SendMode::NoBody,
                        BodySize::Known(n) => SendMode::Known { remaining: n },
                        BodySize::Unknown => SendMode::Chunked { chunk: None, term_rest: 5 },
                    }
                };
                Ok(ClientRequestBody { mode })
            },
            Err(()) => Err(()),
        }
    }
}

fn term_bytes() -> (r: Vec<u8>)
    ensures
        r@ == term_seq(),
{
    let mut v: Vec<u8> = Vec::new();
    v.push(48);
    v.push(13);
    v.push(10);
    v.push(13);
    v.push(10);
    proof {
        assert(v@ =~= term_seq());
    }
    v
}

/// Walking an accepted prefix through an active chunk's wire form leaves
/// exactly the unsent suffix: the remaining size line, the remaining chunk
/// data, and the remaining closing CRLF.
#[verifier::rlimit(100)]
proof fn lemma_chunk_wire_advance(hdr0: Seq<u8>, staged0: Seq<u8>, body0: int, trail0: int,
    accepted: int)
    requires
        0 <= body0 <= staged0.len(),
        1 <= trail0 <= 2,
        0 <= accepted <= hdr0.len() + body0 + trail0,
    ensures
        ({
            let htake = if accepted <= hdr0.len() { accepted } else { hdr0.len() as int };
            let a1 = accepted - htake;
            let btake = if a1 <= body0 { a1 } else { body0 };
            let a2 = a1 - btake;
            let trail1 = trail0 - a2;
            let wire0 = hdr0 + staged0.take(body0) + crlf().skip(2 - trail0);
            &&& (trail1 > 0 ==> hdr0.skip(htake) + staged0.skip(btake).take(body0 - btake)
                + crlf().skip(2 - trail1) == wire0.skip(accepted))
            &&& (trail1 == 0 <==> accepted == hdr0.len() + body0 + trail0)
            &&& wire0.len() == hdr0.len() + body0 + trail0
        }),
{
    let htake = if accepted <= hdr0.len() { accepted } else { hdr0.len() as int };
    let a1 = accepted - htake;
    let btake = if a1 <= body0 { a1 } else { body0 };
    let a2 = a1 - btake;
    let trail1 = trail0 - a2;
    let wire0 = hdr0 + staged0.take(body0) + crlf().skip(2 - trail0);
    assert(crlf().skip(2 - trail0).len() == trail0);
    if trail1 > 0 {
        assert(hdr0.skip(htake) + staged0.skip(btake).take(body0 - btake)
            + crlf().skip(2 - trail1) =~= wire0.skip(accepted));
    }
}

impl ClientRequestBody {
    /// Consistency of the framing state with the staged body bytes.
    pub open spec fn wf(self, staged: Seq<u8>) -> bool {
        match self.mode {
            SendMode::Chunked { chunk, term_rest } => term_rest <= 5 && match chunk {
                Some(c) => c.body_rest <= staged.len() && 1 <= c.trail_rest <= 2,
                None => true,
            },
            _ => true,
        }
    }

    /// The wire bytes this state offers the writer, given the staged body
    /// bytes and whether the body end has been latched.
    pub open spec fn wire_spec(self, staged: Seq<u8>, end: bool) -> Seq<u8> {
        match self.mode {
            SendMode::NoBody => Seq::empty(),
            SendMode::Raw => staged,
            SendMode::Known { remaining } => staged.take(
                if remaining <= staged.len() { remaining as int } else { staged.len() as int }),
            SendMode::Chunked { chunk, term_rest } => match chunk {
                Some(c) => c.hdr_rest@ + staged.take(c.body_rest as int)
                    + crlf().skip(2 - c.trail_rest),
                None => if end && staged.len() == 0 {
                    term_seq().skip(5 - term_rest)
                } else {
                    Seq::empty()
                },
            },
        }
    }

    /// How many of `accepted` wire bytes are staged body bytes.
    pub open spec fn body_share(self, accepted: int) -> int {
        match self.mode {
            SendMode::NoBody => 0,
            SendMode::Raw => accepted,
            SendMode::Known { remaining } => accepted,
            SendMode::Chunked { chunk, term_rest } => match chunk {
                Some(c) => {
                    let h = c.hdr_rest@.len() as int;
                    if accepted <= h {
                        0
                    } else if accepted <= h + c.body_rest {
                        accepted - h
                    } else {
                        c.body_rest as int
                    }
                },
                None => 0,
            },
        }
    }

    /// Whether accounting for `accepted` offered wire bytes finishes the
    /// body: the deciding condition for `advance` reporting completion,
    /// stated over the state before the call.
    pub open spec fn complete_after(self, staged: Seq<u8>, end: bool, accepted: int) -> bool {
        match self.mode {
            SendMode::NoBody => end && staged.len() == 0,
            SendMode::Raw => end && staged.len() == accepted,
            SendMode::Known { remaining } => remaining == accepted && staged.len() == accepted,
            SendMode::Chunked { chunk, term_rest } => match chunk {
                Some(c) => term_rest == 0 && end
                    && accepted == c.hdr_rest@.len() + c.body_rest + c.trail_rest
                    && staged.len() == c.body_rest,
                None => end && staged.len() == 0 && term_rest == accepted,
            },
        }
    }

    /// Whether the whole body, including framing, has been emitted.
    pub open spec fn is_complete(self, staged_len: nat, end: bool) -> bool {
        match self.mode {
            SendMode::NoBody => end && staged_len == 0,
            SendMode::Raw => end && staged_len == 0,
            SendMode::Known { remaining } => remaining == 0 && staged_len == 0,
            SendMode::Chunked { chunk, term_rest } => chunk is None && end && staged_len == 0
                && term_rest == 0,
        }
    }

    /// Build the wire bytes to offer the writer. For chunked framing this
    /// opens a new chunk over the staged bytes when none is active.
    pub fn send_wire(&mut self, buf: &VecRingBuffer, end: bool) -> (r: Vec<u8>)
        requires
            buf.wf(),
            buf.has_inner(),
            old(self).wf(buf.readable()),
        ensures
            final(self).wf(buf.readable()),
            r@ == final(self).wire_spec(buf.readable(), end),
            final(self).is_complete(buf.readable().len(), end)
                == old(self).is_complete(buf.readable().len(), end),
            (match old(self).mode {
                SendMode::Chunked { chunk: None, term_rest } => if buf.readable().len() > 0 {
                    &&& final(self).mode matches SendMode::Chunked {
                        chunk: Some(c), term_rest: t2 }
                    &&& t2 == term_rest
                    &&& c.hdr_rest@ == hex_bytes(buf.readable().len()) + crlf()
                    &&& c.body_rest == buf.readable().len()
                    &&& c.trail_rest == 2
                } else {
                    *final(self) == *old(self)
                },
                _ => *final(self) == *old(self),
            }),
    {
        let mut m = SendMode::NoBody;
        core::mem::swap(&mut m, &mut self.mode);
        match m {
            SendMode::NoBody => {
                self.mode = SendMode::NoBody;
                Vec::new()
            },
            SendMode::Raw => {
                self.mode = SendMode::Raw;
                let mut w: Vec<u8> = Vec::new();
                w.extend_from_slice(buf.read_buf());
                proof {
                    assert(w@ =~= self.wire_spec(buf.readable(), end));
                }
                w
            },
            SendMode::Known { remaining } => {
                let len = buf.len();
                let n: usize = if remaining <= len as u64 { remaining as usize } else { len };
                let mut w: Vec<u8> = Vec::new();
                w.extend_from_slice(vstd::slice::slice_subrange(buf.read_buf(), 0, n));
                self.mode = SendMode::Known { remaining };
                proof {
                    assert(w@ =~= self.wire_spec(buf.readable(), end));
                }
                w
            },
            SendMode::Chunked { chunk, term_rest } => {
                let chunk2 = match chunk {
                    None => if buf.len() > 0 {
                        let mut hdr: Vec<u8> = Vec::new();
                        push_hex(&mut hdr, buf.len() as u64);
                        push_crlf(&mut hdr);
                        Some(ChunkProgress { hdr_rest: hdr, body_rest: buf.len(), trail_rest: 2 })
                    } else {
                        None
                    },
                    Some(c) => Some(c),
                };
                let mut w: Vec<u8> = Vec::new();
                match &chunk2 {
                    Some(c) => {
                        w.extend_from_slice(c.hdr_rest.as_slice());
                        w.extend_from_slice(vstd::slice::slice_subrange(buf.read_buf(), 0,
                            c.body_rest));
                        if c.trail_rest == 2 {
                            w.push(13);
                        }
                        w.push(10);
                    },
                    None => {
                        if end {
                            let t = term_bytes();
                            w.extend_from_slice(vstd::slice::slice_subrange(t.as_slice(),
                                5 - term_rest, 5));
                        }
                    },
                }
                self.mode = SendMode::Chunked { chunk: chunk2, term_rest };
                proof {
                    assert(w@ =~= self.wire_spec(buf.readable(), end));
                }
                w
            },
        }
    }

    /// Account for `accepted` wire bytes the writer took: drop them from the
    /// unsent framing, commit the accepted body bytes out of `buf`, and
    /// report `(body bytes committed, body complete)`. The wire bytes still
    /// owed afterwards are exactly the unsent suffix of what was offered.
    #[verifier::rlimit(100)]
    pub fn advance(&mut self, buf: &mut VecRingBuffer, end: bool, accepted: usize) -> (r: (usize,
        bool))
        requires
            old(buf).wf(),
            old(buf).has_inner(),
            old(self).wf(old(buf).readable()),
            accepted <= old(self).wire_spec(old(buf).readable(), end).len(),
        ensures
            final(buf).wf(),
            final(buf).has_inner(),
            final(buf).capacity_spec() == old(buf).capacity_spec(),
            final(self).wf(final(buf).readable()),
            r.0 == old(self).body_share(accepted as int),
            final(buf).readable() == old(buf).readable().skip(r.0 as int),
            r.1 == final(self).is_complete(final(buf).readable().len(), end),
            r.1 == old(self).complete_after(old(buf).readable(), end, accepted as int),
            match old(self).mode {
                SendMode::NoBody => final(self).mode == SendMode::NoBody,
                SendMode::Raw => final(self).mode == SendMode::Raw,
                SendMode::Known { remaining } => final(self).mode == (SendMode::Known {
                    remaining: (remaining - accepted) as u64 }),
                SendMode::Chunked { chunk: None, term_rest } => final(self).mode
                    == (SendMode::Chunked { chunk: None,
                        term_rest: (term_rest - accepted) as usize }),
                SendMode::Chunked { chunk: Some(cc), term_rest: tr0 } => ({
                    let h = cc.hdr_rest@.len() as int;
                    let htake = if accepted <= h { accepted as int } else { h };
                    let a1 = accepted - htake;
                    let btake = if a1 <= cc.body_rest { a1 } else { cc.body_rest as int };
                    let a2 = a1 - btake;
                    let trail1 = cc.trail_rest - a2;
                    if trail1 > 0 {
                        &&& final(self).mode matches SendMode::Chunked { chunk: Some(c2),
                            term_rest: tr2 }
                        &&& tr2 == tr0
                        &&& c2.hdr_rest@ == cc.hdr_rest@.skip(htake)
                        &&& c2.body_rest == cc.body_rest - btake
                        &&& c2.trail_rest == trail1
                    } else {
                        final(self).mode == (SendMode::Chunked { chunk: None, term_rest: tr0 })
                    }
                }),
            },
            !(old(self).mode matches SendMode::Chunked { chunk: Some(_), .. })
                ==> final(self).wire_spec(final(buf).readable(), end)
                    == old(self).wire_spec(old(buf).readable(), end).skip(accepted as int),
            (old(self).mode matches SendMode::Chunked { chunk: Some(cc), term_rest: tr0 } ==> ({
                ||| {
                    &&& final(self).mode matches SendMode::Chunked { chunk: Some(c2),
                        term_rest: tr2 }
                    &&& tr2 == tr0
                    &&& final(self).wire_spec(final(buf).readable(), end)
                        == old(self).wire_spec(old(buf).readable(), end).skip(accepted as int)
                }
                ||| {
                    &&& final(self).mode matches SendMode::Chunked { chunk: None,
                        term_rest: tr2 }
                    &&& tr2 == tr0
                    &&& accepted == old(self).wire_spec(old(buf).readable(), end).len()
                    &&& final(self).wire_spec(final(buf).readable(), end)
                        == (if end && final(buf).readable().len() == 0 {
                            term_seq().skip(5 - tr0)
                        } else {
                            Seq::<u8>::empty()
                        })
                }
            })),
    {
        let mut m = SendMode::NoBody;
        core::mem::swap(&mut m, &mut self.mode);
        match m {
            SendMode::NoBody => {
                self.mode = SendMode::NoBody;
                (0, end && buf.len() == 0)
            },
            SendMode::Raw => {
                buf.read_commit(accepted);
                self.mode = SendMode::Raw;
                (accepted, end && buf.len() == 0)
            },
            SendMode::Known { remaining } => {
                buf.read_commit(accepted);
                let rem2 = remaining - accepted as u64;
                self.mode = SendMode::Known { remaining: rem2 };
                proof {
                    assert(self.wire_spec(final(buf).readable(), end)
                        =~= old(self).wire_spec(old(buf).readable(), end).skip(accepted as int));
                }
                (accepted, rem2 == 0 && buf.len() == 0)
            },
            SendMode::Chunked { chunk, term_rest } => {
                match chunk {
                    Some(c) => {
                        let ghost hdr0: Seq<u8> = c.hdr_rest@;
                        let ghost body0: int = c.body_rest as int;
                        let ghost trail0: int = c.trail_rest as int;
                        let ghost staged0: Seq<u8> = buf.readable();
                        let mut acc = accepted;
                        let mut hdr = c.hdr_rest;
                        let mut body = c.body_rest;
                        let mut trail = c.trail_rest;
                        let htake = if acc <= hdr.len() { acc } else { hdr.len() };
                        let hdr_tail = hdr.split_off(htake);
                        acc = acc - htake;
                        let btake = if acc <= body { acc } else { body };
                        buf.read_commit(btake);
                        body = body - btake;
                        acc = acc - btake;
                        trail = trail - acc;
                        let chunk2 = if trail == 0 {
                            None
                        } else {
                            Some(ChunkProgress { hdr_rest: hdr_tail, body_rest: body,
                                trail_rest: trail })
                        };
                        let finished = matches!(chunk2, None);
                        self.mode = SendMode::Chunked { chunk: chunk2, term_rest };
                        let complete = finished && buf.len() == 0 && end && term_rest == 0;
                        proof {
                            let wire0 = old(self).wire_spec(old(buf).readable(), end);
                            assert(wire0 == hdr0 + staged0.take(body0)
                                + crlf().skip(2 - trail0));
                            lemma_chunk_wire_advance(hdr0, staged0, body0, trail0,
                                accepted as int);
                            assert(hdr_tail@ =~= hdr0.skip(htake as int));
                            assert(final(buf).readable() == staged0.skip(btake as int));
                            if !finished {
                                assert(self.wire_spec(final(buf).readable(), end)
                                    == wire0.skip(accepted as int));
                            } else {
                                assert(accepted == wire0.len());
                            }
                        }
                        (btake, complete)
                    },
                    None => {
                        let tr2 = term_rest - accepted;
                        self.mode = SendMode::Chunked { chunk: None, term_rest: tr2 };
                        proof {
                            assert(self.wire_spec(final(buf).readable(), end)
                                =~= old(self).wire_spec(old(buf).readable(), end).skip(
                                accepted as int));
                        }
                        (0, end && buf.len() == 0 && tr2 == 0)
                    },
                }
            },
        }
    }
}

/// The framing state a fresh request body starts in.
pub open spec fn initial_send_mode(bs: BodySize, websocket: bool) -> SendMode {
    if websocket {
        SendMode::Raw
    } else {
        match bs {
            BodySize::NoBody => SendMode::NoBody,
            BodySize::Known(n) => SendMode::Known { remaining: n },
            BodySize::Unknown => SendMode::Chunked { chunk: None, term_rest: 5 },
        }
    }
}

} // verus!
