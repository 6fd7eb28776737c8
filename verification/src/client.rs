//! The exchange engine: a linear pipeline of phase handles driving one
//! HTTP/1 request/response over a byte-stream transport.
//!
//! The engine itself performs no I/O. Each suspending operation of the
//! exchange is split into a pure decision step here and a thin I/O loop at
//! the caller: the caller hands in what the transport produced (bytes read,
//! bytes accepted by the writer, a transport error class) and the engine
//! decides what happens next.

use vstd::prelude::*;
use crate::buffer::VecRingBuffer;
use crate::codec::{crlf, hex_bytes, initial_send_mode, request_header_bytes, headers_view,
    BodySize, ClientFinished, ClientRequest, ClientRequestBody, Header, SendMode};
use crate::error::{Error, IoKind, ParseError};
use crate::parse::{framing_of, lines_view, persistent_of, response_header_parse, BodyFraming,
    HeaderParse, HeaderParseSpec};
use crate::resp::{decode, decode_spec, lemma_decode_bounds, ClientResponse, ClientResponseBody,
    OwnedResponse, RecvMode};

verus! {

/// What one read of the transport produced.
pub enum ReadEvent {
    /// Bytes arrived.
    Data(Vec<u8>),
    /// The peer closed its write half.
    Eof,
}

/// What one write attempt against the transport produced.
pub enum WriteOutcome {
    /// The writer took this many of the offered wire bytes.
    Accepted(usize),
    /// The write failed with this transport error class.
    Failed(IoKind),
}

/// Result of one round of the send/receive core.
pub enum SendStatus {
    /// The whole request body went out; the exchange moves to the response.
    Complete(Response),
    /// This many staged body bytes were committed to the writer.
    Partial(usize),
    /// No progress; race a write attempt against a read probe again.
    SendAgain,
    /// The write half broke with nothing received yet: perform one blocking
    /// read, hand it to `recv_bytes`, then check for an early response.
    ReadThenRetry,
    /// Terminal failure.
    Failed(Error),
}

/// Result of one parsing step of the response head.
pub enum HeaderStep {
    /// The head is complete: the parsed head with its storage, and the body
    /// phase handle.
    Complete(OwnedResponse, ResponseBodyKeepHeader),
    /// The buffered bytes do not hold a complete head yet: read more.
    NeedMore(Response),
    /// Terminal failure. The handle comes back with its buffered bytes
    /// untouched, so the caller keeps what was received.
    Failed(Error, Response),
}

/// Result of draining decoded body bytes.
pub enum RecvStatus<F> {
    /// The body is complete; this many bytes were appended to the caller's
    /// destination by this call.
    Complete(F, usize),
    /// This many bytes were appended; the body continues.
    Read(usize),
}

/// Phase 1: a fresh exchange holding the two buffers.
pub struct Request {
    buf1: VecRingBuffer,
    buf2: VecRingBuffer,
}

/// Phase 2: the serialized head is staged in `buf1` and drains to the
/// writer; `buf2` holds the initial body bytes.
pub struct RequestHeader {
    buf1: VecRingBuffer,
    buf2: VecRingBuffer,
    req_body: ClientRequestBody,
    end: bool,
}

struct RequestBodyInner {
    buf1: VecRingBuffer,
    buf2: VecRingBuffer,
    body: ClientRequestBody,
    end: bool,
    block_size: usize,
    staged: Ghost<nat>,
    committed: Ghost<nat>,
}

/// Phase 3: the concurrent send/receive core. `buf2` stages body bytes for
/// the writer while `buf1` collects any early response bytes.
pub struct RequestBody {
    inner: Option<RequestBodyInner>,
}

/// Phase 4: response head parsing. `buf1` accumulates bytes from the
/// transport; `buf2` stands empty, ready to take the body residual.
pub struct Response {
    buf1: VecRingBuffer,
    buf2: VecRingBuffer,
    resp: ClientResponse,
}

struct ResponseBodyInner {
    buf1: VecRingBuffer,
    closed: bool,
    body: ClientResponseBody,
}

/// Phase 5: streaming body decode out of `buf1`.
pub struct ResponseBody {
    inner: Option<ResponseBodyInner>,
}

/// Phase 5 with the parsed head still alive: additionally holds the
/// storage-less buffer that takes the head's storage back on release.
pub struct ResponseBodyKeepHeader {
    inner: ResponseBody,
    buf2: Option<VecRingBuffer>,
}

/// Terminal value of the exchange.
pub struct Finished {
    inner: ClientFinished,
}

/// Terminal value that still retains the head's backing storage.
pub struct FinishedKeepHeader {
    inner: Finished,
    buf2: VecRingBuffer,
}

impl Request {
    pub closed spec fn wf(self) -> bool {
        self.buf1.wf() && self.buf1.has_inner() && self.buf2.wf() && self.buf2.has_inner()
    }

    pub closed spec fn buf1_view(self) -> Seq<u8> {
        self.buf1.readable()
    }

    pub closed spec fn buf2_view(self) -> Seq<u8> {
        self.buf2.readable()
    }

    pub closed spec fn buf1_cap(self) -> nat {
        self.buf1.capacity_spec()
    }

    pub closed spec fn buf2_cap(self) -> nat {
        self.buf2.capacity_spec()
    }

    /// Begin an exchange over the given buffers. `buf1` is the read side,
    /// `buf2` the write side.
    pub fn new(buf1: VecRingBuffer, buf2: VecRingBuffer) -> (r: Request)
        requires
            buf1.wf(),
            buf1.has_inner(),
            buf2.wf(),
            buf2.has_inner(),
        ensures
            r.wf(),
            r.buf1_view() == buf1.readable(),
            r.buf2_view() == buf2.readable(),
            r.buf1_cap() == buf1.capacity_spec(),
            r.buf2_cap() == buf2.capacity_spec(),
    {
        Request { buf1, buf2 }
    }

    /// Serialize the request head into `buf1` and stage the initial body
    /// bytes in `buf2`. No I/O happens here.
    pub fn prepare_header(
        self,
        method: &[u8],
        uri: &[u8],
        headers: &Vec<Header>,
        body_size: BodySize,
        websocket: bool,
        initial_body: &[u8],
        end: bool,
    ) -> (r: Result<RequestHeader, Error>)
        requires
            self.wf(),
        ensures
            ({
                let wire = request_header_bytes(method@, uri@, headers_view(headers@), body_size,
                    websocket);
                let hdr_fits = self.buf1_view().len() + wire.len() <= self.buf1_cap();
                let body_fits = self.buf2_view().len() + initial_body@.len() <= self.buf2_cap();
                &&& r is Ok <==> hdr_fits && body_fits
                &&& !hdr_fits ==> r == Result::<RequestHeader, Error>::Err(
                    Error::RequestTooLarge(self.buf1_cap() as usize))
                &&& hdr_fits && !body_fits ==> r == Result::<RequestHeader, Error>::Err(
                    Error::BufferExceeded)
                &&& r matches Ok(rh) ==> {
                    &&& rh.wf()
                    &&& rh.buf1_view() == self.buf1_view() + wire
                    &&& rh.buf2_view() == self.buf2_view() + initial_body@
                    &&& rh.end_spec() == end
                    &&& rh.body_mode() == initial_send_mode(body_size, websocket)
                    &&& rh.buf1_cap() == self.buf1_cap()
                    &&& rh.buf2_cap() == self.buf2_cap()
                }
            }),
    {
        let mut buf1 = self.buf1;
        let mut buf2 = self.buf2;
        let size_limit = buf1.capacity();
        let req = ClientRequest::new();
        let req_body = match req.send_header(&mut buf1, method, uri, headers, body_size,
            websocket) {
            Ok(ret) => ret,
            Err(()) => {
                return Err(Error::RequestTooLarge(size_limit));
            },
        };
        if buf2.write_all(initial_body).is_err() {
            return Err(Error::BufferExceeded);
        }
        Ok(RequestHeader { buf1, buf2, req_body, end })
    }
}

impl RequestHeader {
    pub closed spec fn wf(self) -> bool {
        &&& self.buf1.wf()
        &&& self.buf1.has_inner()
        &&& self.buf2.wf()
        &&& self.buf2.has_inner()
        &&& self.req_body.wf(self.buf2.readable())
        &&& !(self.req_body.mode matches SendMode::Chunked { chunk: Some(_), .. })
    }

    pub closed spec fn buf1_view(self) -> Seq<u8> {
        self.buf1.readable()
    }

    pub closed spec fn buf2_view(self) -> Seq<u8> {
        self.buf2.readable()
    }

    pub closed spec fn buf1_cap(self) -> nat {
        self.buf1.capacity_spec()
    }

    pub closed spec fn buf2_cap(self) -> nat {
        self.buf2.capacity_spec()
    }

    pub closed spec fn end_spec(self) -> bool {
        self.end
    }

    pub closed spec fn body_mode(self) -> SendMode {
        self.req_body.mode
    }

    /// The head bytes still to be written.
    pub fn pending_bytes(&self) -> (r: Vec<u8>)
        requires
            self.wf(),
        ensures
            r@ == self.buf1_view(),
    {
        let mut v: Vec<u8> = Vec::new();
        v.extend_from_slice(self.buf1.read_buf());
        proof {
            assert(v@ =~= self.buf1_view());
        }
        v
    }

    /// Account for head bytes the writer accepted.
    pub fn commit(&mut self, n: usize)
        requires
            old(self).wf(),
            n <= old(self).buf1_view().len(),
        ensures
            final(self).wf(),
            final(self).buf1_view() == old(self).buf1_view().skip(n as int),
            final(self).buf2_view() == old(self).buf2_view(),
            final(self).buf1_cap() == old(self).buf1_cap(),
            final(self).buf2_cap() == old(self).buf2_cap(),
            final(self).end_spec() == old(self).end_spec(),
            final(self).body_mode() == old(self).body_mode(),
    {
        self.buf1.read_commit(n);
    }

    /// Move to the body phase once the head has fully drained. The write
    /// buffer's capacity at this point becomes the body block size.
    pub fn finish(self) -> (r: RequestBody)
        requires
            self.wf(),
            self.buf1_view().len() == 0,
        ensures
            r.wf(),
            r.usable(),
            r.buf1_view() == self.buf1_view(),
            r.buf2_view() == self.buf2_view(),
            r.end_latched() == self.end_spec(),
            r.staged_spec() == self.buf2_view().len(),
            r.committed_spec() == 0,
            r.body_mode() == self.body_mode(),
            r.block_size_spec() == self.buf2_cap(),
            r.buf2_cap() == self.buf2_cap(),
            r.buf1_cap() == self.buf1_cap(),
    {
        let block_size = self.buf2.capacity();
        let ghost staged0: nat = self.buf2.readable().len();
        proof {
            if block_size > 0 {
                vstd::arithmetic::div_mod::lemma_mod_self_0(block_size as int);
            }
        }
        RequestBody {
            inner: Some(RequestBodyInner {
                buf1: self.buf1,
                buf2: self.buf2,
                body: self.req_body,
                end: self.end,
                block_size,
                staged: Ghost(staged0),
                committed: Ghost(0nat),
            }),
        }
    }
}

impl RequestBody {
    pub closed spec fn usable(self) -> bool {
        self.inner is Some
    }

    pub closed spec fn wf(self) -> bool {
        self.inner matches Some(i) ==> {
            &&& i.buf1.wf()
            &&& i.buf1.has_inner()
            &&& i.buf2.wf()
            &&& i.buf2.has_inner()
            &&& i.body.wf(i.buf2.readable())
            &&& i.staged@ == i.committed@ + i.buf2.readable().len()
            &&& (i.block_size > 0 ==> i.buf2.capacity_spec() % (i.block_size as nat) == 0)
        }
    }

    pub closed spec fn buf1_view(self) -> Seq<u8> {
        self.inner->Some_0.buf1.readable()
    }

    pub closed spec fn buf2_view(self) -> Seq<u8> {
        self.inner->Some_0.buf2.readable()
    }

    pub closed spec fn buf1_cap(self) -> nat {
        self.inner->Some_0.buf1.capacity_spec()
    }

    pub closed spec fn buf2_cap(self) -> nat {
        self.inner->Some_0.buf2.capacity_spec()
    }

    pub closed spec fn end_latched(self) -> bool {
        self.inner->Some_0.end
    }

    /// Sum of the body bytes `prepare` accepted.
    pub closed spec fn staged_spec(self) -> nat {
        self.inner->Some_0.staged@
    }

    /// Sum of the staged body bytes committed to the writer.
    pub closed spec fn committed_spec(self) -> nat {
        self.inner->Some_0.committed@
    }

    pub closed spec fn body_mode(self) -> SendMode {
        self.inner->Some_0.body.mode
    }

    /// The write-buffer growth unit, captured when the head finished.
    pub closed spec fn block_size_spec(self) -> nat {
        self.inner->Some_0.block_size as nat
    }

    /// The wire bytes the codec currently offers the writer. Stated over
    /// the public framing state, so callers can evaluate it.
    pub open spec fn wire_pending(self) -> Seq<u8> {
        (ClientRequestBody { mode: self.body_mode() }).wire_spec(self.buf2_view(),
            self.end_latched())
    }

    /// How many of `accepted` wire bytes are staged body bytes. Stated over
    /// the public framing state, so callers can evaluate it.
    pub open spec fn share_of(self, accepted: int) -> int {
        (ClientRequestBody { mode: self.body_mode() }).body_share(accepted)
    }

    /// Whether the writer accepting `accepted` offered wire bytes finishes
    /// the body: when `apply_send` owes `Complete`. Stated over the public
    /// framing state, so callers can evaluate it.
    pub open spec fn send_complete_after(self, accepted: int) -> bool {
        (ClientRequestBody { mode: self.body_mode() }).complete_after(self.buf2_view(),
            self.end_latched(), accepted)
    }

    /// Stage body bytes: copy as much of `src` as fits into the write
    /// buffer. `end` latches only when all of `src` was absorbed.
    pub fn prepare(&mut self, src: &[u8], end: bool) -> (r: Result<usize, Error>)
        requires
            old(self).wf(),
        ensures
            final(self).wf(),
            !old(self).usable() ==> r == Result::<usize, Error>::Err(Error::Unusable)
                && *final(self) == *old(self),
            old(self).usable() && old(self).end_latched() ==> r == Result::<usize, Error>::Err(
                Error::FurtherInputNotAllowed) && *final(self) == *old(self),
            old(self).usable() && !old(self).end_latched() ==> ({
                let room = old(self).buf2_cap() - old(self).buf2_view().len();
                let n: int = if src@.len() <= room { src@.len() as int } else { room as int };
                &&& r == Result::<usize, Error>::Ok(n as usize)
                &&& final(self).usable()
                &&& final(self).buf2_view() == old(self).buf2_view() + src@.take(n)
                &&& final(self).staged_spec() == old(self).staged_spec() + n
                &&& final(self).committed_spec() == old(self).committed_spec()
                &&& final(self).end_latched() == (end && n == src@.len())
                &&& final(self).buf1_view() == old(self).buf1_view()
                &&& final(self).buf2_cap() == old(self).buf2_cap()
                &&& final(self).body_mode() == old(self).body_mode()
            }),
            r matches Ok(n) && n < src@.len() ==> final(self).end_latched()
                == old(self).end_latched(),
    {
        match self.inner.take() {
            None => Err(Error::Unusable),
            Some(mut inner) => {
                if inner.end {
                    self.inner = Some(inner);
                    return Err(Error::FurtherInputNotAllowed);
                }
                let n = inner.buf2.write(src);
                if n == src.len() && end {
                    inner.end = true;
                }
                proof {
                    inner.staged@ = inner.staged@ + n as nat;
                }
                self.inner = Some(inner);
                Ok(n)
            },
        }
    }

    /// Grow the write buffer by one block when it is full, up to
    /// `blocks_max` blocks, gated by the caller's reservation check.
    /// Returns the capacity in blocks.
    pub fn expand_write_buffer<F: Fn() -> bool>(&mut self, blocks_max: usize, reserve: F) -> (r:
        Result<usize, Error>)
        requires
            old(self).wf(),
            reserve.requires(()),
        ensures
            final(self).wf(),
            !old(self).usable() ==> r == Result::<usize, Error>::Err(Error::Unusable)
                && *final(self) == *old(self),
            old(self).usable() ==> ({
                let bs = old(self).block_size_spec();
                &&& final(self).usable()
                &&& final(self).buf1_view() == old(self).buf1_view()
                &&& final(self).buf2_view() == old(self).buf2_view()
                &&& final(self).staged_spec() == old(self).staged_spec()
                &&& final(self).committed_spec() == old(self).committed_spec()
                &&& final(self).end_latched() == old(self).end_latched()
                &&& final(self).body_mode() == old(self).body_mode()
                &&& final(self).block_size_spec() == bs
                &&& final(self).buf2_cap() == old(self).buf2_cap()
                    || (old(self).buf2_view().len() == old(self).buf2_cap()
                        && bs > 0
                        && old(self).buf2_cap() / bs < blocks_max
                        && final(self).buf2_cap() == old(self).buf2_cap() + bs)
                &&& (final(self).buf2_cap() != old(self).buf2_cap()
                    ==> call_ensures(reserve, (), true))
                &&& (old(self).buf2_view().len() == old(self).buf2_cap()
                    && bs > 0
                    && old(self).buf2_cap() / bs < blocks_max
                    && old(self).buf2_cap() + bs <= usize::MAX
                    && (forall|ok: bool| call_ensures(reserve, (), ok) ==> ok)
                    ==> final(self).buf2_cap() == old(self).buf2_cap() + bs)
                &&& r == Result::<usize, Error>::Ok((if bs > 0 {
                    final(self).buf2_cap() / bs
                } else {
                    0
                }) as usize)
                &&& (bs > 0 ==> final(self).buf2_cap() == (final(self).buf2_cap() / bs) * bs)
            }),
    {
        match self.inner.take() {
            None => Err(Error::Unusable),
            Some(mut inner) => {
                let bs = inner.block_size;
                let cap = inner.buf2.capacity();
                if bs > 0 && inner.buf2.len() == cap && cap / bs < blocks_max
                    && cap <= usize::MAX - bs {
                    if reserve() {
                        inner.buf2.expand(cap + bs);
                        proof {
                            assert((cap + bs) as nat % (bs as nat) == 0) by (nonlinear_arith)
                                requires cap as nat % (bs as nat) == 0 && bs > 0;
                        }
                    }
                }
                let blocks = if bs > 0 { inner.buf2.capacity() / bs } else { 0 };
                proof {
                    if bs > 0 {
                        let c2 = inner.buf2.capacity_spec() as int;
                        vstd::arithmetic::div_mod::lemma_fundamental_div_mod(c2, bs as int);
                    }
                }
                self.inner = Some(inner);
                Ok(blocks)
            },
        }
    }

    /// Whether a send attempt can make progress: staged bytes exist or the
    /// end is latched.
    pub fn can_send(&self) -> (r: bool)
        requires
            self.wf(),
        ensures
            r == (self.usable() && (self.buf2_view().len() > 0 || self.end_latched())),
    {
        match &self.inner {
            None => false,
            Some(inner) => inner.buf2.len() > 0 || inner.end,
        }
    }

    /// The early-response check: when response bytes are already buffered,
    /// the body phase ends, the staged body bytes are discarded, and the
    /// exchange moves to the response.
    pub fn take_inner_if_early_response(&mut self) -> (r: Option<Response>)
        requires
            old(self).wf(),
        ensures
            !old(self).usable() ==> r is None && *final(self) == *old(self),
            old(self).usable() && old(self).buf1_view().len() == 0 ==> r is None
                && *final(self) == *old(self),
            old(self).usable() && old(self).buf1_view().len() > 0 ==> ({
                &&& r matches Some(resp)
                &&& !final(self).usable()
                &&& resp.wf()
                &&& resp.buf1_view() == old(self).buf1_view()
                &&& resp.buf2_view() == Seq::<u8>::empty()
                &&& resp.buf1_cap() == old(self).buf1_cap()
                &&& resp.buf2_cap() == old(self).buf2_cap()
            }),
            final(self).wf(),
    {
        match self.inner.take() {
            None => None,
            Some(mut inner) => {
                if inner.buf1.len() > 0 {
                    inner.buf2.clear();
                    Some(Response { buf1: inner.buf1, buf2: inner.buf2,
                        resp: ClientResponse {  } })
                } else {
                    self.inner = Some(inner);
                    None
                }
            },
        }
    }

    /// Bytes the read probe received. They go into the read buffer, whole,
    /// where the next round's early-response check will see them; an event
    /// larger than the free room is rejected untouched, since the probe has
    /// nowhere to hold the bytes and must wait. An end of the stream here
    /// is a transport error.
    pub fn recv_bytes(&mut self, event: ReadEvent) -> (r: Result<usize, Error>)
        requires
            old(self).wf(),
        ensures
            final(self).wf(),
            !old(self).usable() ==> r == Result::<usize, Error>::Err(Error::Unusable)
                && *final(self) == *old(self),
            old(self).usable() ==> final(self).usable()
                && final(self).buf2_view() == old(self).buf2_view()
                && final(self).staged_spec() == old(self).staged_spec()
                && final(self).committed_spec() == old(self).committed_spec()
                && final(self).end_latched() == old(self).end_latched()
                && final(self).body_mode() == old(self).body_mode(),
            old(self).usable() ==> match event {
                ReadEvent::Data(d) => if old(self).buf1_view().len() + d@.len()
                    <= old(self).buf1_cap() {
                    r == Result::<usize, Error>::Ok(d@.len() as usize)
                        && final(self).buf1_view() == old(self).buf1_view() + d@
                } else {
                    r == Result::<usize, Error>::Err(Error::Io(IoKind::WriteZero))
                        && final(self).buf1_view() == old(self).buf1_view()
                },
                ReadEvent::Eof => r == Result::<usize, Error>::Err(Error::Io(
                    IoKind::UnexpectedEof)) && final(self).buf1_view() == old(self).buf1_view(),
            },
    {
        match self.inner.take() {
            None => Err(Error::Unusable),
            Some(mut inner) => {
                match event {
                    ReadEvent::Data(d) => {
                        let r = match inner.buf1.write_all(d.as_slice()) {
                            Ok(()) => Ok(d.len()),
                            Err(()) => Err(Error::Io(IoKind::WriteZero)),
                        };
                        self.inner = Some(inner);
                        r
                    },
                    ReadEvent::Eof => {
                        self.inner = Some(inner);
                        Err(Error::Io(IoKind::UnexpectedEof))
                    },
                }
            },
        }
    }

    /// Free room in the read buffer: how many probe bytes the next
    /// `recv_bytes` can accept. Zero once the handle is consumed.
    pub fn read_room(&self) -> (r: usize)
        requires
            self.wf(),
        ensures
            self.usable() ==> r == self.buf1_cap() - self.buf1_view().len(),
            !self.usable() ==> r == 0,
    {
        match &self.inner {
            None => 0,
            Some(inner) => inner.buf1.free_space(),
        }
    }

    /// Build the wire bytes to offer the writer in this round: the staged
    /// body bytes under the codec's framing.
    pub fn send_wire(&mut self) -> (r: Result<Vec<u8>, Error>)
        requires
            old(self).wf(),
        ensures
            final(self).wf(),
            !old(self).usable() ==> r == Result::<Vec<u8>, Error>::Err(Error::Unusable)
                && *final(self) == *old(self),
            old(self).usable() ==> ({
                &&& final(self).usable()
                &&& r matches Ok(w)
                &&& w@ == final(self).wire_pending()
                &&& final(self).buf1_view() == old(self).buf1_view()
                &&& final(self).buf2_view() == old(self).buf2_view()
                &&& final(self).staged_spec() == old(self).staged_spec()
                &&& final(self).committed_spec() == old(self).committed_spec()
                &&& final(self).end_latched() == old(self).end_latched()
                &&& match old(self).body_mode() {
                    SendMode::Chunked { chunk: None, term_rest } => if old(self).buf2_view()
                        .len() > 0 {
                        &&& final(self).body_mode() matches SendMode::Chunked {
                            chunk: Some(c), term_rest: t2 }
                        &&& t2 == term_rest
                        &&& c.hdr_rest@ == hex_bytes(old(self).buf2_view().len()) + crlf()
                        &&& c.body_rest == old(self).buf2_view().len()
                        &&& c.trail_rest == 2
                    } else {
                        final(self).body_mode() == old(self).body_mode()
                    },
                    _ => final(self).body_mode() == old(self).body_mode(),
                }
            }),
    {
        match self.inner.take() {
            None => Err(Error::Unusable),
            Some(mut inner) => {
                let w = inner.body.send_wire(&inner.buf2, inner.end);
                self.inner = Some(inner);
                Ok(w)
            },
        }
    }

    /// Apply the outcome of the write attempt raced against the read probe.
    /// `WouldBlock` restores the codec untouched; a broken pipe with an
    /// empty read buffer asks for one blocking read before giving up; a
    /// completed body yields the `Response` handle over the cleared
    /// buffers.
    pub fn apply_send(&mut self, outcome: WriteOutcome) -> (r: SendStatus)
        requires
            old(self).wf(),
            match outcome {
                WriteOutcome::Accepted(n) => old(self).usable()
                    ==> n <= old(self).wire_pending().len(),
                WriteOutcome::Failed(_) => true,
            },
        ensures
            final(self).wf(),
            !old(self).usable() ==> ({
                &&& r matches SendStatus::Failed(e)
                &&& e == Error::Unusable
                &&& *final(self) == *old(self)
            }),
            old(self).usable() ==> match outcome {
                WriteOutcome::Failed(k) => {
                    &&& *final(self) == *old(self)
                    &&& (k == IoKind::WouldBlock ==> r is SendAgain)
                    &&& (k == IoKind::BrokenPipe ==> if old(self).buf1_view().len() == 0 {
                        r is ReadThenRetry
                    } else {
                        r is SendAgain
                    })
                    &&& (k != IoKind::WouldBlock && k != IoKind::BrokenPipe ==> ({
                        &&& r matches SendStatus::Failed(e)
                        &&& e == Error::Io(k)
                    }))
                },
                WriteOutcome::Accepted(n) => ({
                    let share = old(self).share_of(n as int);
                    &&& (r is Complete || r is Partial)
                    &&& (r is Complete <==> old(self).send_complete_after(n as int))
                    &&& (r matches SendStatus::Complete(resp) ==> {
                        &&& !final(self).usable()
                        &&& resp.wf()
                        &&& resp.buf1_view() == old(self).buf1_view()
                        &&& resp.buf2_view() == Seq::<u8>::empty()
                        &&& resp.buf1_cap() == old(self).buf1_cap()
                        &&& resp.buf2_cap() == old(self).buf2_cap()
                        &&& old(self).staged_spec() == old(self).committed_spec() + share
                    })
                    &&& (r matches SendStatus::Partial(c) ==> {
                        &&& c == share
                        &&& final(self).usable()
                        &&& final(self).committed_spec() == old(self).committed_spec() + share
                        &&& final(self).staged_spec() == old(self).staged_spec()
                        &&& final(self).buf2_view() == old(self).buf2_view().skip(share as int)
                        &&& final(self).buf1_view() == old(self).buf1_view()
                        &&& final(self).buf1_cap() == old(self).buf1_cap()
                        &&& final(self).buf2_cap() == old(self).buf2_cap()
                        &&& final(self).end_latched() == old(self).end_latched()
                        &&& final(self).block_size_spec() == old(self).block_size_spec()
                        &&& match old(self).body_mode() {
                            SendMode::NoBody => final(self).body_mode() == SendMode::NoBody,
                            SendMode::Raw => final(self).body_mode() == SendMode::Raw,
                            SendMode::Known { remaining } => final(self).body_mode()
                                == (SendMode::Known { remaining: (remaining - n) as u64 }),
                            SendMode::Chunked { chunk: None, term_rest } => final(self)
                                .body_mode() == (SendMode::Chunked { chunk: None,
                                    term_rest: (term_rest - n) as usize }),
                            SendMode::Chunked { chunk: Some(cc), term_rest: tr0 } => ({
                                let h = cc.hdr_rest@.len() as int;
                                let htake = if n <= h { n as int } else { h };
                                let a1 = n - htake;
                                let btake = if a1 <= cc.body_rest { a1 } else {
                                    cc.body_rest as int
                                };
                                let a2 = a1 - btake;
                                let trail1 = cc.trail_rest - a2;
                                if trail1 > 0 {
                                    &&& final(self).body_mode() matches SendMode::Chunked {
                                        chunk: Some(c2), term_rest: tr2 }
                                    &&& tr2 == tr0
                                    &&& c2.hdr_rest@ == cc.hdr_rest@.skip(htake)
                                    &&& c2.body_rest == cc.body_rest - btake
                                    &&& c2.trail_rest == trail1
                                } else {
                                    final(self).body_mode() == (SendMode::Chunked {
                                        chunk: None, term_rest: tr0 })
                                }
                            }),
                        }
                    })
                }),
            },
    {
        match self.inner.take() {
            None => SendStatus::Failed(Error::Unusable),
            Some(mut inner) => {
                match outcome {
                    WriteOutcome::Failed(k) => {
                        if matches!(k, IoKind::WouldBlock) {
                            self.inner = Some(inner);
                            SendStatus::SendAgain
                        } else if matches!(k, IoKind::BrokenPipe) {
                            let empty = inner.buf1.len() == 0;
                            self.inner = Some(inner);
                            if empty {
                                SendStatus::ReadThenRetry
                            } else {
                                SendStatus::SendAgain
                            }
                        } else {
                            self.inner = Some(inner);
                            SendStatus::Failed(Error::Io(k))
                        }
                    },
                    WriteOutcome::Accepted(n) => {
                        let (share, complete) = inner.body.advance(&mut inner.buf2, inner.end,
                            n);
                        proof {
                            inner.committed@ = inner.committed@ + share as nat;
                        }
                        if complete {
                            inner.buf2.clear();
                            SendStatus::Complete(Response { buf1: inner.buf1,
                                buf2: inner.buf2, resp: ClientResponse {  } })
                        } else {
                            self.inner = Some(inner);
                            SendStatus::Partial(share)
                        }
                    },
                }
            },
        }
    }
}

impl Response {
    pub closed spec fn wf(self) -> bool {
        &&& self.buf1.wf()
        &&& self.buf1.has_inner()
        &&& self.buf2.wf()
        &&& self.buf2.has_inner()
        &&& self.buf2.readable() == Seq::<u8>::empty()
    }

    pub closed spec fn buf1_view(self) -> Seq<u8> {
        self.buf1.readable()
    }

    pub closed spec fn buf2_view(self) -> Seq<u8> {
        self.buf2.readable()
    }

    pub closed spec fn buf1_cap(self) -> nat {
        self.buf1.capacity_spec()
    }

    pub closed spec fn buf2_cap(self) -> nat {
        self.buf2.capacity_spec()
    }

    /// Bytes read from the transport while waiting for the head. A full
    /// read buffer is a `BufferExceeded`; an end of the stream before the
    /// head completes is a transport error.
    pub fn recv_bytes(&mut self, event: ReadEvent) -> (r: Result<usize, Error>)
        requires
            old(self).wf(),
        ensures
            final(self).wf(),
            final(self).buf2_view() == old(self).buf2_view(),
            final(self).buf1_cap() == old(self).buf1_cap(),
            final(self).buf2_cap() == old(self).buf2_cap(),
            match event {
                ReadEvent::Data(d) => if old(self).buf1_view().len() + d@.len()
                    <= old(self).buf1_cap() {
                    r == Result::<usize, Error>::Ok(d@.len() as usize)
                        && final(self).buf1_view() == old(self).buf1_view() + d@
                } else {
                    r == Result::<usize, Error>::Err(Error::BufferExceeded)
                        && final(self).buf1_view() == old(self).buf1_view()
                },
                ReadEvent::Eof => r == Result::<usize, Error>::Err(Error::Io(
                    IoKind::UnexpectedEof)) && final(self).buf1_view() == old(self).buf1_view(),
            },
    {
        match event {
            ReadEvent::Data(d) => match self.buf1.write_all(d.as_slice()) {
                Ok(()) => Ok(d.len()),
                Err(()) => Err(Error::BufferExceeded),
            },
            ReadEvent::Eof => Err(Error::Io(IoKind::UnexpectedEof)),
        }
    }

    /// Free room in the read buffer: how many bytes the next `recv_bytes`
    /// can accept before the head overflows it.
    pub fn read_room(&self) -> (r: usize)
        requires
            self.wf(),
        ensures
            r == self.buf1_cap() - self.buf1_view().len(),
    {
        self.buf1.free_space()
    }

    /// Try to parse the buffered bytes as the response head. On completion
    /// the head's storage leaves `buf1`, the body-prefix residual moves to
    /// the front of the read buffer, and the head's storage is retained
    /// until the caller releases it.
    pub fn recv_header(self) -> (r: HeaderStep)
        requires
            self.wf(),
        ensures
            response_header_parse(self.buf1_view()) is Partial ==> ({
                &&& r matches HeaderStep::NeedMore(r2)
                &&& r2.wf()
                &&& r2.buf1_view() == self.buf1_view()
                &&& r2.buf2_view() == self.buf2_view()
                &&& r2.buf1_cap() == self.buf1_cap()
                &&& r2.buf2_cap() == self.buf2_cap()
            }),
            response_header_parse(self.buf1_view()) is Invalid ==> ({
                &&& r matches HeaderStep::Failed(e, r2)
                &&& e == Error::Protocol(ParseError::Header)
                &&& r2.wf()
                &&& r2.buf1_view() == self.buf1_view()
                &&& r2.buf2_view() == self.buf2_view()
                &&& r2.buf1_cap() == self.buf1_cap()
                &&& r2.buf2_cap() == self.buf2_cap()
            }),
            match response_header_parse(self.buf1_view()) {
                HeaderParseSpec::Partial => true,
                HeaderParseSpec::Invalid => true,
                HeaderParseSpec::Complete { header_len, version, code, headers } => ({
                if framing_of(headers) is None {
                    &&& r matches HeaderStep::Failed(e, r2)
                    &&& e == Error::Protocol(ParseError::Header)
                    &&& r2.wf()
                    &&& r2.buf1_view() == self.buf1_view()
                    &&& r2.buf2_view() == self.buf2_view()
                    &&& r2.buf1_cap() == self.buf1_cap()
                    &&& r2.buf2_cap() == self.buf2_cap()
                } else if self.buf2_view().len() + (self.buf1_view().len() - header_len)
                    > self.buf2_cap() {
                    &&& r matches HeaderStep::Failed(e, r2)
                    &&& e == Error::BufferExceeded
                    &&& r2.wf()
                    &&& r2.buf1_view() == self.buf1_view()
                    &&& r2.buf2_view() == self.buf2_view()
                    &&& r2.buf1_cap() == self.buf1_cap()
                    &&& r2.buf2_cap() == self.buf2_cap()
                } else {
                    &&& r matches HeaderStep::Complete(owned, kh)
                    &&& owned.wf()
                    &&& owned.code == code
                    &&& owned.version == version
                    &&& lines_view(owned.headers@) == headers
                    &&& owned.buf@ == self.buf1_view()
                    &&& owned.header_len == header_len
                    &&& kh.wf()
                    &&& kh.usable()
                    &&& kh.buf1_view() == self.buf1_view().skip(header_len as int)
                    &&& !kh.closed_spec()
                    &&& kh.persistent_spec() == persistent_of(version, headers)
                    &&& kh.body_mode() == (match framing_of(headers)->Some_0 {
                        BodyFraming::Chunked => RecvMode::ChunkSize,
                        BodyFraming::Length(nn) => RecvMode::Known { remaining: nn },
                        BodyFraming::ToEof => RecvMode::ToEof,
                    })
                }
            }),
            },
    {
        let mut buf1 = self.buf1;
        let mut buf2 = self.buf2;
        let step = crate::parse::parse_response_bytes(buf1.read_buf());
        match step {
            HeaderParse::Partial => HeaderStep::NeedMore(Response { buf1, buf2,
                resp: self.resp }),
            HeaderParse::Invalid => HeaderStep::Failed(Error::Protocol(ParseError::Header),
                Response { buf1, buf2, resp: self.resp }),
            HeaderParse::Complete(h) => {
                let framing = match crate::parse::derive_framing(&h.headers) {
                    Ok(f) => f,
                    Err(e) => {
                        return HeaderStep::Failed(Error::Protocol(e),
                            Response { buf1, buf2, resp: self.resp });
                    },
                };
                let eof_framed = matches!(framing, BodyFraming::ToEof);
                let persistent = crate::parse::derive_persistent(h.version, &h.headers,
                    eof_framed);
                let mode = match framing {
                    BodyFraming::Chunked => RecvMode::ChunkSize,
                    BodyFraming::Length(nn) => RecvMode::Known { remaining: nn },
                    BodyFraming::ToEof => RecvMode::ToEof,
                };
                if buf1.len() - h.header_len > buf2.free_space() {
                    return HeaderStep::Failed(Error::BufferExceeded,
                        Response { buf1, buf2, resp: self.resp });
                }
                let hvec = buf1.take_inner();
                let residual = vstd::slice::slice_subrange(hvec.as_slice(), h.header_len,
                    hvec.len());
                match buf2.write_all(residual) {
                    Ok(()) => {},
                    Err(()) => {
                        proof {
                            assert(false);
                        }
                    },
                }
                buf1.swap_inner(&mut buf2);
                let owned = OwnedResponse { code: h.code, version: h.version,
                    headers: h.headers, buf: hvec, header_len: h.header_len };
                proof {
                    assert(buf1.readable() =~= owned.buf@.skip(owned.header_len as int));
                }
                HeaderStep::Complete(owned, ResponseBodyKeepHeader {
                    inner: ResponseBody {
                        inner: Some(ResponseBodyInner {
                            buf1,
                            closed: false,
                            body: ClientResponseBody { mode, persistent },
                        }),
                    },
                    buf2: Some(buf2),
                })
            },
        }
    }
}

impl ResponseBody {
    pub closed spec fn usable(self) -> bool {
        self.inner is Some
    }

    pub closed spec fn wf(self) -> bool {
        self.inner matches Some(i) ==> i.buf1.wf() && i.buf1.has_inner()
    }

    pub closed spec fn buf1_view(self) -> Seq<u8> {
        self.inner->Some_0.buf1.readable()
    }

    pub closed spec fn buf1_cap(self) -> nat {
        self.inner->Some_0.buf1.capacity_spec()
    }

    pub closed spec fn closed_spec(self) -> bool {
        self.inner->Some_0.closed
    }

    pub closed spec fn persistent_spec(self) -> bool {
        self.inner->Some_0.body.persistent
    }

    pub closed spec fn body_mode(self) -> RecvMode {
        self.inner->Some_0.body.mode
    }

    /// Feed one read of the transport into the body buffer. The end of the
    /// stream latches `closed` and is success; once closed, further calls
    /// change nothing.
    pub fn add_to_buffer(&mut self, event: ReadEvent) -> (r: Result<(), Error>)
        requires
            old(self).wf(),
        ensures
            final(self).wf(),
            !old(self).usable() ==> r == Result::<(), Error>::Err(Error::Unusable)
                && *final(self) == *old(self),
            old(self).usable() ==> final(self).usable()
                && final(self).persistent_spec() == old(self).persistent_spec()
                && final(self).body_mode() == old(self).body_mode()
                && final(self).buf1_cap() == old(self).buf1_cap(),
            old(self).usable() && old(self).closed_spec() ==> r is Ok
                && *final(self) == *old(self),
            old(self).usable() && !old(self).closed_spec() ==> match event {
                ReadEvent::Data(d) => if old(self).buf1_view().len() + d@.len()
                    <= old(self).buf1_cap() {
                    r is Ok && final(self).buf1_view() == old(self).buf1_view() + d@
                        && !final(self).closed_spec()
                } else {
                    r == Result::<(), Error>::Err(Error::BufferExceeded)
                        && final(self).buf1_view() == old(self).buf1_view()
                        && !final(self).closed_spec()
                },
                ReadEvent::Eof => r is Ok && final(self).closed_spec()
                    && final(self).buf1_view() == old(self).buf1_view(),
            },
    {
        match self.inner.take() {
            None => Err(Error::Unusable),
            Some(mut inner) => {
                if inner.closed {
                    self.inner = Some(inner);
                    return Ok(());
                }
                match event {
                    ReadEvent::Data(d) => match inner.buf1.write_all(d.as_slice()) {
                        Ok(()) => {
                            self.inner = Some(inner);
                            Ok(())
                        },
                        Err(()) => {
                            self.inner = Some(inner);
                            Err(Error::BufferExceeded)
                        },
                    },
                    ReadEvent::Eof => {
                        inner.closed = true;
                        self.inner = Some(inner);
                        Ok(())
                    },
                }
            },
        }
    }

    /// Free room in the body buffer: how many bytes the next
    /// `add_to_buffer` can accept. Zero once the handle is consumed.
    pub fn read_room(&self) -> (r: usize)
        requires
            self.wf(),
        ensures
            self.usable() ==> r == self.buf1_cap() - self.buf1_view().len(),
            !self.usable() ==> r == 0,
    {
        match &self.inner {
            None => 0,
            Some(inner) => inner.buf1.free_space(),
        }
    }

    /// Decode buffered body bytes, appending at most `max` of them to
    /// `dest`. Never suspends.
    pub fn try_recv(&mut self, dest: &mut Vec<u8>, max: usize) -> (r: Result<RecvStatus<
        Finished>, Error>)
        requires
            old(self).wf(),
        ensures
            final(self).wf(),
            !old(self).usable() ==> r == Result::<RecvStatus<Finished>, Error>::Err(
                Error::Unusable) && final(dest)@ == old(dest)@,
            old(self).usable() ==> ({
                let d = decode_spec(old(self).body_mode(), old(self).buf1_view(),
                    old(self).closed_spec(), max as nat);
                match d.fail {
                    Some(e) => r == Result::<RecvStatus<Finished>, Error>::Err(
                        Error::Protocol(e)) && !final(self).usable()
                        && final(dest)@ == old(dest)@ + d.out,
                    None => {
                        &&& final(dest)@ == old(dest)@ + d.out
                        &&& if d.mode is Done {
                            &&& r matches Ok(s)
                            &&& s matches RecvStatus::Complete(fin, w)
                            &&& w == d.out.len()
                            &&& fin.persistent_view() == old(self).persistent_spec()
                            &&& !final(self).usable()
                        } else {
                            &&& r matches Ok(s)
                            &&& s matches RecvStatus::Read(w)
                            &&& w == d.out.len()
                            &&& final(self).usable()
                            &&& final(self).buf1_view() == old(self).buf1_view().skip(
                                d.read as int)
                            &&& final(self).body_mode() == d.mode
                            &&& final(self).closed_spec() == old(self).closed_spec()
                            &&& final(self).persistent_spec() == old(self).persistent_spec()
                        }
                    },
                }
            }),
    {
        match self.inner.take() {
            None => Err(Error::Unusable),
            Some(mut inner) => {
                let before = dest.len();
                let (read, mode2, fail) = decode(inner.body.mode, inner.buf1.read_buf(),
                    inner.closed, max, dest);
                proof {
                    lemma_decode_bounds(inner.body.mode, inner.buf1.readable(), inner.closed,
                        max as nat);
                }
                match fail {
                    Some(e) => Err(Error::Protocol(e)),
                    None => {
                        let written = dest.len() - before;
                        inner.buf1.read_commit(read);
                        if matches!(mode2, RecvMode::Done) {
                            let fin = Finished { inner: ClientFinished {
                                persistent: inner.body.persistent } };
                            Ok(RecvStatus::Complete(fin, written))
                        } else {
                            inner.body.mode = mode2;
                            self.inner = Some(inner);
                            Ok(RecvStatus::Read(written))
                        }
                    },
                }
            },
        }
    }
}

impl ResponseBodyKeepHeader {
    pub closed spec fn usable(self) -> bool {
        self.inner.usable() && self.buf2 is Some
    }

    /// Whether the head's storage is still retained here.
    pub closed spec fn header_retained(self) -> bool {
        self.buf2 is Some
    }

    pub closed spec fn body_usable(self) -> bool {
        self.inner.usable()
    }

    pub closed spec fn wf(self) -> bool {
        &&& self.inner.wf()
        &&& self.buf2 matches Some(b) ==> b.wf() && !b.has_inner()
    }

    pub closed spec fn buf1_view(self) -> Seq<u8> {
        self.inner.buf1_view()
    }

    pub closed spec fn buf1_cap(self) -> nat {
        self.inner.buf1_cap()
    }

    pub closed spec fn closed_spec(self) -> bool {
        self.inner.closed_spec()
    }

    pub closed spec fn persistent_spec(self) -> bool {
        self.inner.persistent_spec()
    }

    pub closed spec fn body_mode(self) -> RecvMode {
        self.inner.body_mode()
    }

    /// Release the parsed head: its storage returns to the retained buffer
    /// and the plain body handle remains.
    pub fn discard_header(self, resp: OwnedResponse) -> (r: Result<ResponseBody, Error>)
        requires
            self.wf(),
        ensures
            !self.header_retained() ==> r == Result::<ResponseBody, Error>::Err(
                Error::Unusable),
            self.header_retained() ==> ({
                &&& r matches Ok(b)
                &&& b.wf()
                &&& b.usable() == self.body_usable()
                &&& b.usable() ==> b.buf1_view() == self.buf1_view()
                    && b.body_mode() == self.body_mode()
                    && b.closed_spec() == self.closed_spec()
                    && b.persistent_spec() == self.persistent_spec()
            }),
    {
        match self.buf2 {
            None => Err(Error::Unusable),
            Some(mut b2) => {
                b2.set_inner(resp.into_buf());
                b2.clear();
                Ok(self.inner)
            },
        }
    }

    /// See `ResponseBody::add_to_buffer`.
    pub fn add_to_buffer(&mut self, event: ReadEvent) -> (r: Result<(), Error>)
        requires
            old(self).wf(),
        ensures
            final(self).wf(),
            !old(self).body_usable() ==> r == Result::<(), Error>::Err(Error::Unusable),
            old(self).body_usable() && old(self).closed_spec() ==> r is Ok
                && *final(self) == *old(self),
            old(self).body_usable() && !old(self).closed_spec() ==> match event {
                ReadEvent::Data(d) => if old(self).buf1_view().len() + d@.len()
                    <= old(self).buf1_cap() {
                    r is Ok && final(self).buf1_view() == old(self).buf1_view() + d@
                        && !final(self).closed_spec()
                } else {
                    r == Result::<(), Error>::Err(Error::BufferExceeded)
                        && final(self).buf1_view() == old(self).buf1_view()
                        && !final(self).closed_spec()
                },
                ReadEvent::Eof => r is Ok && final(self).closed_spec()
                    && final(self).buf1_view() == old(self).buf1_view(),
            },
            old(self).body_usable() ==> final(self).body_usable()
                && final(self).persistent_spec() == old(self).persistent_spec()
                && final(self).body_mode() == old(self).body_mode()
                && final(self).buf1_cap() == old(self).buf1_cap()
                && final(self).header_retained() == old(self).header_retained(),
    {
        self.inner.add_to_buffer(event)
    }

    /// See `ResponseBody::read_room`.
    pub fn read_room(&self) -> (r: usize)
        requires
            self.wf(),
        ensures
            self.body_usable() ==> r == self.buf1_cap() - self.buf1_view().len(),
            !self.body_usable() ==> r == 0,
    {
        self.inner.read_room()
    }

    /// See `ResponseBody::try_recv`; completion additionally hands back the
    /// retained head storage.
    pub fn try_recv(&mut self, dest: &mut Vec<u8>, max: usize) -> (r: Result<RecvStatus<
        FinishedKeepHeader>, Error>)
        requires
            old(self).wf(),
        ensures
            final(self).wf(),
            !old(self).usable() ==> r == Result::<RecvStatus<FinishedKeepHeader>, Error>::Err(
                Error::Unusable) && final(dest)@ == old(dest)@,
            old(self).usable() ==> ({
                let d = decode_spec(old(self).body_mode(), old(self).buf1_view(),
                    old(self).closed_spec(), max as nat);
                match d.fail {
                    Some(e) => r == Result::<RecvStatus<FinishedKeepHeader>, Error>::Err(
                        Error::Protocol(e)) && final(dest)@ == old(dest)@ + d.out,
                    None => {
                        &&& final(dest)@ == old(dest)@ + d.out
                        &&& if d.mode is Done {
                            &&& r matches Ok(s)
                            &&& s matches RecvStatus::Complete(fin, w)
                            &&& w == d.out.len()
                            &&& fin.persistent_view() == old(self).persistent_spec()
                            &&& fin.wf()
                            &&& !final(self).usable()
                        } else {
                            &&& r matches Ok(s)
                            &&& s matches RecvStatus::Read(w)
                            &&& w == d.out.len()
                            &&& final(self).usable()
                            &&& final(self).buf1_view() == old(self).buf1_view().skip(
                                d.read as int)
                            &&& final(self).body_mode() == d.mode
                            &&& final(self).closed_spec() == old(self).closed_spec()
                            &&& final(self).persistent_spec() == old(self).persistent_spec()
                        }
                    },
                }
            }),
    {
        if self.buf2.is_none() {
            return Err(Error::Unusable);
        }
        match self.inner.try_recv(dest, max) {
            Ok(RecvStatus::Complete(fin, w)) => {
                let b2 = self.buf2.take().unwrap();
                Ok(RecvStatus::Complete(FinishedKeepHeader { inner: fin, buf2: b2 }, w))
            },
            Ok(RecvStatus::Read(w)) => Ok(RecvStatus::Read(w)),
            Err(e) => Err(e),
        }
    }
}

/// Body bytes are neither duplicated nor lost while the send core runs: at
/// any point, the bytes `prepare` accepted are exactly the bytes committed
/// to the writer plus the bytes still staged in the write buffer.
pub proof fn lemma_body_byte_conservation(rb: RequestBody)
    requires
        rb.wf(),
        rb.usable(),
    ensures
        rb.staged_spec() == rb.committed_spec() + rb.buf2_view().len(),
{
}

/// A live send phase keeps both buffer views within their capacities, and
/// the capacities fit the machine word.
pub proof fn lemma_request_body_bounds(rb: RequestBody)
    requires
        rb.wf(),
        rb.usable(),
    ensures
        rb.buf1_view().len() <= rb.buf1_cap(),
        rb.buf2_view().len() <= rb.buf2_cap(),
        rb.buf1_cap() <= usize::MAX,
        rb.buf2_cap() <= usize::MAX,
{
    crate::buffer::lemma_buffer_bounds(rb.inner->Some_0.buf1);
    crate::buffer::lemma_buffer_bounds(rb.inner->Some_0.buf2);
}

/// The response-head phase keeps both buffer views within their
/// capacities, and the capacities fit the machine word.
pub proof fn lemma_response_bounds(resp: Response)
    requires
        resp.wf(),
    ensures
        resp.buf1_view().len() <= resp.buf1_cap(),
        resp.buf2_view().len() <= resp.buf2_cap(),
        resp.buf1_cap() <= usize::MAX,
        resp.buf2_cap() <= usize::MAX,
{
    crate::buffer::lemma_buffer_bounds(resp.buf1);
    crate::buffer::lemma_buffer_bounds(resp.buf2);
}

impl Finished {
    pub closed spec fn persistent_view(self) -> bool {
        self.inner.persistent
    }

    /// Whether the connection may be reused: the codec's persistence
    /// judgment for this exchange.
    pub fn is_persistent(&self) -> (r: bool)
        ensures
            r == self.persistent_view(),
    {
        self.inner.persistent
    }
}

impl FinishedKeepHeader {
    pub closed spec fn persistent_view(self) -> bool {
        self.inner.persistent_view()
    }

    pub closed spec fn wf(self) -> bool {
        self.buf2.wf() && !self.buf2.has_inner()
    }

    /// Release the parsed head and keep the terminal value.
    pub fn discard_header(self, resp: OwnedResponse) -> (r: Finished)
        requires
            self.wf(),
        ensures
            r.persistent_view() == self.persistent_view(),
    {
        let mut b2 = self.buf2;
        b2.set_inner(resp.into_buf());
        b2.clear();
        self.inner
    }

    pub fn is_persistent(&self) -> (r: bool)
        ensures
            r == self.persistent_view(),
    {
        self.inner.is_persistent()
    }
}

} // verus!
