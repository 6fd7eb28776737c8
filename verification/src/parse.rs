//! Response-side parsing: trusted wrappers over httparse for the response
//! head and chunk-size lines, and verified analysis of the parsed header
//! fields (body framing and connection persistence).

use vstd::prelude::*;
use crate::error::ParseError;

verus! {

/// Result of parsing a response head, at the specification level.
pub enum HeaderParseSpec {
    Complete { header_len: nat, version: u8, code: u16, headers: Seq<(Seq<u8>, Seq<u8>)> },
    Partial,
    Invalid,
}

/// What httparse's response parser returns on the given bytes: a function of
/// the input alone.
pub uninterp spec fn response_header_parse(input: Seq<u8>) -> HeaderParseSpec;

/// Result of parsing a chunk-size line, at the specification level.
pub enum ChunkParseSpec {
    Complete { consumed: nat, size: u64 },
    Partial,
    Invalid,
}

/// What httparse's chunk-size parser returns on the given bytes: a function
/// of the input alone.
pub uninterp spec fn chunk_size_parse(input: Seq<u8>) -> ChunkParseSpec;

/// A completely parsed response head.
pub struct ParsedHeader {
    pub header_len: usize,
    pub version: u8,
    pub code: u16,
    pub headers: Vec<(Vec<u8>, Vec<u8>)>,
}

pub enum HeaderParse {
    Complete(ParsedHeader),
    Partial,
    Invalid,
}

/// The view of parsed header fields as pairs of byte sequences.
pub open spec fn lines_view(hs: Seq<(Vec<u8>, Vec<u8>)>) -> Seq<(Seq<u8>, Seq<u8>)> {
    hs.map_values(|p: (Vec<u8>, Vec<u8>)| (p.0@, p.1@))
}

/// Relies on httparse::Response::parse (with a fixed scratch of 64 header
/// slots): deterministic in the input bytes; on completion the returned
/// index is within the input and version and code are present.
#[verifier::external_body]
pub(crate) fn parse_response_bytes(input: &[u8]) -> (r: HeaderParse)
    ensures
        r matches HeaderParse::Complete(h) ==> {
            &&& response_header_parse(input@) == (HeaderParseSpec::Complete {
                header_len: h.header_len as nat,
                version: h.version,
                code: h.code,
                headers: lines_view(h.headers@),
            })
            &&& h.header_len <= input@.len()
        },
        r is Partial <==> response_header_parse(input@) is Partial,
        r is Invalid <==> response_header_parse(input@) is Invalid,
{
    let mut scratch = [httparse::EMPTY_HEADER; 64];
    let mut resp = httparse::Response::new(&mut scratch);
    match resp.parse(input) {
        Ok(httparse::Status::Complete(n)) => HeaderParse::Complete(ParsedHeader {
            header_len: n,
            version: resp.version.unwrap_or(0),
            code: resp.code.unwrap_or(0),
            headers: resp.headers.iter().map(|h| (h.name.as_bytes().to_vec(),
                h.value.to_vec())).collect(),
        }),
        Ok(httparse::Status::Partial) => HeaderParse::Partial,
        Err(_) => HeaderParse::Invalid,
    }
}

pub enum ChunkParse {
    Complete(usize, u64),
    Partial,
    Invalid,
}

/// Relies on httparse::parse_chunk_size: deterministic in the input bytes;
/// on completion the consumed count is at least one byte of the size line
/// and lies within the input.
#[verifier::external_body]
pub(crate) fn parse_chunk_line(input: &[u8]) -> (r: ChunkParse)
    ensures
        r matches ChunkParse::Complete(c, s) ==> {
            &&& chunk_size_parse(input@) == (ChunkParseSpec::Complete {
                consumed: c as nat, size: s })
            &&& 1 <= c <= input@.len()
        },
        r is Partial <==> chunk_size_parse(input@) is Partial,
        r is Invalid <==> chunk_size_parse(input@) is Invalid,
{
    match httparse::parse_chunk_size(input) {
        Ok(httparse::Status::Complete((c, s))) => ChunkParse::Complete(c, s),
        Ok(httparse::Status::Partial) => ChunkParse::Partial,
        Err(_) => ChunkParse::Invalid,
    }
}

/// ASCII lowercase of one byte.
pub open spec fn lower(b: u8) -> u8 {
    if 65 <= b <= 90 {
        (b + 32) as u8
    } else {
        b
    }
}

/// Byte sequences equal up to ASCII case.
pub open spec fn eq_ic(a: Seq<u8>, b: Seq<u8>) -> bool {
    a.len() == b.len() && forall|i: int| 0 <= i < a.len() ==> lower(#[trigger] a[i]) == lower(b[i])
}

fn eq_ignore_case(a: &[u8], b: &[u8]) -> (r: bool)
    ensures
        r == eq_ic(a@, b@),
{
    if a.len() != b.len() {
        return false;
    }
    let mut i: usize = 0;
    while i < a.len()
        invariant
            i <= a@.len(),
            a@.len() == b@.len(),
            forall|j: int| 0 <= j < i ==> lower(a@[j]) == lower(b@[j]),
        decreases a@.len() - i,
    {
        let x = a[i];
        let y = b[i];
        let xl = if 65 <= x && x <= 90 { x + 32 } else { x };
        let yl = if 65 <= y && y <= 90 { y + 32 } else { y };
        if xl != yl {
            return false;
        }
        i = i + 1;
    }
    true
}

/// The value of the first header whose name matches `name` up to ASCII case.
pub open spec fn find_ic(hs: Seq<(Seq<u8>, Seq<u8>)>, name: Seq<u8>) -> Option<Seq<u8>>
    decreases hs.len(),
{
    if hs.len() == 0 {
        None
    } else if eq_ic(hs[0].0, name) {
        Some(hs[0].1)
    } else {
        find_ic(hs.skip(1), name)
    }
}

fn find_header(hs: &[(Vec<u8>, Vec<u8>)], name: &[u8]) -> (r: Option<Vec<u8>>)
    ensures
        r is Some <==> find_ic(lines_view(hs@), name@) is Some,
        r matches Some(v) ==> find_ic(lines_view(hs@), name@) == Some(v@),
    decreases hs@.len(),
{
    if hs.len() == 0 {
        None
    } else if eq_ignore_case(hs[0].0.as_slice(), name) {
        Some(vstd::slice::slice_to_vec(hs[0].1.as_slice()))
    } else {
        let rest = vstd::slice::slice_subrange(hs, 1, hs.len());
        let r = find_header(rest, name);
        proof {
            assert(lines_view(rest@) =~= lines_view(hs@).skip(1));
        }
        r
    }
}

/// Whether all bytes are ASCII digits.
pub open spec fn all_digits(s: Seq<u8>) -> bool {
    forall|i: int| 0 <= i < s.len() ==> 48 <= #[trigger] s[i] <= 57
}

/// Value of a decimal numeral, most significant digit first.
pub open spec fn dec_val(s: Seq<u8>) -> nat
    decreases s.len(),
{
    if s.len() == 0 {
        0
    } else {
        (dec_val(s.take(s.len() - 1)) * 10 + (s[s.len() - 1] - 48)) as nat
    }
}

/// Parse a decimal numeral. Succeeds exactly on nonempty all-digit inputs
/// whose value fits in a u64.
fn parse_dec(s: &[u8]) -> (r: Option<u64>)
    ensures
        r is Some <==> s@.len() > 0 && all_digits(s@) && dec_val(s@) <= u64::MAX,
        r matches Some(v) ==> v == dec_val(s@),
{
    if s.len() == 0 {
        return None;
    }
    let mut acc: u64 = 0;
    let mut i: usize = 0;
    while i < s.len()
        invariant
            i <= s@.len(),
            all_digits(s@.take(i as int)),
            acc == dec_val(s@.take(i as int)),
            dec_val(s@.take(i as int)) <= u64::MAX,
        decreases s@.len() - i,
    {
        let b = s[i];
        if b < 48 || b > 57 {
            proof {
                assert(s@.take(i + 1)[i as int] == b);
            }
            return None;
        }
        let d = (b - 48) as u64;
        if acc > (u64::MAX - d) / 10 {
            proof {
                let t = s@.take(i + 1);
                assert(t.take(t.len() - 1) =~= s@.take(i as int));
                assert(t[t.len() - 1] == b);
                assert(dec_val(t) == acc * 10 + d);
                assert(acc * 10 + d > u64::MAX) by (nonlinear_arith)
                    requires acc > (u64::MAX - d) / 10 && d <= 9 && acc <= u64::MAX;
                if all_digits(s@) {
                    lemma_dec_val_monotone(s@, i + 1);
                }
            }
            return None;
        }
        proof {
            assert(acc * 10 + d <= u64::MAX) by (nonlinear_arith)
                requires acc <= (u64::MAX - d) / 10 && d <= 9;
        }
        acc = acc * 10 + d;
        proof {
            let t = s@.take(i + 1);
            assert(t.take(t.len() - 1) =~= s@.take(i as int));
            assert(t[t.len() - 1] == b);
        }
        i = i + 1;
    }
    proof {
        assert(s@.take(s@.len() as int) =~= s@);
    }
    Some(acc)
}

/// A numeral's value only grows as digits are appended.
proof fn lemma_dec_val_monotone(s: Seq<u8>, i: int)
    requires
        0 <= i <= s.len(),
        all_digits(s),
    ensures
        dec_val(s.take(i)) <= dec_val(s),
    decreases s.len() - i,
{
    if i < s.len() {
        lemma_dec_val_monotone(s, i + 1);
        let t = s.take(i + 1);
        assert(t.take(t.len() - 1) =~= s.take(i));
        assert(48 <= t[t.len() - 1] <= 57);
        let x = dec_val(s.take(i)) as int;
        let dd = t[t.len() - 1] - 48;
        assert(x * 10 + dd >= x) by (nonlinear_arith)
            requires x >= 0 && dd >= 0;
        assert(dec_val(t) == (x * 10 + dd) as nat);
    } else {
        assert(s.take(i) =~= s);
    }
}

/// `Transfer-Encoding`
pub open spec fn te_name() -> Seq<u8> {
    seq![116u8, 114u8, 97u8, 110u8, 115u8, 102u8, 101u8, 114u8, 45u8, 101u8, 110u8,
        99u8, 111u8, 100u8, 105u8, 110u8, 103u8]
}

/// `chunked`
pub open spec fn chunked_tok() -> Seq<u8> {
    seq![99u8, 104u8, 117u8, 110u8, 107u8, 101u8, 100u8]
}

/// `Content-Length`
pub open spec fn cl_name() -> Seq<u8> {
    seq![99u8, 111u8, 110u8, 116u8, 101u8, 110u8, 116u8, 45u8, 108u8, 101u8, 110u8,
        103u8, 116u8, 104u8]
}

/// `Connection`
pub open spec fn conn_name() -> Seq<u8> {
    seq![99u8, 111u8, 110u8, 110u8, 101u8, 99u8, 116u8, 105u8, 111u8, 110u8]
}

/// `close`
pub open spec fn close_tok() -> Seq<u8> {
    seq![99u8, 108u8, 111u8, 115u8, 101u8]
}

/// `keep-alive`
pub open spec fn keep_alive_tok() -> Seq<u8> {
    seq![107u8, 101u8, 101u8, 112u8, 45u8, 97u8, 108u8, 105u8, 118u8, 101u8]
}

/// How the response body is delimited, derived from the header fields:
/// chunked transfer-coding wins, then a content length, else read-to-EOF.
pub enum BodyFraming {
    Chunked,
    Length(u64),
    ToEof,
}

/// Specification of the framing judgment. `None` stands for a malformed or
/// oversized Content-Length.
pub open spec fn framing_of(hs: Seq<(Seq<u8>, Seq<u8>)>) -> Option<BodyFraming> {
    if find_ic(hs, te_name()) matches Some(v) && eq_ic(v, chunked_tok()) {
        Some(BodyFraming::Chunked)
    } else {
        match find_ic(hs, cl_name()) {
            Some(v) => if v.len() > 0 && all_digits(v) && dec_val(v) <= u64::MAX {
                Some(BodyFraming::Length(dec_val(v) as u64))
            } else {
                None
            },
            None => Some(BodyFraming::ToEof),
        }
    }
}

/// Specification of the persistence judgment: HTTP/1.1 unless
/// `Connection: close`; HTTP/1.0 only with `Connection: keep-alive`; never
/// persistent when the body is EOF-delimited.
pub open spec fn persistent_of(version: u8, hs: Seq<(Seq<u8>, Seq<u8>)>) -> bool {
    let base = if version == 1 {
        !(find_ic(hs, conn_name()) matches Some(v) && eq_ic(v, close_tok()))
    } else {
        find_ic(hs, conn_name()) matches Some(v) && eq_ic(v, keep_alive_tok())
    };
    base && !(framing_of(hs) matches Some(BodyFraming::ToEof))
}

fn te_name_bytes() -> (r: Vec<u8>)
    ensures
        r@ == te_name(),
{
    let mut v: Vec<u8> = Vec::new();
    v.push(116);
    v.push(114);
    v.push(97);
    v.push(110);
    v.push(115);
    v.push(102);
    v.push(101);
    v.push(114);
    v.push(45);
    v.push(101);
    v.push(110);
    v.push(99);
    v.push(111);
    v.push(100);
    v.push(105);
    v.push(110);
    v.push(103);
    proof {
        assert(v@ =~= te_name());
    }
    v
}

fn cl_name_bytes() -> (r: Vec<u8>)
    ensures
        r@ == cl_name(),
{
    let mut v: Vec<u8> = Vec::new();
    v.push(99);
    v.push(111);
    v.push(110);
    v.push(116);
    v.push(101);
    v.push(110);
    v.push(116);
    v.push(45);
    v.push(108);
    v.push(101);
    v.push(110);
    v.push(103);
    v.push(116);
    v.push(104);
    proof {
        assert(v@ =~= cl_name());
    }
    v
}

fn conn_name_bytes() -> (r: Vec<u8>)
    ensures
        r@ == conn_name(),
{
    let mut v: Vec<u8> = Vec::new();
    v.push(99);
    v.push(111);
    v.push(110);
    v.push(110);
    v.push(101);
    v.push(99);
    v.push(116);
    v.push(105);
    v.push(111);
    v.push(110);
    proof {
        assert(v@ =~= conn_name());
    }
    v
}

fn chunked_tok_bytes() -> (r: Vec<u8>)
    ensures
        r@ == chunked_tok(),
{
    let mut v: Vec<u8> = Vec::new();
    v.push(99);
    v.push(104);
    v.push(117);
    v.push(110);
    v.push(107);
    v.push(101);
    v.push(100);
    proof {
        assert(v@ =~= chunked_tok());
    }
    v
}

fn close_tok_bytes() -> (r: Vec<u8>)
    ensures
        r@ == close_tok(),
{
    let mut v: Vec<u8> = Vec::new();
    v.push(99);
    v.push(108);
    v.push(111);
    v.push(115);
    v.push(101);
    proof {
        assert(v@ =~= close_tok());
    }
    v
}

fn keep_alive_tok_bytes() -> (r: Vec<u8>)
    ensures
        r@ == keep_alive_tok(),
{
    let mut v: Vec<u8> = Vec::new();
    v.push(107);
    v.push(101);
    v.push(101);
    v.push(112);
    v.push(45);
    v.push(97);
    v.push(108);
    v.push(105);
    v.push(118);
    v.push(101);
    proof {
        assert(v@ =~= keep_alive_tok());
    }
    v
}

/// Derive the body framing from parsed header fields.
pub(crate) fn derive_framing(hs: &Vec<(Vec<u8>, Vec<u8>)>) -> (r: Result<BodyFraming, ParseError>)
    ensures
        r is Ok <==> framing_of(lines_view(hs@)) is Some,
        r matches Ok(f) ==> framing_of(lines_view(hs@)) == Some(f),
        r is Err ==> r == Result::<BodyFraming, ParseError>::Err(ParseError::Header),
{
    let te = te_name_bytes();
    let chunked = chunked_tok_bytes();
    match find_header(hs.as_slice(), te.as_slice()) {
        Some(v) => {
            if eq_ignore_case(v.as_slice(), chunked.as_slice()) {
                return Ok(BodyFraming::Chunked);
            }
            let cl = cl_name_bytes();
            match find_header(hs.as_slice(), cl.as_slice()) {
                Some(v2) => match parse_dec(v2.as_slice()) {
                    Some(n) => Ok(BodyFraming::Length(n)),
                    None => Err(ParseError::Header),
                },
                None => Ok(BodyFraming::ToEof),
            }
        },
        None => {
            let cl = cl_name_bytes();
            match find_header(hs.as_slice(), cl.as_slice()) {
                Some(v2) => match parse_dec(v2.as_slice()) {
                    Some(n) => Ok(BodyFraming::Length(n)),
                    None => Err(ParseError::Header),
                },
                None => Ok(BodyFraming::ToEof),
            }
        },
    }
}

/// Derive the persistence judgment from the version and header fields.
pub(crate) fn derive_persistent(version: u8, hs: &Vec<(Vec<u8>, Vec<u8>)>, eof_framed: bool) -> (r:
    bool)
    requires
        eof_framed == (framing_of(lines_view(hs@)) matches Some(BodyFraming::ToEof)),
    ensures
        r == persistent_of(version, lines_view(hs@)),
{
    if eof_framed {
        return false;
    }
    let conn = conn_name_bytes();
    match find_header(hs.as_slice(), conn.as_slice()) {
        Some(v) => {
            if version == 1 {
                let close = close_tok_bytes();
                !eq_ignore_case(v.as_slice(), close.as_slice())
            } else {
                let ka = keep_alive_tok_bytes();
                eq_ignore_case(v.as_slice(), ka.as_slice())
            }
        },
        None => version == 1,
    }
}

} // verus!
