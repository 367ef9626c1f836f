//! The companion wire protocol: a 16-byte frame header (magic, version,
//! kind, payload length) followed by the payload, with query and response
//! payload encodings.
use vstd::prelude::*;
use vstd::utf8::{decode_utf8, encode_utf8, valid_utf8};
use vstd::string::StrSliceExecFns;
use crate::text::{chars_of, find_first, split_once, trim, trim_bounds};

verus! {

broadcast use vstd::string::group_string_axioms;

pub const VERSION: u16 = 1;

pub const MAX_FRAME: u32 = 4096;

pub const QUERY: u16 = 1;

pub const RESPONSE: u16 = 2;

pub const STATUS_OK: u8 = 0;

pub const STATUS_REJECTED: u8 = 1;

/// Length of a frame header in bytes.
pub const HEADER_LEN: usize = 16;

/// Why a frame or payload was refused.
#[derive(Debug, Clone, Copy, PartialEq, Eq, Structural)]
pub enum ProtocolError {
    /// A payload longer than `MAX_FRAME` bytes, to send or announced.
    FrameTooLarge,
    /// A header that does not start with the magic bytes `MPZK`.
    BadMagic,
    /// A header of another protocol version.
    UnsupportedVersion,
    /// A frame of another kind than the exchange expects.
    UnexpectedKind,
    /// A query payload that is not UTF-8.
    NotUtf8,
    /// A query without a package or without a process name.
    MissingIdentity,
    /// A response payload other than one status byte.
    BadResponse,
}

/// A decoded frame header: the frame's kind and its payload length.
#[derive(Debug, Clone, Copy, PartialEq, Eq, Structural)]
pub struct FrameHeader {
    pub kind: u16,
    pub length: u32,
}

/// The magic bytes `MPZK` that open every frame.
pub open spec fn magic() -> Seq<u8> {
    seq![0x4du8, 0x50u8, 0x5au8, 0x4bu8]
}

/// Big-endian bytes of a `u16`.
pub open spec fn be16(v: u16) -> Seq<u8> {
    seq![(v / 256) as u8, (v % 256) as u8]
}

/// Big-endian bytes of a `u32`.
pub open spec fn be32(v: u32) -> Seq<u8> {
    seq![(v / 0x100_0000) as u8, ((v / 0x1_0000) % 256) as u8, ((v / 256) % 256) as u8, (v % 256) as u8]
}

/// The `u16` of two big-endian bytes.
pub open spec fn from_be16(b0: u8, b1: u8) -> u16 {
    (b0 * 256 + b1) as u16
}

/// The `u32` of four big-endian bytes.
pub open spec fn from_be32(b0: u8, b1: u8, b2: u8, b3: u8) -> u32 {
    (b0 * 0x100_0000 + b1 * 0x1_0000 + b2 * 256 + b3) as u32
}

/// The header of a frame of `kind` with a payload of `length` bytes: magic,
/// version, kind and length (big-endian), then four zero bytes.
pub open spec fn frame_header(kind: u16, length: u32) -> Seq<u8> {
    magic() + be16(VERSION) + be16(kind) + be32(length) + seq![0u8, 0u8, 0u8, 0u8]
}

/// What a received header announces, or why it is refused.
pub open spec fn header_verdict(h: Seq<u8>) -> Result<FrameHeader, ProtocolError> {
    if h.take(4) != magic() {
        Err(ProtocolError::BadMagic)
    } else if from_be16(h[4], h[5]) != VERSION {
        Err(ProtocolError::UnsupportedVersion)
    } else if from_be32(h[8], h[9], h[10], h[11]) > MAX_FRAME {
        Err(ProtocolError::FrameTooLarge)
    } else {
        Ok(FrameHeader { kind: from_be16(h[6], h[7]), length: from_be32(h[8], h[9], h[10], h[11]) })
    }
}

/// The query payload: the package's UTF-8 bytes, a newline, the process's.
pub open spec fn query_bytes(package: Seq<char>, process: Seq<char>) -> Seq<u8> {
    encode_utf8(package) + seq![10u8] + encode_utf8(process)
}

/// The identity a query payload carries: its text split at the first
/// newline, both parts trimmed and non-empty; `None` when it is not UTF-8 or
/// a part is missing.
pub open spec fn query_identity(bytes: Seq<u8>) -> Option<(Seq<char>, Seq<char>)> {
    if !valid_utf8(bytes) {
        None
    } else {
        let text = decode_utf8(bytes);
        let (package, process) = match split_once(text, '\n') {
            Some((a, b)) => (trim(a), trim(b)),
            None => (trim(text), Seq::<char>::empty()),
        };
        if package.len() == 0 || process.len() == 0 {
            None
        } else {
            Some((package, process))
        }
    }
}

/// The response payload for a verdict.
pub open spec fn response_bytes(should_hook: bool) -> Seq<u8> {
    seq![if should_hook { STATUS_OK } else { STATUS_REJECTED }]
}

/// The verdict a response payload carries.
pub open spec fn response_verdict(bytes: Seq<u8>) -> Option<bool> {
    if bytes == seq![STATUS_OK] {
        Some(true)
    } else if bytes == seq![STATUS_REJECTED] {
        Some(false)
    } else {
        None
    }
}

/// `std::str::from_utf8`: the text that `bytes` encode, or `None` when they
/// are not valid UTF-8. Claimed: `Some` exactly for the byte sequences that
/// vstd's `valid_utf8` accepts, holding the characters that `decode_utf8`
/// gives.
#[verifier::external_body]
fn utf8_text(bytes: &[u8]) -> (r: Option<&str>)
    ensures
        r is Some <==> valid_utf8(bytes@),
        r matches Some(s) ==> s@ == decode_utf8(bytes@),
{
    std::str::from_utf8(bytes).ok()
}

/// Big-endian bytes of `v`.
fn push_be16(out: &mut Vec<u8>, v: u16)
    ensures
        final(out)@ == old(out)@ + be16(v),
{
    out.push((v / 256) as u8);
    out.push((v % 256) as u8);
    assert(final(out)@ =~= old(out)@ + be16(v));
}

/// The bytes of a frame of `kind` carrying `payload`: the header, then the
/// payload. A payload over `MAX_FRAME` bytes is refused.
pub fn encode_frame(kind: u16, payload: &[u8]) -> (r: Result<Vec<u8>, ProtocolError>)
    ensures
        payload@.len() > MAX_FRAME ==> r == Err::<Vec<u8>, ProtocolError>(
            ProtocolError::FrameTooLarge,
        ),
        payload@.len() <= MAX_FRAME ==> (r matches Ok(bytes) && bytes@ == frame_header(
            kind,
            payload@.len() as u32,
        ) + payload@),
{
    if payload.len() > MAX_FRAME as usize {
        return Err(ProtocolError::FrameTooLarge);
    }
    let length = payload.len() as u32;
    let mut out: Vec<u8> = Vec::new();
    out.push(0x4d);
    out.push(0x50);
    out.push(0x5a);
    out.push(0x4b);
    push_be16(&mut out, VERSION);
    push_be16(&mut out, kind);
    out.push((length / 0x100_0000) as u8);
    out.push(((length / 0x1_0000) % 256) as u8);
    out.push(((length / 256) % 256) as u8);
    out.push((length % 256) as u8);
    out.push(0);
    out.push(0);
    out.push(0);
    out.push(0);
    assert(out@ =~= frame_header(kind, length));
    let mut i: usize = 0;
    while i < payload.len()
        invariant
            i <= payload@.len(),
            out@ == frame_header(kind, length) + payload@.take(i as int),
        decreases payload@.len() - i,
    {
        out.push(payload[i]);
        assert(payload@.take(i + 1) =~= payload@.take(i as int).push(payload@[i as int]));
        i = i + 1;
    }
    assert(payload@.take(payload@.len() as int) =~= payload@);
    Ok(out)
}

/// What a received frame header announces, or why it is refused: wrong
/// magic, another version, or a payload over `MAX_FRAME` bytes.
pub fn decode_frame_header(header: &[u8; 16]) -> (r: Result<FrameHeader, ProtocolError>)
    ensures
        r == header_verdict(header@),
{
    if !(header[0] == 0x4d && header[1] == 0x50 && header[2] == 0x5a && header[3] == 0x4b) {
        proof {
            if header@.take(4) == magic() {
                assert(header@.take(4)[0] == header@[0]);
                assert(header@.take(4)[1] == header@[1]);
                assert(header@.take(4)[2] == header@[2]);
                assert(header@.take(4)[3] == header@[3]);
            }
        }
        return Err(ProtocolError::BadMagic);
    }
    assert(header@.take(4) =~= magic());
    let version = (header[4] as u16) * 256 + header[5] as u16;
    if version != VERSION {
        return Err(ProtocolError::UnsupportedVersion);
    }
    let length = (header[8] as u32) * 0x100_0000 + (header[9] as u32) * 0x1_0000 + (header[10] as u32)
        * 256 + header[11] as u32;
    if length > MAX_FRAME {
        return Err(ProtocolError::FrameTooLarge);
    }
    let kind = (header[6] as u16) * 256 + header[7] as u16;
    Ok(FrameHeader { kind, length })
}

/// The query payload for a package and process: the package, a newline,
/// the process, as UTF-8.
pub fn encode_query(package: &str, process: &str) -> (r: Vec<u8>)
    ensures
        r@ == query_bytes(package@, process@),
{
    let p = package.as_bytes();
    let q = process.as_bytes();
    let mut out: Vec<u8> = Vec::new();
    let mut i: usize = 0;
    while i < p.len()
        invariant
            i <= p@.len(),
            out@ == p@.take(i as int),
        decreases p@.len() - i,
    {
        out.push(p[i]);
        assert(p@.take(i + 1) =~= p@.take(i as int).push(p@[i as int]));
        i = i + 1;
    }
    assert(p@.take(p@.len() as int) =~= p@);
    out.push(10);
    let ghost head = out@;
    let mut j: usize = 0;
    while j < q.len()
        invariant
            j <= q@.len(),
            out@ == head + q@.take(j as int),
        decreases q@.len() - j,
    {
        out.push(q[j]);
        assert(q@.take(j + 1) =~= q@.take(j as int).push(q@[j as int]));
        j = j + 1;
    }
    assert(q@.take(q@.len() as int) =~= q@);
    assert(out@ =~= query_bytes(package@, process@));
    out
}

/// The package and process a query payload names: the text before the first
/// newline and the text after it, both trimmed. Refused when the payload is
/// not UTF-8, or when either part is empty.
pub fn decode_query(payload: &[u8]) -> (r: Result<(&str, &str), ProtocolError>)
    ensures
        match r {
            Ok((package, process)) => query_identity(payload@) == Some((package@, process@)),
            Err(e) => query_identity(payload@) is None && e == (if valid_utf8(payload@) {
                ProtocolError::MissingIdentity
            } else {
                ProtocolError::NotUtf8
            }),
        },
{
    let text = match utf8_text(payload) {
        Some(t) => t,
        None => return Err(ProtocolError::NotUtf8),
    };
    let cs = chars_of(text);
    let n = cs.len();
    assert(cs@.subrange(0, n as int) =~= cs@);
    let (pa, pb, qa, qb) = match find_first(&cs, 0, n, '\n') {
        Some(i) => {
            assert(cs@.take(i as int) =~= cs@.subrange(0, i as int));
            assert(cs@.skip(i + 1) =~= cs@.subrange(i + 1, n as int));
            let (pa, pb) = trim_bounds(&cs, 0, i);
            let (qa, qb) = trim_bounds(&cs, i + 1, n);
            (pa, pb, qa, qb)
        },
        None => {
            let (pa, pb) = trim_bounds(&cs, 0, n);
            (pa, pb, n, n)
        },
    };
    assert(cs@.subrange(n as int, n as int) =~= Seq::<char>::empty());
    if pa == pb || qa == qb {
        return Err(ProtocolError::MissingIdentity);
    }
    let package = text.substring_char(pa, pb);
    let process = text.substring_char(qa, qb);
    Ok((package, process))
}

/// A single status byte: `STATUS_OK` to hook the process, `STATUS_REJECTED` to leave it.
pub fn encode_response(should_hook: bool) -> (r: Vec<u8>)
    ensures
        r@ == response_bytes(should_hook),
{
    let mut out: Vec<u8> = Vec::new();
    out.push(if should_hook {
        STATUS_OK
    } else {
        STATUS_REJECTED
    });
    assert(out@ =~= response_bytes(should_hook));
    out
}

/// The verdict a response payload carries; anything but a single status byte is refused.
pub fn decode_response(payload: &[u8]) -> (r: Result<bool, ProtocolError>)
    ensures
        match r {
            Ok(v) => response_verdict(payload@) == Some(v),
            Err(e) => response_verdict(payload@) is None && e == ProtocolError::BadResponse,
        },
{
    if payload.len() == 1 && payload[0] == STATUS_OK {
        assert(payload@ =~= seq![STATUS_OK]);
        Ok(true)
    } else if payload.len() == 1 && payload[0] == STATUS_REJECTED {
        assert(payload@ =~= seq![STATUS_REJECTED]);
        Ok(false)
    } else {
        proof {
            if payload@ == seq![STATUS_OK] {
                assert(payload@.len() == 1 && payload@[0] == STATUS_OK);
            }
            if payload@ == seq![STATUS_REJECTED] {
                assert(payload@.len() == 1 && payload@[0] == STATUS_REJECTED);
            }
        }
        Err(ProtocolError::BadResponse)
    }
}

/// The identity a companion request carries: a `QUERY` frame's decoded
/// payload; any other kind of frame is refused.
pub fn check_request(kind: u16, payload: &[u8]) -> (r: Result<(&str, &str), ProtocolError>)
    ensures
        kind != QUERY ==> r == Err::<(&str, &str), ProtocolError>(ProtocolError::UnexpectedKind),
        kind == QUERY ==> match r {
            Ok((package, process)) => query_identity(payload@) == Some((package@, process@)),
            Err(e) => query_identity(payload@) is None && e == (if valid_utf8(payload@) {
                ProtocolError::MissingIdentity
            } else {
                ProtocolError::NotUtf8
            }),
        },
{
    if kind != QUERY {
        return Err(ProtocolError::UnexpectedKind);
    }
    decode_query(payload)
}

/// The verdict a companion reply carries: a `RESPONSE` frame's decoded
/// payload; any other kind of frame is refused.
pub fn check_response(kind: u16, payload: &[u8]) -> (r: Result<bool, ProtocolError>)
    ensures
        kind != RESPONSE ==> r == Err::<bool, ProtocolError>(ProtocolError::UnexpectedKind),
        kind == RESPONSE ==> match r {
            Ok(v) => response_verdict(payload@) == Some(v),
            Err(e) => response_verdict(payload@) is None && e == ProtocolError::BadResponse,
        },
{
    if kind != RESPONSE {
        return Err(ProtocolError::UnexpectedKind);
    }
    decode_response(payload)
}

proof fn lemma_be16(v: u16)
    ensures
        from_be16(be16(v)[0], be16(v)[1]) == v,
{
    assert(v / 256 < 256 && (v / 256) * 256 + v % 256 == v) by (bit_vector);
}

proof fn lemma_be32(v: u32)
    ensures
        from_be32(be32(v)[0], be32(v)[1], be32(v)[2], be32(v)[3]) == v,
{
    assert(v / 0x100_0000 < 256 && (v / 0x100_0000) * 0x100_0000 + ((v / 0x1_0000) % 256) * 0x1_0000
        + ((v / 256) % 256) * 256 + v % 256 == v) by (bit_vector);
}

/// A header written for a frame reads back as that frame's kind and length.
pub proof fn lemma_frame_header_roundtrip(kind: u16, length: u32)
    requires
        length <= MAX_FRAME,
    ensures
        header_verdict(frame_header(kind, length)) == Ok::<FrameHeader, ProtocolError>(
            FrameHeader { kind, length },
        ),
{
    let h = frame_header(kind, length);
    lemma_be16(VERSION);
    lemma_be16(kind);
    lemma_be32(length);
    assert(h.take(4) =~= magic());
    assert(h[4] == be16(VERSION)[0] && h[5] == be16(VERSION)[1]);
    assert(h[6] == be16(kind)[0] && h[7] == be16(kind)[1]);
    assert(h[8] == be32(length)[0] && h[9] == be32(length)[1]);
    assert(h[10] == be32(length)[2] && h[11] == be32(length)[3]);
}

/// A response payload reads back as the verdict it was written for.
pub proof fn lemma_response_roundtrip(should_hook: bool)
    ensures
        response_verdict(response_bytes(should_hook)) == Some(should_hook),
{
    assert(seq![STATUS_OK] != seq![STATUS_REJECTED]) by {
        assert(seq![STATUS_OK][0] != seq![STATUS_REJECTED][0]);
    }
}

proof fn lemma_encode_utf8_concat(a: Seq<char>, b: Seq<char>)
    ensures
        encode_utf8(a + b) == encode_utf8(a) + encode_utf8(b),
    decreases a.len(),
{
    if a.len() == 0 {
        assert(a + b =~= b);
        assert(encode_utf8(a) + encode_utf8(b) =~= encode_utf8(b));
    } else {
        assert((a + b).drop_first() =~= a.drop_first() + b);
        assert((a + b)[0] == a[0]);
        lemma_encode_utf8_concat(a.drop_first(), b);
        assert(encode_utf8(a + b) =~= encode_scalar_of(a[0]) + encode_utf8(a.drop_first()) + encode_utf8(b));
    }
}

spec fn encode_scalar_of(c: char) -> Seq<u8> {
    vstd::utf8::encode_scalar(c as u32)
}

proof fn lemma_encode_newline()
    ensures
        encode_utf8(seq!['\n']) == seq![10u8],
{
    let s = seq!['\n'];
    assert(s.drop_first() =~= Seq::<char>::empty());
    assert(('\n' as u32) == 10u32);
    assert((10u32 & 0x7Fu32) as u8 == 10u8) by (bit_vector);
    assert(encode_utf8(Seq::<char>::empty()) =~= Seq::<u8>::empty());
    assert(s[0] == '\n');
    assert(vstd::utf8::encode_scalar(s[0] as u32) =~= seq![10u8]);
    assert(encode_utf8(s) == vstd::utf8::encode_scalar(s[0] as u32) + encode_utf8(s.drop_first()));
    assert(encode_utf8(s) =~= seq![10u8]);
}

/// A query written for a package and a process reads back as them, when both
/// are non-empty, already trimmed, and the package holds no newline.
pub proof fn lemma_query_roundtrip(package: Seq<char>, process: Seq<char>)
    requires
        package.len() > 0,
        process.len() > 0,
        trim(package) == package,
        trim(process) == process,
        !package.contains('\n'),
    ensures
        query_identity(query_bytes(package, process)) == Some((package, process)),
{
    let t = package + seq!['\n'] + process;
    lemma_encode_utf8_concat(package, seq!['\n']);
    lemma_encode_utf8_concat(package + seq!['\n'], process);
    lemma_encode_newline();
    assert(query_bytes(package, process) == encode_utf8(t));
    vstd::utf8::encode_utf8_valid_utf8(t);
    vstd::utf8::encode_utf8_decode_utf8(t);
    let n = package.len() as int;
    assert(t[n] == '\n');
    assert(t.contains('\n'));
    t.index_of_first_ensures('\n');
    let i = t.index_of_first('\n').unwrap();
    assert(i == n) by {
        if i < n {
            assert(t[i] == package[i]);
        }
    }
    assert(t.take(n) =~= package);
    assert(t.skip(n + 1) =~= process);
}

} // verus!
