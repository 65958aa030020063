//! Frame codec: a nine-byte header (version, flags, stream id, opcode, body
//! length, all big-endian) followed by the body bytes.
use vstd::prelude::*;

verus! {

/// Length of the fixed frame header in bytes.
pub const HEADER_LEN: usize = 9;

/// Highest opcode the protocol defines.
pub const MAX_OPCODE: u8 = 16;

/// One protocol message: header fields plus the opaque body.
pub struct Frame {
    pub version: u8,
    pub flags: u8,
    pub stream: i16,
    pub opcode: u8,
    pub body: Vec<u8>,
}

/// Mathematical model of a frame.
pub struct FrameView {
    pub version: u8,
    pub flags: u8,
    pub stream: i16,
    pub opcode: u8,
    pub body: Seq<u8>,
}

impl View for Frame {
    type V = FrameView;

    open spec fn view(&self) -> FrameView {
        FrameView {
            version: self.version,
            flags: self.flags,
            stream: self.stream,
            opcode: self.opcode,
            body: self.body@,
        }
    }
}

/// Why a buffer cannot hold a frame.
#[derive(PartialEq, Eq, Structural, Clone, Copy, Debug)]
pub enum CorruptKind {
    BadVersion,
    BadOpcode,
    BodyTooLarge,
}

/// Result of decoding the front of a byte buffer.
pub enum Decoded {
    /// A whole frame and the number of bytes it took.
    Complete(Frame, usize),
    /// The buffer holds only part of a frame; nothing was consumed.
    NeedMoreData,
    /// The header is invalid: the connection must be closed.
    Corrupt(CorruptKind),
}

/// Mathematical model of a decoding outcome.
pub enum DecodedView {
    Complete(FrameView, nat),
    NeedMoreData,
    Corrupt(CorruptKind),
}

impl View for Decoded {
    type V = DecodedView;

    open spec fn view(&self) -> DecodedView {
        match self {
            Decoded::Complete(f, n) => DecodedView::Complete(f@, *n as nat),
            Decoded::NeedMoreData => DecodedView::NeedMoreData,
            Decoded::Corrupt(k) => DecodedView::Corrupt(*k),
        }
    }
}

/// Protocol versions 3 to 5, as requests (high bit clear) or responses (set).
pub open spec fn valid_version(v: u8) -> bool {
    (3 <= v && v <= 5) || (0x83 <= v && v <= 0x85)
}

pub open spec fn valid_opcode(op: u8) -> bool {
    op <= MAX_OPCODE
}

/// The two's-complement bit pattern of a stream id.
pub open spec fn stream_bits(s: i16) -> int {
    if s >= 0 { s as int } else { s as int + 65536 }
}

pub open spec fn stream_of_bits(u: int) -> i16 {
    if u >= 32768 { (u - 65536) as i16 } else { u as i16 }
}

/// Big-endian value of four bytes.
pub open spec fn be32(b: Seq<u8>, at: int) -> int {
    b[at] as int * 16777216 + b[at + 1] as int * 65536 + b[at + 2] as int * 256 + b[at + 3] as int
}

/// The header bytes of a frame whose body has `len` bytes.
pub open spec fn header_bytes(f: FrameView, len: nat) -> Seq<u8> {
    let u = stream_bits(f.stream);
    seq![
        f.version,
        f.flags,
        (u / 256) as u8,
        (u % 256) as u8,
        f.opcode,
        (len / 16777216) as u8,
        ((len / 65536) % 256) as u8,
        ((len / 256) % 256) as u8,
        (len % 256) as u8,
    ]
}

/// The wire encoding of a frame.
pub open spec fn encoding(f: FrameView) -> Seq<u8> {
    header_bytes(f, f.body.len()) + f.body
}

/// A frame that can be encoded and that a decoder bounded by `max_body` accepts.
pub open spec fn frame_valid(f: FrameView, max_body: u32) -> bool {
    valid_version(f.version) && valid_opcode(f.opcode) && f.body.len() <= max_body
}

/// What decoding the front of `b` yields, with bodies bounded by `max_body`.
pub open spec fn decode_spec(b: Seq<u8>, max_body: u32) -> DecodedView {
    if b.len() < HEADER_LEN {
        DecodedView::NeedMoreData
    } else if !valid_version(b[0]) {
        DecodedView::Corrupt(CorruptKind::BadVersion)
    } else if !valid_opcode(b[4]) {
        DecodedView::Corrupt(CorruptKind::BadOpcode)
    } else if be32(b, 5) > max_body {
        DecodedView::Corrupt(CorruptKind::BodyTooLarge)
    } else if b.len() < HEADER_LEN + be32(b, 5) {
        DecodedView::NeedMoreData
    } else {
        let total = HEADER_LEN + be32(b, 5);
        DecodedView::Complete(
            FrameView {
                version: b[0],
                flags: b[1],
                stream: stream_of_bits(b[2] as int * 256 + b[3] as int),
                opcode: b[4],
                body: b.subrange(HEADER_LEN as int, total),
            },
            total as nat,
        )
    }
}

proof fn lemma_be32_split(n: int)
    requires
        0 <= n < 0x1_0000_0000,
    ensures
        0 <= n / 16777216 < 256,
        0 <= (n / 65536) % 256 < 256,
        0 <= (n / 256) % 256 < 256,
        0 <= n % 256 < 256,
        (n / 16777216) * 16777216 + ((n / 65536) % 256) * 65536 + ((n / 256) % 256) * 256 + n
            % 256 == n,
{
    assert((n / 16777216) * 16777216 + ((n / 65536) % 256) * 65536 + ((n / 256) % 256) * 256 + n
        % 256 == n) by (nonlinear_arith)
        requires
            0 <= n < 0x1_0000_0000,
    {
        assert(n / 65536 == (n / 16777216) * 256 + (n / 65536) % 256);
        assert(n / 256 == (n / 65536) * 256 + (n / 256) % 256);
        assert(n == (n / 256) * 256 + n % 256);
    }
}

proof fn lemma_stream_bits(s: i16)
    ensures
        0 <= stream_bits(s) < 65536,
        0 <= stream_bits(s) / 256 < 256,
        stream_of_bits(
            ((stream_bits(s) / 256) as u8) as int * 256 + ((stream_bits(s) % 256) as u8) as int,
        ) == s,
{
    let u = stream_bits(s);
    assert(u == (u / 256) * 256 + u % 256);
}

/// Decoding an encoded valid frame, whatever bytes follow it, gives back the
/// frame and consumes exactly its encoding.
pub proof fn lemma_round_trip(f: FrameView, max_body: u32, rest: Seq<u8>)
    requires
        frame_valid(f, max_body),
    ensures
        decode_spec(encoding(f) + rest, max_body) == DecodedView::Complete(
            f,
            encoding(f).len(),
        ),
{
    let b = encoding(f) + rest;
    let n = f.body.len() as int;
    lemma_be32_split(n);
    lemma_stream_bits(f.stream);
    assert(be32(b, 5) == n);
    assert(b.subrange(HEADER_LEN as int, HEADER_LEN + n) =~= f.body);
}

/// Any proper prefix of a valid frame's encoding needs more data; once all of
/// it is there the frame is yielded, and consuming it leaves exactly the bytes
/// that followed, so the same frame is not yielded again (with nothing after
/// it, more data is needed).
pub proof fn lemma_partial_decode(f: FrameView, max_body: u32, k: int, rest: Seq<u8>)
    requires
        frame_valid(f, max_body),
        0 <= k < encoding(f).len(),
    ensures
        decode_spec(encoding(f).subrange(0, k), max_body) == DecodedView::NeedMoreData,
        decode_spec(encoding(f) + rest, max_body) == DecodedView::Complete(f, encoding(f).len()),
        (encoding(f) + rest).subrange(encoding(f).len() as int, (encoding(f) + rest).len() as int)
            == rest,
        decode_spec(Seq::<u8>::empty(), max_body) == DecodedView::NeedMoreData,
{
    let e = encoding(f);
    lemma_round_trip(f, max_body, rest);
    assert((e + rest).subrange(e.len() as int, (e + rest).len() as int) =~= rest);
    let p = e.subrange(0, k);
    let n = f.body.len() as int;
    lemma_be32_split(n);
    lemma_stream_bits(f.stream);
    assert(be32(e, 5) == n);
    if k >= HEADER_LEN {
        assert(be32(p, 5) == be32(e, 5));
    }
}

/// Encodes a frame into its wire bytes.
pub fn encode(f: &Frame) -> (r: Vec<u8>)
    requires
        f.body@.len() < 0x1_0000_0000,
    ensures
        r@ == encoding(f@),
{
    let n: u32 = f.body.len() as u32;
    proof {
        lemma_be32_split(n as int);
        lemma_stream_bits(f.stream);
    }
    let u: u16 = if f.stream >= 0 {
        f.stream as u16
    } else {
        (f.stream as i32 + 65536) as u16
    };
    let mut out: Vec<u8> = Vec::new();
    out.push(f.version);
    out.push(f.flags);
    out.push((u / 256) as u8);
    out.push((u % 256) as u8);
    out.push(f.opcode);
    out.push((n / 16777216) as u8);
    out.push(((n / 65536) % 256) as u8);
    out.push(((n / 256) % 256) as u8);
    out.push((n % 256) as u8);
    assert(out@ =~= header_bytes(f@, f.body@.len()));
    let mut i: usize = 0;
    while i < f.body.len()
        invariant
            i <= f.body@.len(),
            out@ =~= header_bytes(f@, f.body@.len()) + f.body@.subrange(0, i as int),
        decreases f.body@.len() - i,
    {
        out.push(f.body[i]);
        i = i + 1;
        assert(out@ =~= header_bytes(f@, f.body@.len()) + f.body@.subrange(0, i as int));
    }
    assert(f.body@.subrange(0, f.body@.len() as int) =~= f.body@);
    out
}

/// Decodes the frame at the front of `buf`, or says that more bytes are needed
/// or that the header is corrupt. Only a complete frame consumes input.
pub fn decode(buf: &[u8], max_body: u32) -> (r: Decoded)
    ensures
        r@ == decode_spec(buf@, max_body),
{
    if buf.len() < HEADER_LEN {
        return Decoded::NeedMoreData;
    }
    let version = buf[0];
    if !((3 <= version && version <= 5) || (0x83 <= version && version <= 0x85)) {
        return Decoded::Corrupt(CorruptKind::BadVersion);
    }
    let opcode = buf[4];
    if opcode > MAX_OPCODE {
        return Decoded::Corrupt(CorruptKind::BadOpcode);
    }
    let (b5, b6, b7, b8) = (buf[5] as u32, buf[6] as u32, buf[7] as u32, buf[8] as u32);
    assert(b5 * 16777216 + b6 * 65536 + b7 * 256 + b8 < 0x1_0000_0000) by (nonlinear_arith)
        requires
            b5 < 256,
            b6 < 256,
            b7 < 256,
            b8 < 256,
    ;
    let len: u32 = b5 * 16777216 + b6 * 65536 + b7 * 256 + b8;
    if len > max_body {
        return Decoded::Corrupt(CorruptKind::BodyTooLarge);
    }
    if buf.len() - HEADER_LEN < len as usize {
        return Decoded::NeedMoreData;
    }
    let total: usize = HEADER_LEN + len as usize;
    let u: u32 = buf[2] as u32 * 256 + buf[3] as u32;
    let stream: i16 = if u >= 32768 {
        (u as i32 - 65536) as i16
    } else {
        u as i16
    };
    let mut body: Vec<u8> = Vec::new();
    let mut i: usize = HEADER_LEN;
    while i < total
        invariant
            HEADER_LEN <= i <= total,
            total <= buf@.len(),
            body@ =~= buf@.subrange(HEADER_LEN as int, i as int),
        decreases total - i,
    {
        body.push(buf[i]);
        i = i + 1;
        assert(body@ =~= buf@.subrange(HEADER_LEN as int, i as int));
    }
    let f = Frame { version, flags: buf[1], stream, opcode, body };
    Decoded::Complete(f, total)
}

} // verus!
