//! The frame format: a six-byte header, then as many payload bytes as the
//! header declares.
//!
//! ```text
//! offset 0: first signature byte
//! offset 1: second signature byte
//! offset 2: payload length, four bytes, little-endian
//! offset 6: payload
//! ```
//!
//! The spec functions of this module say what a buffer of received bytes
//! means: which frames it holds from its start on, and which bytes are left
//! over for a later frame. The endpoints are specified against them.

use vstd::prelude::*;
use crate::wire::{
    byte_char, bytes32, char_byte, le32, lemma_bytes32_of_le32, lemma_le32_of_bytes32, read_u32,
    write_u32,
};
use crate::{ConnectionError, PacketHeader};

verus! {

/// The length of a frame's header in bytes.
pub const HEADER_LEN: usize = 6;

/// The payload limit of an endpoint that was given none: 16 MiB.
pub const DEFAULT_MAX_PACKET_LENGTH: u32 = 0x100_0000;

/// One complete frame: its header and the payload that the header announces.
pub struct Frame {
    pub header: PacketHeader,
    pub payload: Seq<u8>,
}

/// What stands at the start of a buffer.
pub enum Head {
    /// Fewer bytes than a header, or than the header and the payload it announces.
    Incomplete,
    /// A header that announces more payload than the limit allows.
    Oversize(PacketHeader),
    /// A whole frame.
    Complete(Frame),
}

/// The header that the first six bytes of `buf` spell.
pub open spec fn header_of(buf: Seq<u8>) -> PacketHeader
    recommends
        buf.len() >= HEADER_LEN,
{
    PacketHeader {
        sig_a: byte_char(buf[0]),
        sig_b: byte_char(buf[1]),
        packet_length: le32(buf.subrange(2, 6)) as u32,
    }
}

/// The number of bytes that a frame with this header takes.
pub open spec fn frame_len(header: PacketHeader) -> int {
    HEADER_LEN + header.packet_length
}

/// What stands at the start of `buf`, for an endpoint that accepts payloads
/// of up to `max` bytes.
pub open spec fn head(buf: Seq<u8>, max: u32) -> Head {
    if buf.len() < HEADER_LEN {
        Head::Incomplete
    } else if header_of(buf).packet_length > max {
        Head::Oversize(header_of(buf))
    } else if buf.len() < frame_len(header_of(buf)) {
        Head::Incomplete
    } else {
        Head::Complete(
            Frame {
                header: header_of(buf),
                payload: buf.subrange(HEADER_LEN as int, frame_len(header_of(buf))),
            },
        )
    }
}

/// The complete frames that `buf` holds from its start on, in order. The
/// sequence ends at the first incomplete frame or oversize header.
pub open spec fn frames(buf: Seq<u8>, max: u32) -> Seq<Frame>
    decreases buf.len(),
{
    match head(buf, max) {
        Head::Complete(f) => seq![f] + frames(buf.skip(frame_len(f.header)), max),
        _ => Seq::empty(),
    }
}

/// The bytes of `buf` that follow its complete frames.
pub open spec fn pending(buf: Seq<u8>, max: u32) -> Seq<u8>
    decreases buf.len(),
{
    match head(buf, max) {
        Head::Complete(f) => pending(buf.skip(frame_len(f.header)), max),
        _ => buf,
    }
}

/// The bytes of the frame that carries `payload` under the signature
/// `(sig_a, sig_b)`. Of each signature character the low eight bits are written.
pub open spec fn frame_bytes(sig_a: char, sig_b: char, payload: Seq<u8>) -> Seq<u8>
    recommends
        payload.len() <= u32::MAX,
{
    seq![char_byte(sig_a), char_byte(sig_b)] + bytes32(payload.len() as u32) + payload
}

/// The frame that a reader finds in `frame_bytes(sig_a, sig_b, payload)`.
pub open spec fn frame_of(sig_a: char, sig_b: char, payload: Seq<u8>) -> Frame
    recommends
        payload.len() <= u32::MAX,
{
    Frame {
        header: PacketHeader {
            sig_a: byte_char(char_byte(sig_a)),
            sig_b: byte_char(char_byte(sig_b)),
            packet_length: payload.len() as u32,
        },
        payload,
    }
}

/// What `probe` found at a position of a buffer.
#[derive(Clone, Copy, Debug, PartialEq, Eq, Structural)]
pub enum Probe {
    /// More bytes are needed: this many.
    Incomplete(usize),
    /// The header announces more payload than the limit allows.
    Oversize,
    /// A whole frame with this header is there.
    Complete(PacketHeader),
}

/// The number of bytes that `buf` lacks to hold a header and the payload
/// that the header announces (to hold a header, while it holds none).
pub open spec fn missing(buf: Seq<u8>) -> int {
    if buf.len() < HEADER_LEN {
        HEADER_LEN - buf.len()
    } else {
        frame_len(header_of(buf)) - buf.len()
    }
}

/// Reads the header at position `at` of `buf` without consuming it.
pub fn read_packet_header(buf: &[u8], at: usize) -> (header: Option<PacketHeader>)
    requires
        at <= buf.len(),
    ensures
        header == if buf@.len() - at >= HEADER_LEN {
            Some(header_of(buf@.skip(at as int)))
        } else {
            None
        },
{
    if buf.len() - at < HEADER_LEN {
        return None;
    }
    proof {
        let rest = buf@.skip(at as int);
        assert(rest.subrange(2, 6) =~= buf@.subrange(at + 2, at + 6));
        lemma_bytes32_of_le32(rest.subrange(2, 6));
    }
    Some(
        PacketHeader {
            sig_a: buf[at] as char,
            sig_b: buf[at + 1] as char,
            packet_length: read_u32(buf, at + 2),
        },
    )
}

/// Says what stands at position `at` of `buf`: nothing is consumed.
pub fn probe(buf: &[u8], at: usize, max: u32) -> (found: Probe)
    requires
        at <= buf.len(),
    ensures
        match head(buf@.skip(at as int), max) {
            Head::Incomplete => found == Probe::Incomplete(missing(buf@.skip(at as int)) as usize)
                && 0 < missing(buf@.skip(at as int)) <= usize::MAX,
            Head::Oversize(_) => found == Probe::Oversize,
            Head::Complete(f) => found == Probe::Complete(f.header) && at + frame_len(f.header)
                <= buf.len(),
        },
{
    let have: usize = buf.len() - at;
    match read_packet_header(buf, at) {
        None => Probe::Incomplete(HEADER_LEN - have),
        Some(header) => {
            if header.packet_length > max {
                Probe::Oversize
            } else if have - HEADER_LEN < header.packet_length as usize {
                Probe::Incomplete(header.packet_length as usize - (have - HEADER_LEN))
            } else {
                Probe::Complete(header)
            }
        },
    }
}

/// Builds the frame that carries `raw` under the signature `(sig_a, sig_b)`.
/// A payload longer than `max` is refused.
pub fn encode_frame(sig_a: char, sig_b: char, raw: &[u8], max: u32) -> (r: Result<
    Vec<u8>,
    ConnectionError,
>)
    ensures
        match r {
            Ok(bytes) => raw@.len() <= max && bytes@ == frame_bytes(sig_a, sig_b, raw@),
            Err(e) => raw@.len() > max && e == ConnectionError::InvalidPacketSize,
        },
{
    if raw.len() > max as usize {
        return Err(ConnectionError::InvalidPacketSize);
    }
    let mut bytes: Vec<u8> = Vec::new();
    bytes.push((sig_a as u32 % 0x100) as u8);
    bytes.push((sig_b as u32 % 0x100) as u8);
    write_u32(&mut bytes, raw.len() as u32);
    bytes.extend_from_slice(raw);
    assert(bytes@ =~= frame_bytes(sig_a, sig_b, raw@));
    Ok(bytes)
}

/// The frames and the leftover of a stream that arrives in pieces: each
/// piece is appended to what the pieces before it left over, and the complete
/// frames are taken out before the next piece arrives.
pub open spec fn fed_frames(buf: Seq<u8>, chunks: Seq<Seq<u8>>, max: u32) -> Seq<Frame>
    decreases chunks.len(),
{
    if chunks.len() == 0 {
        frames(buf, max)
    } else {
        frames(buf + chunks[0], max) + fed_frames(
            pending(buf + chunks[0], max),
            chunks.drop_first(),
            max,
        )
    }
}

/// What is left over after the last piece: see `fed_frames`.
pub open spec fn fed_pending(buf: Seq<u8>, chunks: Seq<Seq<u8>>, max: u32) -> Seq<u8>
    decreases chunks.len(),
{
    if chunks.len() == 0 {
        pending(buf, max)
    } else {
        fed_pending(pending(buf + chunks[0], max), chunks.drop_first(), max)
    }
}

/// Header exactness: an encoded frame is six bytes longer than its payload,
/// and the length field of its header is the payload's length. A reader finds
/// that frame at the start of any buffer that begins with those bytes.
pub proof fn lemma_frame_bytes(sig_a: char, sig_b: char, payload: Seq<u8>, rest: Seq<u8>, max: u32)
    requires
        payload.len() <= max,
    ensures
        frame_bytes(sig_a, sig_b, payload).len() == HEADER_LEN + payload.len(),
        header_of(frame_bytes(sig_a, sig_b, payload) + rest).packet_length == payload.len(),
        header_of(frame_bytes(sig_a, sig_b, payload) + rest) == frame_of(
            sig_a,
            sig_b,
            payload,
        ).header,
        head(frame_bytes(sig_a, sig_b, payload) + rest, max) == Head::Complete(
            frame_of(sig_a, sig_b, payload),
        ),
        (frame_bytes(sig_a, sig_b, payload) + rest).skip(HEADER_LEN + payload.len()) == rest,
{
    let len = payload.len() as u32;
    let bytes = frame_bytes(sig_a, sig_b, payload);
    let buf = bytes + rest;
    lemma_le32_of_bytes32(len);
    assert(buf.subrange(2, 6) =~= bytes32(len));
    assert(buf[0] == char_byte(sig_a));
    assert(buf[1] == char_byte(sig_b));
    assert(buf.subrange(HEADER_LEN as int, HEADER_LEN + payload.len()) =~= payload);
    assert(buf.skip(HEADER_LEN + payload.len()) =~= rest);
}

/// Bytes that arrive later change nothing of what already stands complete,
/// or oversize, at the start of a buffer.
pub proof fn lemma_head_stable(a: Seq<u8>, b: Seq<u8>, max: u32)
    requires
        !(head(a, max) is Incomplete),
    ensures
        head(a + b, max) == head(a, max),
{
    let ab = a + b;
    assert(ab.subrange(2, 6) =~= a.subrange(2, 6));
    assert(header_of(ab) == header_of(a));
    if head(a, max) is Complete {
        assert(ab.subrange(HEADER_LEN as int, frame_len(header_of(a))) =~= a.subrange(
            HEADER_LEN as int,
            frame_len(header_of(a)),
        ));
    }
}

/// What is left over holds no complete frame.
pub proof fn lemma_pending_drained(buf: Seq<u8>, max: u32)
    ensures
        !(head(pending(buf, max), max) is Complete),
        frames(pending(buf, max), max) == Seq::<Frame>::empty(),
        pending(pending(buf, max), max) == pending(buf, max),
        pending(buf, max).len() <= buf.len(),
    decreases buf.len(),
{
    match head(buf, max) {
        Head::Complete(f) => {
            lemma_pending_drained(buf.skip(frame_len(f.header)), max);
        },
        _ => {},
    }
}

/// Reading in two pieces: the frames of `a + b` are the frames of `a`, then
/// the frames of what `a` left over with `b` appended; the leftovers agree.
pub proof fn lemma_frames_append(a: Seq<u8>, b: Seq<u8>, max: u32)
    ensures
        frames(a + b, max) == frames(a, max) + frames(pending(a, max) + b, max),
        pending(a + b, max) == pending(pending(a, max) + b, max),
    decreases a.len(),
{
    match head(a, max) {
        Head::Complete(f) => {
            let n = frame_len(f.header);
            lemma_head_stable(a, b, max);
            assert((a + b).skip(n) =~= a.skip(n) + b);
            lemma_frames_append(a.skip(n), b, max);
            assert(frames(a + b, max) =~= frames(a, max) + frames(pending(a, max) + b, max));
        },
        _ => {
            assert(frames(a, max) + frames(a + b, max) =~= frames(a + b, max));
        },
    }
}

/// Partial-read safety: however a stream is cut into pieces, and whatever the
/// buffer held before, reading it piece by piece yields the frames, and
/// leaves the bytes, that reading it in one piece does.
pub proof fn lemma_chunking(buf: Seq<u8>, chunks: Seq<Seq<u8>>, max: u32)
    ensures
        fed_frames(buf, chunks, max) == frames(buf + chunks.flatten(), max),
        fed_pending(buf, chunks, max) == pending(buf + chunks.flatten(), max),
    decreases chunks.len(),
{
    if chunks.len() == 0 {
        assert(buf + chunks.flatten() =~= buf);
    } else {
        let first = chunks[0];
        let later = chunks.drop_first();
        lemma_chunking(pending(buf + first, max), later, max);
        lemma_frames_append(buf + first, later.flatten(), max);
        assert(buf + chunks.flatten() =~= (buf + first) + later.flatten());
    }
}

/// Non-consumption: a proper prefix of a frame is incomplete, whatever its
/// length; with the remaining bytes appended, the frame stands complete.
pub proof fn lemma_partial_frame(sig_a: char, sig_b: char, payload: Seq<u8>, cut: int, max: u32)
    requires
        payload.len() <= max,
        0 <= cut < HEADER_LEN + payload.len(),
    ensures
        head(frame_bytes(sig_a, sig_b, payload).take(cut), max) is Incomplete,
        frames(frame_bytes(sig_a, sig_b, payload).take(cut), max) == Seq::<Frame>::empty(),
        pending(frame_bytes(sig_a, sig_b, payload).take(cut), max) == frame_bytes(
            sig_a,
            sig_b,
            payload,
        ).take(cut),
        frame_bytes(sig_a, sig_b, payload).take(cut) + frame_bytes(sig_a, sig_b, payload).skip(cut)
            == frame_bytes(sig_a, sig_b, payload),
{
    let bytes = frame_bytes(sig_a, sig_b, payload);
    let part = bytes.take(cut);
    lemma_frame_bytes(sig_a, sig_b, payload, Seq::empty(), max);
    assert(bytes + Seq::<u8>::empty() =~= bytes);
    if cut >= HEADER_LEN {
        assert(part.subrange(2, 6) =~= bytes.subrange(2, 6));
        assert(header_of(part) == header_of(bytes));
    }
    assert(part + bytes.skip(cut) =~= bytes);
}

/// Batching: a buffer that holds two frames back to back holds exactly these
/// two frames, in order, and nothing is left over.
pub proof fn lemma_two_frames(
    sig_a1: char,
    sig_b1: char,
    payload1: Seq<u8>,
    sig_a2: char,
    sig_b2: char,
    payload2: Seq<u8>,
    max: u32,
)
    requires
        payload1.len() <= max,
        payload2.len() <= max,
    ensures
        frames(
            frame_bytes(sig_a1, sig_b1, payload1) + frame_bytes(sig_a2, sig_b2, payload2),
            max,
        ) == seq![frame_of(sig_a1, sig_b1, payload1), frame_of(sig_a2, sig_b2, payload2)],
        pending(
            frame_bytes(sig_a1, sig_b1, payload1) + frame_bytes(sig_a2, sig_b2, payload2),
            max,
        ) == Seq::<u8>::empty(),
{
    let first = frame_bytes(sig_a1, sig_b1, payload1);
    let second = frame_bytes(sig_a2, sig_b2, payload2);
    lemma_one_frame(sig_a2, sig_b2, payload2, max);
    lemma_frame_bytes(sig_a1, sig_b1, payload1, second, max);
    assert(frames(first + second, max) =~= seq![
        frame_of(sig_a1, sig_b1, payload1),
        frame_of(sig_a2, sig_b2, payload2),
    ]);
}

/// A buffer that holds one frame holds exactly this frame, and nothing is
/// left over.
pub proof fn lemma_one_frame(sig_a: char, sig_b: char, payload: Seq<u8>, max: u32)
    requires
        payload.len() <= max,
    ensures
        frames(frame_bytes(sig_a, sig_b, payload), max) == seq![frame_of(sig_a, sig_b, payload)],
        pending(frame_bytes(sig_a, sig_b, payload), max) == Seq::<u8>::empty(),
{
    let bytes = frame_bytes(sig_a, sig_b, payload);
    let none = Seq::<u8>::empty();
    lemma_frame_bytes(sig_a, sig_b, payload, none, max);
    assert(bytes + none =~= bytes);
    assert(head(none, max) is Incomplete);
    assert(frames(none, max) =~= Seq::<Frame>::empty());
    assert(pending(none, max) =~= none);
    assert(bytes.skip(HEADER_LEN + payload.len()) == none);
    assert(frames(bytes, max) =~= seq![frame_of(sig_a, sig_b, payload)]);
    assert(pending(bytes, max) == pending(none, max));
}

/// Splitting: of a frame that arrives in two pieces, the first piece alone
/// yields no frame and is kept whole; once the second piece is appended to
/// it, exactly the frame is there and nothing is left over.
pub proof fn lemma_split_frame(sig_a: char, sig_b: char, payload: Seq<u8>, cut: int, max: u32)
    requires
        payload.len() <= max,
        0 <= cut < HEADER_LEN + payload.len(),
    ensures
        frames(frame_bytes(sig_a, sig_b, payload).take(cut), max) == Seq::<Frame>::empty(),
        frames(
            pending(frame_bytes(sig_a, sig_b, payload).take(cut), max) + frame_bytes(
                sig_a,
                sig_b,
                payload,
            ).skip(cut),
            max,
        ) == seq![frame_of(sig_a, sig_b, payload)],
        pending(
            pending(frame_bytes(sig_a, sig_b, payload).take(cut), max) + frame_bytes(
                sig_a,
                sig_b,
                payload,
            ).skip(cut),
            max,
        ) == Seq::<u8>::empty(),
{
    lemma_partial_frame(sig_a, sig_b, payload, cut, max);
    lemma_one_frame(sig_a, sig_b, payload, max);
}

} // verus!
