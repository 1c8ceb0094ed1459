//! The endpoints: a stream connection, a datagram listener and a datagram
//! client.
//!
//! An endpoint owns the bytes that were received but do not yet make up a
//! whole frame. It never touches a socket: whoever owns the socket hands the
//! endpoint what was received, and sends what the endpoint returns.

use vstd::prelude::*;
use vstd::slice::{slice_subrange, slice_to_vec};
use core::marker::PhantomData;
use crate::frame::{
    encode_frame, fed_frames, frame_bytes, frame_len, frame_of, frames, head, header_of,
    lemma_chunking, lemma_pending_drained, lemma_two_frames, missing, pending, probe, read_packet_header, Frame, Head,
    Probe, HEADER_LEN,
};
use crate::{
    decoded_view, ConnectionError, PacketDecodeError, PacketHeader, PacketTrait, TransportError,
};

verus! {

/// What the catalogue `T` makes of a frame.
pub open spec fn decode_frame<T: PacketTrait>(f: Frame) -> Result<T::V, PacketDecodeError> {
    T::spec_from_raw(f.header.sig_a, f.header.sig_b, f.payload)
}

/// What the catalogue `T` makes of each of some frames, in order.
pub open spec fn decode_all<T: PacketTrait>(fs: Seq<Frame>) -> Seq<Result<T::V, PacketDecodeError>> {
    Seq::new(fs.len(), |i: int| decode_frame::<T>(fs[i]))
}

/// Decoding results with each packet replaced by its view.
pub open spec fn results_view<T: View>(rs: Seq<Result<T, PacketDecodeError>>) -> Seq<
    Result<T::V, PacketDecodeError>,
> {
    Seq::new(rs.len(), |i: int| decoded_view(rs[i]))
}

/// The bytes that a datagram endpoint keeps of `buf` once the complete
/// frames are taken out: what is left over, unless that starts with an
/// oversize header, in which case nothing is kept.
pub open spec fn kept(buf: Seq<u8>, max: u32) -> Seq<u8> {
    if head(pending(buf, max), max) is Oversize {
        Seq::empty()
    } else {
        pending(buf, max)
    }
}

/// The framing error that a datagram endpoint reports for `buf`: one where
/// the bytes after the complete frames start with an oversize header.
pub open spec fn refused(buf: Seq<u8>, max: u32) -> Option<ConnectionError> {
    if head(pending(buf, max), max) is Oversize {
        Some(ConnectionError::InvalidPacketSize)
    } else {
        None
    }
}

/// What one receive call of a datagram endpoint yielded.
#[derive(Debug, PartialEq, Eq)]
pub struct Batch<T> {
    /// One entry for each complete frame, in the order of the frames: the
    /// packet, or the reason why the frame's payload is none.
    pub packets: Vec<Result<T, PacketDecodeError>>,
    /// Set where the bytes after the last frame announced an oversize
    /// payload and were discarded.
    pub error: Option<ConnectionError>,
}

/// What a datagram endpoint does with a datagram: it appends the datagram to
/// the bytes `before` that it held, yields in `batch` the result of decoding
/// each complete frame, in order, and holds the bytes `after`.
pub open spec fn received<T: PacketTrait>(
    before: Seq<u8>,
    datagram: Seq<u8>,
    max: u32,
    batch: Batch<T>,
    after: Seq<u8>,
) -> bool {
    &&& results_view(batch.packets@) == decode_all::<T>(frames(before + datagram, max))
    &&& batch.error == refused(before + datagram, max)
    &&& after == kept(before + datagram, max)
}

/// What a blocking read of a stream connection has to do next.
#[derive(Debug, PartialEq, Eq)]
pub enum Awaited<T> {
    /// The next packet.
    Packet(T),
    /// No packet yet: read exactly this many bytes from the socket, hand them
    /// to `read_to_buf`, and ask again.
    Read(usize),
}

/// Removes the first `n` bytes of `buf` and returns them.
pub fn read_bytes(buf: &mut Vec<u8>, n: usize) -> (front: Vec<u8>)
    requires
        n <= old(buf)@.len(),
    ensures
        front@ == old(buf)@.take(n as int),
        final(buf)@ == old(buf)@.skip(n as int),
{
    let mut other = buf.split_off(n);
    std::mem::swap(buf, &mut other);
    assert(other@ =~= old(buf)@.take(n as int));
    assert(buf@ =~= old(buf)@.skip(n as int));
    other
}

/// Appends `bytes` to `buf`.
fn append_bytes(buf: &mut Vec<u8>, bytes: &[u8])
    ensures
        final(buf)@ == old(buf)@ + bytes@,
{
    buf.extend_from_slice(bytes);
    assert(buf@ =~= old(buf)@ + bytes@);
}

/// Takes every complete frame out of `buf` and decodes it. A payload that
/// does not decode is reported in its place and the frames after it are
/// decoded all the same.
pub fn packet_from_buf<T: PacketTrait>(buf: &mut Vec<u8>, max: u32) -> (batch: Batch<T>)
    ensures
        results_view(batch.packets@) == decode_all::<T>(frames(old(buf)@, max)),
        batch.error == refused(old(buf)@, max),
        final(buf)@ == kept(old(buf)@, max),
{
    let mut packets: Vec<Result<T, PacketDecodeError>> = Vec::new();
    let mut error: Option<ConnectionError> = None;
    let mut at: usize = 0;
    let mut more: bool = true;
    let ghost all = buf@;
    let ghost mut done: Seq<Frame> = Seq::empty();
    assert(all.skip(0) =~= all);
    while more
        invariant
            buf@ == all,
            at <= all.len(),
            frames(all, max) == done + frames(all.skip(at as int), max),
            pending(all, max) == pending(all.skip(at as int), max),
            results_view(packets@) == decode_all::<T>(done),
            !more ==> !(head(all.skip(at as int), max) is Complete),
            !more ==> error == refused(all, max),
            more ==> error is None,
        decreases all.len() - at, if more { 1int } else { 0int },
    {
        let ghost rest = all.skip(at as int);
        match probe(buf.as_slice(), at, max) {
            Probe::Incomplete(_) => {
                more = false;
            },
            Probe::Oversize => {
                error = Some(ConnectionError::InvalidPacketSize);
                more = false;
            },
            Probe::Complete(header) => {
                let start: usize = at + HEADER_LEN;
                let end: usize = start + header.packet_length as usize;
                let payload = slice_to_vec(slice_subrange(buf.as_slice(), start, end));
                let ghost f = head(rest, max)->Complete_0;
                let ghost earlier = done;
                let ghost before = packets@;
                proof {
                    assert(payload@ =~= f.payload);
                    assert(rest.skip(frame_len(header)) =~= all.skip(end as int));
                    assert(frames(all, max) =~= earlier.push(f) + frames(
                        all.skip(end as int),
                        max,
                    ));
                    assert(results_view(before).len() == decode_all::<T>(earlier).len());
                    done = earlier.push(f);
                }
                let result = T::from_raw(header.sig_a, header.sig_b, payload);
                packets.push(result);
                proof {
                    assert(decoded_view(result) == decode_frame::<T>(f));
                    assert forall|i: int| 0 <= i < done.len() implies results_view(packets@)[i]
                        == decode_all::<T>(done)[i] by {
                        if i < before.len() {
                            assert(results_view(before)[i] == decode_all::<T>(earlier)[i]);
                            assert(packets@[i] == before[i]);
                            assert(done[i] == earlier[i]);
                        }
                    }
                    assert(results_view(packets@) =~= decode_all::<T>(done));
                }
                at = end;
            },
        }
    }
    proof {
        assert(frames(all.skip(at as int), max) =~= Seq::<Frame>::empty());
        assert(frames(all, max) =~= done);
        assert(pending(all, max) == all.skip(at as int));
    }
    if error.is_some() {
        buf.clear();
    } else {
        let _ = read_bytes(buf, at);
    }
    Batch { packets, error }
}

/// Builds the frame of `packet`: the bytes to send for it.
fn packet_frame<T: PacketTrait>(packet: &T, max: u32) -> (r: Result<Vec<u8>, TransportError>)
    ensures
        written::<T>(packet@, max, r),
{
    match packet.to_raw() {
        Err(e) => Err(TransportError::Encode(e)),
        Ok((sig_a, sig_b, raw)) => match encode_frame(sig_a, sig_b, raw.as_slice(), max) {
            Ok(bytes) => Ok(bytes),
            Err(e) => Err(TransportError::Connection(e)),
        },
    }
}

/// What writing the packet `v` gives at an endpoint with the payload limit
/// `max`: the packet's frame; the catalogue's error where the packet has no
/// encoding; a framing error where its payload is longer than the limit.
pub open spec fn written<T: PacketTrait>(
    v: T::V,
    max: u32,
    r: Result<Vec<u8>, TransportError>,
) -> bool {
    match T::spec_to_raw(v) {
        Err(e) => r == Err::<Vec<u8>, TransportError>(TransportError::Encode(e)),
        Ok((sig_a, sig_b, raw)) => if raw.len() > max {
            r == Err::<Vec<u8>, TransportError>(
                TransportError::Connection(ConnectionError::InvalidPacketSize),
            )
        } else {
            r matches Ok(bytes) && bytes@ == frame_bytes(sig_a, sig_b, raw)
        },
    }
}

/// The reading side of a reliable, ordered byte stream, and the writer of
/// its frames.
pub struct TcpConnection<T: PacketTrait> {
    packet_type: PhantomData<T>,
    buf: Vec<u8>,
    max_packet_length: u32,
}

impl<T: PacketTrait> TcpConnection<T> {
    /// The bytes received and not yet returned as part of a packet.
    pub closed spec fn pending(&self) -> Seq<u8> {
        self.buf@
    }

    /// The longest payload that the connection accepts and sends.
    pub closed spec fn limit(&self) -> u32 {
        self.max_packet_length
    }

    /// A connection that has received nothing yet.
    pub fn new(max_packet_length: u32) -> (conn: Self)
        ensures
            conn.pending() == Seq::<u8>::empty(),
            conn.limit() == max_packet_length,
    {
        TcpConnection { packet_type: PhantomData, buf: Vec::new(), max_packet_length }
    }

    /// The bytes received and not yet returned as part of a packet.
    pub fn buffer(&self) -> (bytes: &[u8])
        ensures
            bytes@ == self.pending(),
    {
        self.buf.as_slice()
    }

    /// Takes in what a read of the socket returned, and says how many bytes
    /// that was.
    pub fn read_to_buf(&mut self, bytes: &[u8]) -> (read: usize)
        ensures
            final(self).pending() == old(self).pending() + bytes@,
            final(self).limit() == old(self).limit(),
            read == bytes@.len(),
    {
        append_bytes(&mut self.buf, bytes);
        bytes.len()
    }

    /// The header of the next frame, once six bytes of it are there. Nothing
    /// is consumed.
    pub fn read_packet_header(&self) -> (header: Option<PacketHeader>)
        ensures
            header == if self.pending().len() >= HEADER_LEN {
                Some(header_of(self.pending()))
            } else {
                None
            },
    {
        assert(self.buf@.skip(0) =~= self.buf@);
        read_packet_header(self.buf.as_slice(), 0)
    }

    /// Takes the next packet out of the buffer, if a whole frame is there.
    ///
    /// While the frame is incomplete the answer is `Ok(None)` and the buffer
    /// is unchanged. A header that announces more than the limit is a framing
    /// error, and the buffer is unchanged. A complete frame is removed from
    /// the buffer, whether or not its payload decodes.
    pub fn try_read_packet(&mut self) -> (r: Result<Option<T>, TransportError>)
        ensures
            final(self).limit() == old(self).limit(),
            match head(old(self).pending(), old(self).limit()) {
                Head::Incomplete => r matches Ok(None) && final(self).pending() == old(
                    self,
                ).pending(),
                Head::Oversize(_) => r matches Err(
                    TransportError::Connection(ConnectionError::InvalidPacketSize),
                ) && final(self).pending() == old(self).pending(),
                Head::Complete(f) => {
                    &&& final(self).pending() == old(self).pending().skip(frame_len(f.header))
                    &&& match decode_frame::<T>(f) {
                        Ok(v) => r matches Ok(Some(p)) && p@ == v,
                        Err(e) => r matches Err(TransportError::Decode(d)) && d == e,
                    }
                },
            },
    {
        match self.wait_for_packet() {
            Ok(Awaited::Packet(packet)) => Ok(Some(packet)),
            Ok(Awaited::Read(_)) => Ok(None),
            Err(e) => Err(e),
        }
    }

    /// One step of a blocking read: the next packet, or the number of bytes
    /// that must arrive before there can be one.
    ///
    /// The buffer changes as in `try_read_packet`. While the frame is
    /// incomplete the answer is `Read(n)`, with `n` the number of bytes that
    /// the header, or the announced payload, still lacks.
    pub fn wait_for_packet(&mut self) -> (r: Result<Awaited<T>, TransportError>)
        ensures
            final(self).limit() == old(self).limit(),
            match head(old(self).pending(), old(self).limit()) {
                Head::Incomplete => r matches Ok(Awaited::Read(n)) && n == missing(
                    old(self).pending(),
                ) && n > 0 && final(self).pending() == old(self).pending(),
                Head::Oversize(_) => r matches Err(
                    TransportError::Connection(ConnectionError::InvalidPacketSize),
                ) && final(self).pending() == old(self).pending(),
                Head::Complete(f) => {
                    &&& final(self).pending() == old(self).pending().skip(frame_len(f.header))
                    &&& match decode_frame::<T>(f) {
                        Ok(v) => r matches Ok(Awaited::Packet(p)) && p@ == v,
                        Err(e) => r matches Err(TransportError::Decode(d)) && d == e,
                    }
                },
            },
    {
        assert(self.buf@.skip(0) =~= self.buf@);
        match probe(self.buf.as_slice(), 0, self.max_packet_length) {
            Probe::Incomplete(n) => Ok(Awaited::Read(n)),
            Probe::Oversize => Err(TransportError::Connection(ConnectionError::InvalidPacketSize)),
            Probe::Complete(header) => {
                let mut frame = read_bytes(
                    &mut self.buf,
                    HEADER_LEN + header.packet_length as usize,
                );
                let payload = frame.split_off(HEADER_LEN);
                assert(payload@ =~= old(self).buf@.subrange(
                    HEADER_LEN as int,
                    frame_len(header),
                ));
                match T::from_raw(header.sig_a, header.sig_b, payload) {
                    Ok(packet) => Ok(Awaited::Packet(packet)),
                    Err(e) => Err(TransportError::Decode(e)),
                }
            },
        }
    }

    /// The bytes to send for `packet`: its frame.
    pub fn write_packet(&self, packet: &T) -> (r: Result<Vec<u8>, TransportError>)
        ensures
            written::<T>(packet@, self.limit(), r),
    {
        packet_frame(packet, self.max_packet_length)
    }
}

/// A datagram endpoint bound to one remote peer.
pub struct UdpClient<T: PacketTrait> {
    packet_type: PhantomData<T>,
    recv_buf: Vec<u8>,
    max_packet_length: u32,
}

impl<T: PacketTrait> UdpClient<T> {
    /// The bytes received that do not yet make up a whole frame.
    pub closed spec fn pending(&self) -> Seq<u8> {
        self.recv_buf@
    }

    /// The longest payload that the client accepts and sends.
    pub closed spec fn limit(&self) -> u32 {
        self.max_packet_length
    }

    /// A client that has received nothing yet.
    pub fn new(max_packet_length: u32) -> (client: Self)
        ensures
            client.pending() == Seq::<u8>::empty(),
            client.limit() == max_packet_length,
    {
        UdpClient { packet_type: PhantomData, recv_buf: Vec::new(), max_packet_length }
    }

    /// The bytes received that do not yet make up a whole frame.
    pub fn buffer(&self) -> (bytes: &[u8])
        ensures
            bytes@ == self.pending(),
    {
        self.recv_buf.as_slice()
    }

    /// Takes in one received datagram and returns every packet that is now
    /// complete, in order.
    pub fn wait_for_packet(&mut self, datagram: &[u8]) -> (batch: Batch<T>)
        ensures
            final(self).limit() == old(self).limit(),
            received(
                old(self).pending(),
                datagram@,
                old(self).limit(),
                batch,
                final(self).pending(),
            ),
    {
        append_bytes(&mut self.recv_buf, datagram);
        packet_from_buf(&mut self.recv_buf, self.max_packet_length)
    }

    /// The non-blocking read: as `wait_for_packet` where a datagram was
    /// there to receive; where none was, no packet and no change.
    pub fn try_read_packet(&mut self, datagram: Option<&[u8]>) -> (batch: Batch<T>)
        ensures
            final(self).limit() == old(self).limit(),
            match datagram {
                Some(bytes) => received(
                    old(self).pending(),
                    bytes@,
                    old(self).limit(),
                    batch,
                    final(self).pending(),
                ),
                None => {
                    &&& batch.packets@.len() == 0
                    &&& batch.error is None
                    &&& final(self).pending() == old(self).pending()
                },
            },
    {
        match datagram {
            Some(bytes) => self.wait_for_packet(bytes),
            None => Batch { packets: Vec::new(), error: None },
        }
    }

    /// The bytes of the one datagram to send for `packet`: its frame.
    pub fn write_packet(&self, packet: T) -> (r: Result<Vec<u8>, TransportError>)
        ensures
            written::<T>(packet@, self.limit(), r),
    {
        packet_frame(&packet, self.max_packet_length)
    }
}

/// The address of a remote peer of a datagram listener.
#[derive(Clone, Copy, Debug, PartialEq, Eq, Structural)]
pub struct PeerAddr {
    /// The IP address as a 128-bit number; an IPv4 address in its
    /// IPv4-mapped form.
    pub ip: u128,
    pub port: u16,
}

/// The bytes of one peer that do not yet make up a whole frame.
struct PeerBuffer {
    addr: PeerAddr,
    buf: Vec<u8>,
}

/// The bytes that `peers` holds for `addr`: those of the first entry with
/// that address, none where there is no such entry.
spec fn held(peers: Seq<PeerBuffer>, addr: PeerAddr) -> Seq<u8>
    decreases peers.len(),
{
    if peers.len() == 0 {
        Seq::empty()
    } else if peers[0].addr == addr {
        peers[0].buf@
    } else {
        held(peers.drop_first(), addr)
    }
}

/// No entry of `peers` has the address `addr`.
spec fn absent(peers: Seq<PeerBuffer>, addr: PeerAddr) -> bool {
    forall|i: int| 0 <= i < peers.len() ==> (#[trigger] peers[i]).addr != addr
}

/// No two entries of `peers` have the same address.
spec fn distinct(peers: Seq<PeerBuffer>) -> bool {
    forall|i: int, j: int|
        0 <= i < j < peers.len() ==> (#[trigger] peers[i]).addr != (#[trigger] peers[j]).addr
}

proof fn lemma_held_absent(peers: Seq<PeerBuffer>, addr: PeerAddr)
    requires
        absent(peers, addr),
    ensures
        held(peers, addr) == Seq::<u8>::empty(),
    decreases peers.len(),
{
    if peers.len() > 0 {
        assert(peers[0].addr != addr);
        assert forall|i: int| 0 <= i < peers.drop_first().len() implies (
        #[trigger] peers.drop_first()[i]).addr != addr by {
            assert(peers.drop_first()[i] == peers[i + 1]);
        }
        lemma_held_absent(peers.drop_first(), addr);
    }
}

proof fn lemma_held_at(peers: Seq<PeerBuffer>, at: int)
    requires
        distinct(peers),
        0 <= at < peers.len(),
    ensures
        held(peers, peers[at].addr) == peers[at].buf@,
    decreases peers.len(),
{
    if at > 0 {
        assert(peers[0].addr != peers[at].addr);
        let rest = peers.drop_first();
        assert forall|i: int, j: int| 0 <= i < j < rest.len() implies (#[trigger] rest[i]).addr != (
        #[trigger] rest[j]).addr by {
            assert(rest[i] == peers[i + 1]);
            assert(rest[j] == peers[j + 1]);
        }
        assert(rest[at - 1] == peers[at]);
        lemma_held_at(rest, at - 1);
    }
}

proof fn lemma_held_remove(peers: Seq<PeerBuffer>, at: int, other: PeerAddr)
    requires
        0 <= at < peers.len(),
        other != peers[at].addr,
    ensures
        held(peers.remove(at), other) == held(peers, other),
    decreases peers.len(),
{
    if at == 0 {
        assert(peers.remove(0) =~= peers.drop_first());
    } else {
        assert(peers.remove(at)[0] == peers[0]);
        assert(peers.remove(at).drop_first() =~= peers.drop_first().remove(at - 1));
        if peers[0].addr != other {
            assert(peers.drop_first()[at - 1] == peers[at]);
            lemma_held_remove(peers.drop_first(), at - 1, other);
        }
    }
}

proof fn lemma_held_push(peers: Seq<PeerBuffer>, entry: PeerBuffer, other: PeerAddr)
    ensures
        held(peers.push(entry), other) == if !absent(peers, other) {
            held(peers, other)
        } else if entry.addr == other {
            entry.buf@
        } else {
            Seq::<u8>::empty()
        },
    decreases peers.len(),
{
    let pushed = peers.push(entry);
    if peers.len() == 0 {
        assert(pushed[0] == entry);
        assert(pushed.drop_first() =~= Seq::<PeerBuffer>::empty());
        assert(held(pushed.drop_first(), other) == Seq::<u8>::empty());
    } else {
        let rest = peers.drop_first();
        assert(pushed[0] == peers[0]);
        assert(pushed.drop_first() =~= rest.push(entry));
        if peers[0].addr == other {
            assert(!absent(peers, other));
        } else {
            lemma_held_push(rest, entry, other);
            if absent(rest, other) {
                assert forall|i: int| 0 <= i < peers.len() implies (#[trigger] peers[i]).addr
                    != other by {
                    if i > 0 {
                        assert(rest[i - 1] == peers[i]);
                    }
                }
            } else {
                let i = choose|i: int| 0 <= i < rest.len() && (#[trigger] rest[i]).addr == other;
                assert(peers[i + 1] == rest[i]);
                assert(!absent(peers, other));
            }
        }
    }
}

/// Removes and returns the bytes held for `addr`.
fn take_pending(peers: &mut Vec<PeerBuffer>, addr: PeerAddr) -> (buf: Vec<u8>)
    requires
        distinct(old(peers)@),
    ensures
        buf@ == held(old(peers)@, addr),
        distinct(final(peers)@),
        absent(final(peers)@, addr),
        forall|other: PeerAddr|
            other != addr ==> held(final(peers)@, other) == held(old(peers)@, other),
{
    let mut i: usize = 0;
    while i < peers.len()
        invariant
            peers@ == old(peers)@,
            distinct(peers@),
            i <= peers@.len(),
            absent(peers@.take(i as int), addr),
        decreases peers@.len() - i,
    {
        if peers[i].addr == addr {
            let ghost before = peers@;
            let entry = peers.remove(i);
            proof {
                let after = before.remove(i as int);
                lemma_held_at(before, i as int);
                assert forall|k: int| 0 <= k < after.len() implies (#[trigger] after[k]).addr
                    != addr by {
                    if k < i {
                        assert(before.take(i as int)[k] == before[k]);
                    } else {
                        assert(after[k] == before[k + 1]);
                    }
                }
                assert forall|j: int, k: int| 0 <= j < k < after.len() implies (
                #[trigger] after[j]).addr != (#[trigger] after[k]).addr by {
                    assert(after[j] == before[if j < i { j } else { j + 1 }]);
                    assert(after[k] == before[if k < i { k } else { k + 1 }]);
                }
                assert forall|other: PeerAddr| other != addr implies held(after, other) == held(
                    before,
                    other,
                ) by {
                    lemma_held_remove(before, i as int, other);
                }
            }
            return entry.buf;
        }
        i += 1;
        assert forall|k: int| 0 <= k < i implies (#[trigger] peers@.take(i as int)[k]).addr
            != addr by {
            if k < i - 1 {
                assert(peers@.take(i - 1)[k] == peers@[k]);
            }
        }
    }
    proof {
        assert(peers@.take(i as int) =~= peers@);
        lemma_held_absent(peers@, addr);
    }
    Vec::new()
}

/// Holds `buf` for `addr`, which has no entry; an empty `buf` takes no entry.
fn put_pending(peers: &mut Vec<PeerBuffer>, addr: PeerAddr, buf: Vec<u8>)
    requires
        distinct(old(peers)@),
        absent(old(peers)@, addr),
    ensures
        distinct(final(peers)@),
        held(final(peers)@, addr) == buf@,
        forall|other: PeerAddr|
            other != addr ==> held(final(peers)@, other) == held(old(peers)@, other),
{
    proof {
        lemma_held_absent(peers@, addr);
    }
    if buf.len() > 0 {
        let entry = PeerBuffer { addr, buf };
        let ghost before = peers@;
        proof {
            let after = before.push(entry);
            assert forall|other: PeerAddr| #[trigger]
                held(after, other) == if other == addr {
                    entry.buf@
                } else {
                    held(before, other)
                } by {
                lemma_held_push(before, entry, other);
                if absent(before, other) {
                    lemma_held_absent(before, other);
                }
            }
            assert forall|i: int, j: int| 0 <= i < j < after.len() implies (#[trigger] after[i]).addr
                != (#[trigger] after[j]).addr by {
                assert(after[i] == before[i]);
                if j < before.len() {
                    assert(after[j] == before[j]);
                }
            }
        }
        peers.push(entry);
    }
}

/// A datagram endpoint that serves many remote peers. The bytes of each
/// peer are reassembled apart from those of every other.
pub struct UdpListener<T: PacketTrait> {
    packet_type: PhantomData<T>,
    peers: Vec<PeerBuffer>,
    max_packet_length: u32,
}

impl<T: PacketTrait> UdpListener<T> {
    #[verifier::type_invariant]
    spec fn peers_distinct(self) -> bool {
        distinct(self.peers@)
    }

    /// The bytes received from `addr` that do not yet make up a whole frame.
    pub closed spec fn pending(&self, addr: PeerAddr) -> Seq<u8> {
        held(self.peers@, addr)
    }

    /// The longest payload that the listener accepts and sends.
    pub closed spec fn limit(&self) -> u32 {
        self.max_packet_length
    }

    /// A listener that has received nothing yet.
    pub fn new(max_packet_length: u32) -> (listener: Self)
        ensures
            listener.limit() == max_packet_length,
            forall|addr: PeerAddr| listener.pending(addr) == Seq::<u8>::empty(),
    {
        UdpListener { packet_type: PhantomData, peers: Vec::new(), max_packet_length }
    }

    /// The number of bytes received from `addr` that do not yet make up a
    /// whole frame.
    pub fn buffered(&self, addr: PeerAddr) -> (n: usize)
        ensures
            n == self.pending(addr).len(),
    {
        proof {
            use_type_invariant(self);
        }
        let mut i: usize = 0;
        while i < self.peers.len()
            invariant
                distinct(self.peers@),
                i <= self.peers@.len(),
                absent(self.peers@.take(i as int), addr),
            decreases self.peers@.len() - i,
        {
            if self.peers[i].addr == addr {
                proof {
                    lemma_held_at(self.peers@, i as int);
                }
                return self.peers[i].buf.len();
            }
            i += 1;
            assert forall|k: int| 0 <= k < i implies (#[trigger] self.peers@.take(i as int)[k]).addr
                != addr by {
                if k < i - 1 {
                    assert(self.peers@.take(i - 1)[k] == self.peers@[k]);
                }
            }
        }
        proof {
            assert(self.peers@.take(i as int) =~= self.peers@);
            lemma_held_absent(self.peers@, addr);
        }
        0
    }

    /// Takes in one datagram received from `addr` and returns every packet
    /// of that peer that is now complete, in order, with the peer's address.
    /// What is held for the other peers is unchanged.
    pub fn wait_for_packet(&mut self, addr: PeerAddr, datagram: &[u8]) -> (r: (Batch<T>, PeerAddr))
        ensures
            final(self).limit() == old(self).limit(),
            r.1 == addr,
            received(
                old(self).pending(addr),
                datagram@,
                old(self).limit(),
                r.0,
                final(self).pending(addr),
            ),
            forall|other: PeerAddr|
                other != addr ==> final(self).pending(other) == old(self).pending(other),
    {
        proof {
            use_type_invariant(&*self);
        }
        let mut peers: Vec<PeerBuffer> = Vec::new();
        std::mem::swap(&mut self.peers, &mut peers);
        let mut buf = take_pending(&mut peers, addr);
        append_bytes(&mut buf, datagram);
        let batch = packet_from_buf(&mut buf, self.max_packet_length);
        put_pending(&mut peers, addr, buf);
        std::mem::swap(&mut self.peers, &mut peers);
        (batch, addr)
    }

    /// The non-blocking read: as `wait_for_packet` where a datagram was
    /// there to receive; where none was, nothing and no change.
    pub fn try_read_packet(&mut self, datagram: Option<(PeerAddr, &[u8])>) -> (r: Option<
        (Batch<T>, PeerAddr),
    >)
        ensures
            final(self).limit() == old(self).limit(),
            match datagram {
                Some((addr, bytes)) => {
                    &&& r matches Some((batch, sender))
                    &&& sender == addr
                    &&& received(
                        old(self).pending(addr),
                        bytes@,
                        old(self).limit(),
                        batch,
                        final(self).pending(addr),
                    )
                    &&& forall|other: PeerAddr|
                        other != addr ==> final(self).pending(other) == old(self).pending(other)
                },
                None => {
                    &&& r is None
                    &&& forall|other: PeerAddr|
                        final(self).pending(other) == old(self).pending(other)
                },
            },
    {
        match datagram {
            Some((addr, bytes)) => Some(self.wait_for_packet(addr, bytes)),
            None => None,
        }
    }

    /// The bytes of the one datagram to send for `packet`: its frame.
    pub fn write_packet(&self, packet: T) -> (r: Result<Vec<u8>, TransportError>)
        ensures
            written::<T>(packet@, self.limit(), r),
    {
        packet_frame(&packet, self.max_packet_length)
    }
}

/// What a datagram endpoint keeps holds no complete frame and no oversize
/// header: it is the beginning of one frame, or nothing.
pub proof fn lemma_kept_incomplete(buf: Seq<u8>, max: u32)
    ensures
        head(kept(buf, max), max) is Incomplete,
        frames(kept(buf, max), max) == Seq::<Frame>::empty(),
        kept(kept(buf, max), max) == kept(buf, max),
        kept(buf, max).len() <= buf.len(),
{
    lemma_pending_drained(buf, max);
    assert(head(Seq::<u8>::empty(), max) is Incomplete);
}

/// Partial-read safety: however a stream is cut into pieces, reading it
/// piece by piece decodes to the same results, in the same order, as reading
/// it in one piece.
pub proof fn lemma_chunked_packets<T: PacketTrait>(buf: Seq<u8>, chunks: Seq<Seq<u8>>, max: u32)
    ensures
        decode_all::<T>(fed_frames(buf, chunks, max)) == decode_all::<T>(
            frames(buf + chunks.flatten(), max),
        ),
{
    lemma_chunking(buf, chunks, max);
}

/// Isolation: of two frames in one buffer of a datagram endpoint, the first
/// with a payload that does not decode and the second with one that does,
/// the first is reported with its error, the second yields its packet, and
/// nothing is left over or refused.
pub proof fn lemma_decode_failure_isolated<T: PacketTrait>(
    sig_a1: char,
    sig_b1: char,
    payload1: Seq<u8>,
    sig_a2: char,
    sig_b2: char,
    payload2: Seq<u8>,
    max: u32,
)
    requires
        payload1.len() <= max,
        payload2.len() <= max,
        decode_frame::<T>(frame_of(sig_a1, sig_b1, payload1)) is Err,
        decode_frame::<T>(frame_of(sig_a2, sig_b2, payload2)) is Ok,
    ensures
        decode_all::<T>(
            frames(
                frame_bytes(sig_a1, sig_b1, payload1) + frame_bytes(sig_a2, sig_b2, payload2),
                max,
            ),
        ) == seq![
            Err::<T::V, _>(decode_frame::<T>(frame_of(sig_a1, sig_b1, payload1))->Err_0),
            Ok::<_, PacketDecodeError>(
                decode_frame::<T>(frame_of(sig_a2, sig_b2, payload2))->Ok_0,
            ),
        ],
        kept(
            frame_bytes(sig_a1, sig_b1, payload1) + frame_bytes(sig_a2, sig_b2, payload2),
            max,
        ) == Seq::<u8>::empty(),
        refused(
            frame_bytes(sig_a1, sig_b1, payload1) + frame_bytes(sig_a2, sig_b2, payload2),
            max,
        ) is None,
{
    let both = frame_bytes(sig_a1, sig_b1, payload1) + frame_bytes(sig_a2, sig_b2, payload2);
    lemma_two_frames(sig_a1, sig_b1, payload1, sig_a2, sig_b2, payload2, max);
    let expected = seq![
        Err::<T::V, _>(decode_frame::<T>(frame_of(sig_a1, sig_b1, payload1))->Err_0),
        Ok::<_, PacketDecodeError>(decode_frame::<T>(frame_of(sig_a2, sig_b2, payload2))->Ok_0),
    ];
    assert(decode_all::<T>(frames(both, max)) =~= expected);
    assert(head(Seq::<u8>::empty(), max) is Incomplete);
}

} // verus!
