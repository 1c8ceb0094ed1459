//! Length-prefixed packet framing for a two-hop game-networking relay.
//!
//! Every packet travels as a six-byte header (two signature bytes and a
//! little-endian payload length) followed by the payload. This crate holds the
//! byte-level rules of that format, the reassembly buffers of the stream and
//! datagram endpoints, and the packet catalogues of both hops. It performs no
//! I/O: an endpoint is fed the bytes that a socket produced and hands back the
//! bytes that a socket should send.

use vstd::prelude::*;

pub mod wire;
pub mod frame;
pub mod connection;
pub mod packets;
pub mod server_launcher;
pub mod launcher_client;

verus! {

/// The fixed six-byte prefix of every frame.
#[derive(Clone, Copy, Debug, PartialEq, Eq, Structural)]
pub struct PacketHeader {
    pub sig_a: char,
    pub sig_b: char,
    pub packet_length: u32,
}

/// A frame that the transport refuses to buffer or to send.
#[derive(Clone, Copy, Debug, PartialEq, Eq, Structural)]
pub enum ConnectionError {
    /// The declared or actual payload length exceeds the endpoint's limit.
    InvalidPacketSize,
}

/// Why a payload could not be turned into a packet.
#[derive(Clone, Copy, Debug, PartialEq, Eq, Structural)]
pub enum PacketDecodeError {
    UnknownPacket(char, char),
    InvalidDataSize { expected: usize, actual: usize },
    UnexpectedEof,
    InvalidString,
    InvalidJson,
    InvalidNumber,
}

/// Why a packet could not be turned into a payload.
#[derive(Clone, Copy, Debug, PartialEq, Eq, Structural)]
pub enum PacketEncodeError {
    CannotSerializeJson,
}

/// Any failure of an endpoint operation that is not an I/O failure.
#[derive(Clone, Copy, Debug, PartialEq, Eq, Structural)]
pub enum TransportError {
    Connection(ConnectionError),
    Decode(PacketDecodeError),
    Encode(PacketEncodeError),
}

/// The codec that a packet catalogue provides to the framing layer.
///
/// Decoding and encoding are functions of their arguments alone: the two spec
/// functions say what they compute, over the packet's view.
pub trait PacketTrait: Sized + View {
    /// What the payload `data` under the signature `(sig_a, sig_b)` decodes to.
    spec fn spec_from_raw(sig_a: char, sig_b: char, data: Seq<u8>) -> Result<
        Self::V,
        PacketDecodeError,
    >;

    /// The signature and payload that stand for the packet `v`.
    spec fn spec_to_raw(v: Self::V) -> Result<(char, char, Seq<u8>), PacketEncodeError>;

    fn from_raw(sig_a: char, sig_b: char, packet_data: Vec<u8>) -> (r: Result<
        Self,
        PacketDecodeError,
    >)
        ensures
            decoded_view(r) == Self::spec_from_raw(sig_a, sig_b, packet_data@),
    ;

    fn to_raw(&self) -> (r: Result<(char, char, Vec<u8>), PacketEncodeError>)
        ensures
            encoded_view(r) == Self::spec_to_raw(self@),
    ;
}

/// A decoding result with the packet replaced by its view.
pub open spec fn decoded_view<T: View>(r: Result<T, PacketDecodeError>) -> Result<
    T::V,
    PacketDecodeError,
> {
    match r {
        Ok(p) => Ok(p@),
        Err(e) => Err(e),
    }
}

/// An encoding result with the payload replaced by its view.
pub open spec fn encoded_view(r: Result<(char, char, Vec<u8>), PacketEncodeError>) -> Result<
    (char, char, Seq<u8>),
    PacketEncodeError,
> {
    match r {
        Ok((a, b, raw)) => Ok((a, b, raw@)),
        Err(e) => Err(e),
    }
}

} // verus!
