//! Packets by which a game server describes itself.

use vstd::prelude::*;
use vstd::utf8::{decode_utf8, encode_utf8, valid_utf8};
use crate::wire::{
    bytes16, le16, lemma_bytes16_of_le16, lemma_le16_of_bytes16, read_u16, utf8_string, write_u16,
    write_utf8,
};
use crate::{decoded_view, PacketDecodeError, PacketEncodeError};

verus! {

/// Names the ports on which a game server listens.
///
/// Payload: `http_port`, then `udp_port`, two little-endian bytes each.
#[derive(Clone, Copy, Debug, PartialEq, Eq, Structural)]
pub struct ServerInfoPacket {
    pub http_port: u16,
    pub udp_port: u16,
}

impl View for ServerInfoPacket {
    type V = ServerInfoPacket;

    open spec fn view(&self) -> ServerInfoPacket {
        *self
    }
}

impl ServerInfoPacket {
    /// What a payload decodes to.
    pub open spec fn spec_from_raw(data: Seq<u8>) -> Result<ServerInfoPacket, PacketDecodeError> {
        if data.len() != 4 {
            Err(PacketDecodeError::InvalidDataSize { expected: 4, actual: data.len() as usize })
        } else {
            Ok(
                ServerInfoPacket {
                    http_port: le16(data.subrange(0, 2)) as u16,
                    udp_port: le16(data.subrange(2, 4)) as u16,
                },
            )
        }
    }

    /// The payload of a packet.
    pub open spec fn spec_to_raw(v: ServerInfoPacket) -> Seq<u8> {
        bytes16(v.http_port) + bytes16(v.udp_port)
    }

    /// Decodes a payload.
    pub fn from_raw(packet_data: Vec<u8>) -> (r: Result<Self, PacketDecodeError>)
        ensures
            decoded_view(r) == Self::spec_from_raw(packet_data@),
    {
        let data_len = packet_data.len();
        if data_len != 4 {
            return Err(PacketDecodeError::InvalidDataSize { expected: 4, actual: data_len });
        }
        let http_port = read_u16(packet_data.as_slice(), 0);
        let udp_port = read_u16(packet_data.as_slice(), 2);
        Ok(Self { http_port, udp_port })
    }

    /// Encodes the packet.
    pub fn to_raw(self) -> (r: Result<Vec<u8>, PacketEncodeError>)
        ensures
            r matches Ok(raw) && raw@ == Self::spec_to_raw(self@),
    {
        let mut bytes: Vec<u8> = Vec::new();
        write_u16(&mut bytes, self.http_port);
        write_u16(&mut bytes, self.udp_port);
        assert(bytes@ =~= Self::spec_to_raw(self@));
        Ok(bytes)
    }

    /// Decoding the payload of a packet gives the packet.
    pub proof fn lemma_round_trip(v: ServerInfoPacket)
        ensures
            Self::spec_from_raw(Self::spec_to_raw(v)) == Ok::<_, PacketDecodeError>(v),
    {
        let raw = Self::spec_to_raw(v);
        lemma_le16_of_bytes16(v.http_port);
        lemma_le16_of_bytes16(v.udp_port);
        assert(raw.subrange(0, 2) =~= bytes16(v.http_port));
        assert(raw.subrange(2, 4) =~= bytes16(v.udp_port));
    }

    /// A payload that decodes is the payload of what it decodes to.
    pub proof fn lemma_payload_unique(data: Seq<u8>)
        requires
            Self::spec_from_raw(data) is Ok,
        ensures
            Self::spec_to_raw(Self::spec_from_raw(data)->Ok_0) == data,
    {
        lemma_bytes16_of_le16(data.subrange(0, 2));
        lemma_bytes16_of_le16(data.subrange(2, 4));
        assert(data.subrange(0, 2) + data.subrange(2, 4) =~= data);
    }
}

/// Tells the launcher which map to load.
///
/// Payload: `confirm_id`, two little-endian bytes, then `map_name` in UTF-8.
#[derive(Clone, Debug, PartialEq, Eq)]
pub struct LoadMapPacket {
    pub confirm_id: u16,
    pub map_name: String,
}

/// A `LoadMapPacket` with its text as a sequence of characters.
pub struct LoadMapPacketView {
    pub confirm_id: u16,
    pub map_name: Seq<char>,
}

impl View for LoadMapPacket {
    type V = LoadMapPacketView;

    open spec fn view(&self) -> LoadMapPacketView {
        LoadMapPacketView { confirm_id: self.confirm_id, map_name: self.map_name@ }
    }
}

impl LoadMapPacket {
    /// What a payload decodes to.
    pub open spec fn spec_from_raw(data: Seq<u8>) -> Result<LoadMapPacketView, PacketDecodeError> {
        if data.len() < 2 {
            Err(PacketDecodeError::InvalidDataSize { expected: 2, actual: data.len() as usize })
        } else if !valid_utf8(data.skip(2)) {
            Err(PacketDecodeError::InvalidString)
        } else {
            Ok(
                LoadMapPacketView {
                    confirm_id: le16(data.subrange(0, 2)) as u16,
                    map_name: decode_utf8(data.skip(2)),
                },
            )
        }
    }

    /// The payload of a packet.
    pub open spec fn spec_to_raw(v: LoadMapPacketView) -> Seq<u8> {
        bytes16(v.confirm_id) + encode_utf8(v.map_name)
    }

    /// Decodes a payload.
    pub fn from_raw(packet_data: Vec<u8>) -> (r: Result<Self, PacketDecodeError>)
        ensures
            decoded_view(r) == Self::spec_from_raw(packet_data@),
    {
        let data_len = packet_data.len();
        if data_len < 2 {
            return Err(PacketDecodeError::InvalidDataSize { expected: 2, actual: data_len });
        }
        let confirm_id = read_u16(packet_data.as_slice(), 0);
        match utf8_string(packet_data.as_slice(), 2) {
            Some(map_name) => Ok(Self { confirm_id, map_name }),
            None => Err(PacketDecodeError::InvalidString),
        }
    }

    /// Encodes the packet.
    pub fn to_raw(&self) -> (r: Result<Vec<u8>, PacketEncodeError>)
        ensures
            r matches Ok(raw) && raw@ == Self::spec_to_raw(self@),
    {
        let mut buf: Vec<u8> = Vec::new();
        write_u16(&mut buf, self.confirm_id);
        write_utf8(&mut buf, self.map_name.as_str());
        assert(buf@ =~= Self::spec_to_raw(self@));
        Ok(buf)
    }

    /// Decoding the payload of a packet gives the packet.
    pub proof fn lemma_round_trip(v: LoadMapPacketView)
        ensures
            Self::spec_from_raw(Self::spec_to_raw(v)) == Ok::<_, PacketDecodeError>(v),
    {
        let raw = Self::spec_to_raw(v);
        lemma_le16_of_bytes16(v.confirm_id);
        vstd::utf8::encode_utf8_valid_utf8(v.map_name);
        vstd::utf8::encode_utf8_decode_utf8(v.map_name);
        assert(raw.subrange(0, 2) =~= bytes16(v.confirm_id));
        assert(raw.skip(2) =~= encode_utf8(v.map_name));
    }

    /// A payload that decodes is the payload of what it decodes to.
    pub proof fn lemma_payload_unique(data: Seq<u8>)
        requires
            Self::spec_from_raw(data) is Ok,
        ensures
            Self::spec_to_raw(Self::spec_from_raw(data)->Ok_0) == data,
    {
        lemma_bytes16_of_le16(data.subrange(0, 2));
        vstd::utf8::decode_utf8_encode_utf8(data.skip(2));
        assert(data.subrange(0, 2) + data.skip(2) =~= data);
    }
}

} // verus!
