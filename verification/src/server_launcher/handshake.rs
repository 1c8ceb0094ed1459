//! Packets of the handshake between launcher and game server.

use vstd::prelude::*;
use crate::wire::{
    bytes16, is_latin1, latin1, latin1_string, le16, lemma_bytes16_of_le16,
    lemma_latin1_of_low_bytes, lemma_le16_of_bytes16, lemma_low_bytes_of_latin1, low_bytes,
    read_u16, write_low_bytes, write_u16,
};
use crate::{decoded_view, PacketDecodeError, PacketEncodeError};

verus! {

/// Announces the version of the client.
///
/// Payload: `confirm_id`, then `client_version`, two little-endian bytes each.
#[derive(Clone, Copy, Debug, PartialEq, Eq, Structural)]
pub struct VersionPacket {
    pub confirm_id: u16,
    pub client_version: u16,
}

impl View for VersionPacket {
    type V = VersionPacket;

    open spec fn view(&self) -> VersionPacket {
        *self
    }
}

impl VersionPacket {
    /// What a payload decodes to.
    pub open spec fn spec_from_raw(data: Seq<u8>) -> Result<VersionPacket, PacketDecodeError> {
        if data.len() != 4 {
            Err(PacketDecodeError::InvalidDataSize { expected: 4, actual: data.len() as usize })
        } else {
            Ok(
                VersionPacket {
                    confirm_id: le16(data.subrange(0, 2)) as u16,
                    client_version: le16(data.subrange(2, 4)) as u16,
                },
            )
        }
    }

    /// The payload of a packet.
    pub open spec fn spec_to_raw(v: VersionPacket) -> Seq<u8> {
        bytes16(v.confirm_id) + bytes16(v.client_version)
    }

    /// Decodes a payload.
    pub fn from_raw(packet_data: Vec<u8>) -> (r: Result<Self, PacketDecodeError>)
        ensures
            decoded_view(r) == Self::spec_from_raw(packet_data@),
    {
        let data_len = packet_data.len();
        if data_len != 4 {
            return Err(PacketDecodeError::InvalidDataSize { expected: 4, actual: data_len });
        }
        let confirm_id = read_u16(packet_data.as_slice(), 0);
        let client_version = read_u16(packet_data.as_slice(), 2);
        Ok(Self { confirm_id, client_version })
    }

    /// Encodes the packet.
    pub fn to_raw(&self) -> (r: Result<Vec<u8>, PacketEncodeError>)
        ensures
            r matches Ok(raw) && raw@ == Self::spec_to_raw(self@),
    {
        let mut buf: Vec<u8> = Vec::with_capacity(4);
        write_u16(&mut buf, self.confirm_id);
        write_u16(&mut buf, self.client_version);
        assert(buf@ =~= Self::spec_to_raw(self@));
        Ok(buf)
    }

    /// Decoding the payload of a packet gives the packet.
    pub proof fn lemma_round_trip(v: VersionPacket)
        ensures
            Self::spec_from_raw(Self::spec_to_raw(v)) == Ok::<_, PacketDecodeError>(v),
    {
        let raw = Self::spec_to_raw(v);
        lemma_le16_of_bytes16(v.confirm_id);
        lemma_le16_of_bytes16(v.client_version);
        assert(raw.subrange(0, 2) =~= bytes16(v.confirm_id));
        assert(raw.subrange(2, 4) =~= bytes16(v.client_version));
    }

    /// A payload that decodes is the payload of what it decodes to.
    pub proof fn lemma_payload_unique(data: Seq<u8>)
        requires
            Self::spec_from_raw(data) is Ok,
        ensures
            Self::spec_to_raw(Self::spec_from_raw(data)->Ok_0) == data,
    {
        lemma_bytes16_of_le16(data.subrange(0, 2));
        lemma_bytes16_of_le16(data.subrange(2, 4));
        assert(data.subrange(0, 2) + data.subrange(2, 4) =~= data);
    }
}

/// Presents the code that the launcher obtained for a player.
///
/// Payload: `confirm_id`, two little-endian bytes, then `auth_code` with one
/// byte for each character; at least one character.
#[derive(Clone, Debug, PartialEq, Eq)]
pub struct AuthenticationPacket {
    pub confirm_id: u16,
    pub auth_code: String,
}

/// An `AuthenticationPacket` with its text as a sequence of characters.
pub struct AuthenticationPacketView {
    pub confirm_id: u16,
    pub auth_code: Seq<char>,
}

impl View for AuthenticationPacket {
    type V = AuthenticationPacketView;

    open spec fn view(&self) -> AuthenticationPacketView {
        AuthenticationPacketView { confirm_id: self.confirm_id, auth_code: self.auth_code@ }
    }
}

impl AuthenticationPacket {
    /// What a payload decodes to.
    pub open spec fn spec_from_raw(data: Seq<u8>) -> Result<
        AuthenticationPacketView,
        PacketDecodeError,
    > {
        if data.len() < 3 {
            Err(PacketDecodeError::InvalidDataSize { expected: 3, actual: data.len() as usize })
        } else {
            Ok(
                AuthenticationPacketView {
                    confirm_id: le16(data.subrange(0, 2)) as u16,
                    auth_code: latin1(data.skip(2)),
                },
            )
        }
    }

    /// The payload of a packet. Of each character of the code the low eight
    /// bits are written.
    pub open spec fn spec_to_raw(v: AuthenticationPacketView) -> Seq<u8> {
        bytes16(v.confirm_id) + low_bytes(v.auth_code)
    }

    /// Decodes a payload.
    pub fn from_raw(packet_data: Vec<u8>) -> (r: Result<Self, PacketDecodeError>)
        ensures
            decoded_view(r) == Self::spec_from_raw(packet_data@),
    {
        let data_len = packet_data.len();
        if data_len < 3 {
            return Err(PacketDecodeError::InvalidDataSize { expected: 3, actual: data_len });
        }
        let confirm_id = read_u16(packet_data.as_slice(), 0);
        let auth_code = latin1_string(packet_data.as_slice(), 2);
        Ok(Self { confirm_id, auth_code })
    }

    /// Encodes the packet.
    pub fn to_raw(&self) -> (r: Result<Vec<u8>, PacketEncodeError>)
        ensures
            r matches Ok(raw) && raw@ == Self::spec_to_raw(self@),
    {
        let mut buf: Vec<u8> = Vec::new();
        write_u16(&mut buf, self.confirm_id);
        write_low_bytes(&mut buf, self.auth_code.as_str());
        assert(buf@ =~= Self::spec_to_raw(self@));
        Ok(buf)
    }

    /// Decoding the payload of a packet gives the packet, where its code is
    /// not empty and each of its characters fits in one byte.
    pub proof fn lemma_round_trip(v: AuthenticationPacketView)
        requires
            v.auth_code.len() > 0,
            is_latin1(v.auth_code),
        ensures
            Self::spec_from_raw(Self::spec_to_raw(v)) == Ok::<_, PacketDecodeError>(v),
    {
        let raw = Self::spec_to_raw(v);
        lemma_le16_of_bytes16(v.confirm_id);
        lemma_latin1_of_low_bytes(v.auth_code);
        assert(raw.subrange(0, 2) =~= bytes16(v.confirm_id));
        assert(raw.skip(2) =~= low_bytes(v.auth_code));
    }

    /// A payload that decodes is the payload of what it decodes to.
    pub proof fn lemma_payload_unique(data: Seq<u8>)
        requires
            Self::spec_from_raw(data) is Ok,
        ensures
            Self::spec_to_raw(Self::spec_from_raw(data)->Ok_0) == data,
    {
        lemma_bytes16_of_le16(data.subrange(0, 2));
        lemma_low_bytes_of_latin1(data.skip(2));
        assert(data.subrange(0, 2) + data.skip(2) =~= data);
    }
}

} // verus!
