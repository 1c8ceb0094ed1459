//! Packets of a running game: the player roster and the vehicles.

use vstd::prelude::*;
use vstd::utf8::{decode_utf8, encode_utf8, valid_utf8};
use crate::wire::{
    bytes16, bytes32, bytes64, le16, le32, le64, lemma_bytes16_of_le16, lemma_bytes32_of_le32,
    lemma_bytes64_of_le64, lemma_le16_of_bytes16, lemma_le32_of_bytes32, lemma_le64_of_bytes64,
    read_u16, read_u32, read_u64, utf8_string, write_u16, write_u32, write_u64, write_utf8,
};
use crate::{decoded_view, PacketDecodeError, PacketEncodeError};

verus! {

/// One player of the roster. The roster travels as a JSON document, which
/// the catalogue carries as text; this is the value that the text spells.
#[derive(Clone, Debug, PartialEq, Eq)]
pub struct PlayerData {
    pub name: String,
    pub steam_id: u64,
    pub avatar_hash: String,
}

/// The player roster: the value that the text of a `PlayerData` packet spells.
#[derive(Clone, Debug, PartialEq, Eq)]
pub struct PlayerDataPacket {
    pub players: Vec<PlayerData>,
}

/// Confirms that a vehicle was spawned.
///
/// Payload: `confirm_id` and `vehicle_id`, two bytes each, then `obj_id`,
/// four bytes; all little-endian.
#[derive(Clone, Copy, Debug, PartialEq, Eq, Structural)]
pub struct VehicleConfirmPacket {
    pub confirm_id: u16,
    pub vehicle_id: u16,
    pub obj_id: u32,
}

impl View for VehicleConfirmPacket {
    type V = VehicleConfirmPacket;

    open spec fn view(&self) -> VehicleConfirmPacket {
        *self
    }
}

impl VehicleConfirmPacket {
    /// What a payload decodes to.
    pub open spec fn spec_from_raw(data: Seq<u8>) -> Result<
        VehicleConfirmPacket,
        PacketDecodeError,
    > {
        if data.len() < 8 {
            Err(PacketDecodeError::UnexpectedEof)
        } else if data.len() > 8 {
            Err(PacketDecodeError::InvalidDataSize { expected: 8, actual: data.len() as usize })
        } else {
            Ok(
                VehicleConfirmPacket {
                    confirm_id: le16(data.subrange(0, 2)) as u16,
                    vehicle_id: le16(data.subrange(2, 4)) as u16,
                    obj_id: le32(data.subrange(4, 8)) as u32,
                },
            )
        }
    }

    /// The payload of a packet.
    pub open spec fn spec_to_raw(v: VehicleConfirmPacket) -> Seq<u8> {
        bytes16(v.confirm_id) + bytes16(v.vehicle_id) + bytes32(v.obj_id)
    }

    /// Decodes a payload.
    pub fn from_raw(packet_data: Vec<u8>) -> (r: Result<Self, PacketDecodeError>)
        ensures
            decoded_view(r) == Self::spec_from_raw(packet_data@),
    {
        let data_len = packet_data.len();
        if data_len < 8 {
            return Err(PacketDecodeError::UnexpectedEof);
        }
        if data_len > 8 {
            return Err(PacketDecodeError::InvalidDataSize { expected: 8, actual: data_len });
        }
        let pd = packet_data.as_slice();
        let confirm_id = read_u16(pd, 0);
        let vehicle_id = read_u16(pd, 2);
        let obj_id = read_u32(pd, 4);
        proof {
            lemma_bytes32_of_le32(packet_data@.subrange(4, 8));
        }
        Ok(Self { confirm_id, vehicle_id, obj_id })
    }

    /// Encodes the packet.
    pub fn to_raw(&self) -> (r: Result<Vec<u8>, PacketEncodeError>)
        ensures
            r matches Ok(raw) && raw@ == Self::spec_to_raw(self@),
    {
        let mut bytes: Vec<u8> = Vec::new();
        write_u16(&mut bytes, self.confirm_id);
        write_u16(&mut bytes, self.vehicle_id);
        write_u32(&mut bytes, self.obj_id);
        assert(bytes@ =~= Self::spec_to_raw(self@));
        Ok(bytes)
    }

    /// Decoding the payload of a packet gives the packet.
    pub proof fn lemma_round_trip(v: VehicleConfirmPacket)
        ensures
            Self::spec_from_raw(Self::spec_to_raw(v)) == Ok::<_, PacketDecodeError>(v),
    {
        let raw = Self::spec_to_raw(v);
        lemma_le16_of_bytes16(v.confirm_id);
        lemma_le16_of_bytes16(v.vehicle_id);
        lemma_le32_of_bytes32(v.obj_id);
        assert(raw.subrange(0, 2) =~= bytes16(v.confirm_id));
        assert(raw.subrange(2, 4) =~= bytes16(v.vehicle_id));
        assert(raw.subrange(4, 8) =~= bytes32(v.obj_id));
    }

    /// A payload that decodes is the payload of what it decodes to.
    pub proof fn lemma_payload_unique(data: Seq<u8>)
        requires
            Self::spec_from_raw(data) is Ok,
        ensures
            Self::spec_to_raw(Self::spec_from_raw(data)->Ok_0) == data,
    {
        lemma_bytes16_of_le16(data.subrange(0, 2));
        lemma_bytes16_of_le16(data.subrange(2, 4));
        lemma_bytes32_of_le32(data.subrange(4, 8));
        assert(data.subrange(0, 2) + data.subrange(2, 4) + data.subrange(4, 8) =~= data);
    }
}

/// Removes a vehicle of a player.
///
/// Payload: `player_id`, eight bytes, then `vehicle_id`, two bytes; both
/// little-endian.
#[derive(Clone, Copy, Debug, PartialEq, Eq, Structural)]
pub struct VehicleDeletePacket {
    pub player_id: u64,
    pub vehicle_id: u16,
}

impl View for VehicleDeletePacket {
    type V = VehicleDeletePacket;

    open spec fn view(&self) -> VehicleDeletePacket {
        *self
    }
}

impl VehicleDeletePacket {
    /// What a payload decodes to.
    pub open spec fn spec_from_raw(data: Seq<u8>) -> Result<
        VehicleDeletePacket,
        PacketDecodeError,
    > {
        if data.len() < 10 {
            Err(PacketDecodeError::UnexpectedEof)
        } else if data.len() > 10 {
            Err(PacketDecodeError::InvalidDataSize { expected: 10, actual: data.len() as usize })
        } else {
            Ok(
                VehicleDeletePacket {
                    player_id: le64(data.subrange(0, 8)) as u64,
                    vehicle_id: le16(data.subrange(8, 10)) as u16,
                },
            )
        }
    }

    /// The payload of a packet.
    pub open spec fn spec_to_raw(v: VehicleDeletePacket) -> Seq<u8> {
        bytes64(v.player_id) + bytes16(v.vehicle_id)
    }

    /// Decodes a payload.
    pub fn from_raw(packet_data: Vec<u8>) -> (r: Result<Self, PacketDecodeError>)
        ensures
            decoded_view(r) == Self::spec_from_raw(packet_data@),
    {
        let data_len = packet_data.len();
        if data_len < 10 {
            return Err(PacketDecodeError::UnexpectedEof);
        }
        if data_len > 10 {
            return Err(PacketDecodeError::InvalidDataSize { expected: 10, actual: data_len });
        }
        let pd = packet_data.as_slice();
        let player_id = read_u64(pd, 0);
        let vehicle_id = read_u16(pd, 8);
        proof {
            lemma_bytes64_of_le64(packet_data@.subrange(0, 8));
        }
        Ok(Self { player_id, vehicle_id })
    }

    /// Encodes the packet.
    pub fn to_raw(&self) -> (r: Result<Vec<u8>, PacketEncodeError>)
        ensures
            r matches Ok(raw) && raw@ == Self::spec_to_raw(self@),
    {
        let mut bytes: Vec<u8> = Vec::new();
        write_u64(&mut bytes, self.player_id);
        write_u16(&mut bytes, self.vehicle_id);
        assert(bytes@ =~= Self::spec_to_raw(self@));
        Ok(bytes)
    }

    /// Decoding the payload of a packet gives the packet.
    pub proof fn lemma_round_trip(v: VehicleDeletePacket)
        ensures
            Self::spec_from_raw(Self::spec_to_raw(v)) == Ok::<_, PacketDecodeError>(v),
    {
        let raw = Self::spec_to_raw(v);
        lemma_le64_of_bytes64(v.player_id);
        lemma_le16_of_bytes16(v.vehicle_id);
        assert(raw.subrange(0, 8) =~= bytes64(v.player_id));
        assert(raw.subrange(8, 10) =~= bytes16(v.vehicle_id));
    }

    /// A payload that decodes is the payload of what it decodes to.
    pub proof fn lemma_payload_unique(data: Seq<u8>)
        requires
            Self::spec_from_raw(data) is Ok,
        ensures
            Self::spec_to_raw(Self::spec_from_raw(data)->Ok_0) == data,
    {
        lemma_bytes64_of_le64(data.subrange(0, 8));
        lemma_bytes16_of_le16(data.subrange(8, 10));
        assert(data.subrange(0, 8) + data.subrange(8, 10) =~= data);
    }
}

/// Moves a vehicle of a player.
///
/// Payload: `player_id`, eight bytes, and `vehicle_id`, two bytes, both
/// little-endian; then `transform` in UTF-8.
#[derive(Clone, Debug, PartialEq, Eq)]
pub struct VehicleTransformPacket {
    pub player_id: u64,
    pub vehicle_id: u16,
    pub transform: String,
}

/// A `VehicleTransformPacket` with its text as a sequence of characters.
pub struct VehicleTransformPacketView {
    pub player_id: u64,
    pub vehicle_id: u16,
    pub transform: Seq<char>,
}

impl View for VehicleTransformPacket {
    type V = VehicleTransformPacketView;

    open spec fn view(&self) -> VehicleTransformPacketView {
        VehicleTransformPacketView {
            player_id: self.player_id,
            vehicle_id: self.vehicle_id,
            transform: self.transform@,
        }
    }
}

impl VehicleTransformPacket {
    /// What a payload decodes to.
    pub open spec fn spec_from_raw(data: Seq<u8>) -> Result<
        VehicleTransformPacketView,
        PacketDecodeError,
    > {
        if data.len() < 10 {
            Err(PacketDecodeError::UnexpectedEof)
        } else if !valid_utf8(data.skip(10)) {
            Err(PacketDecodeError::InvalidString)
        } else {
            Ok(
                VehicleTransformPacketView {
                    player_id: le64(data.subrange(0, 8)) as u64,
                    vehicle_id: le16(data.subrange(8, 10)) as u16,
                    transform: decode_utf8(data.skip(10)),
                },
            )
        }
    }

    /// The payload of a packet.
    pub open spec fn spec_to_raw(v: VehicleTransformPacketView) -> Seq<u8> {
        bytes64(v.player_id) + bytes16(v.vehicle_id) + encode_utf8(v.transform)
    }

    /// Decodes a payload.
    pub fn from_raw(packet_data: Vec<u8>) -> (r: Result<Self, PacketDecodeError>)
        ensures
            decoded_view(r) == Self::spec_from_raw(packet_data@),
    {
        if packet_data.len() < 10 {
            return Err(PacketDecodeError::UnexpectedEof);
        }
        let pd = packet_data.as_slice();
        let player_id = read_u64(pd, 0);
        let vehicle_id = read_u16(pd, 8);
        proof {
            lemma_bytes64_of_le64(packet_data@.subrange(0, 8));
        }
        match utf8_string(pd, 10) {
            Some(transform) => Ok(Self { player_id, vehicle_id, transform }),
            None => Err(PacketDecodeError::InvalidString),
        }
    }

    /// Encodes the packet.
    pub fn to_raw(&self) -> (r: Result<Vec<u8>, PacketEncodeError>)
        ensures
            r matches Ok(raw) && raw@ == Self::spec_to_raw(self@),
    {
        let mut bytes: Vec<u8> = Vec::new();
        write_u64(&mut bytes, self.player_id);
        write_u16(&mut bytes, self.vehicle_id);
        write_utf8(&mut bytes, self.transform.as_str());
        assert(bytes@ =~= Self::spec_to_raw(self@));
        Ok(bytes)
    }

    /// Decoding the payload of a packet gives the packet.
    pub proof fn lemma_round_trip(v: VehicleTransformPacketView)
        ensures
            Self::spec_from_raw(Self::spec_to_raw(v)) == Ok::<_, PacketDecodeError>(v),
    {
        let raw = Self::spec_to_raw(v);
        lemma_le64_of_bytes64(v.player_id);
        lemma_le16_of_bytes16(v.vehicle_id);
        vstd::utf8::encode_utf8_valid_utf8(v.transform);
        vstd::utf8::encode_utf8_decode_utf8(v.transform);
        assert(raw.subrange(0, 8) =~= bytes64(v.player_id));
        assert(raw.subrange(8, 10) =~= bytes16(v.vehicle_id));
        assert(raw.skip(10) =~= encode_utf8(v.transform));
    }

    /// A payload that decodes is the payload of what it decodes to.
    pub proof fn lemma_payload_unique(data: Seq<u8>)
        requires
            Self::spec_from_raw(data) is Ok,
        ensures
            Self::spec_to_raw(Self::spec_from_raw(data)->Ok_0) == data,
    {
        lemma_bytes64_of_le64(data.subrange(0, 8));
        lemma_bytes16_of_le16(data.subrange(8, 10));
        vstd::utf8::decode_utf8_encode_utf8(data.skip(10));
        assert(data.subrange(0, 8) + data.subrange(8, 10) + data.skip(10) =~= data);
    }
}

/// Reports the state of a vehicle of a player.
///
/// Payload: `player_id`, eight bytes, `vehicle_id`, two bytes, and `ms`,
/// four bytes, all little-endian; then `runtime_data` in UTF-8.
#[derive(Clone, Debug, Default, PartialEq, Eq)]
pub struct VehicleUpdatePacket {
    pub player_id: u64,
    pub vehicle_id: u16,
    pub ms: u32,
    pub runtime_data: String,
}

/// A `VehicleUpdatePacket` with its text as a sequence of characters.
pub struct VehicleUpdatePacketView {
    pub player_id: u64,
    pub vehicle_id: u16,
    pub ms: u32,
    pub runtime_data: Seq<char>,
}

impl View for VehicleUpdatePacket {
    type V = VehicleUpdatePacketView;

    open spec fn view(&self) -> VehicleUpdatePacketView {
        VehicleUpdatePacketView {
            player_id: self.player_id,
            vehicle_id: self.vehicle_id,
            ms: self.ms,
            runtime_data: self.runtime_data@,
        }
    }
}

impl VehicleUpdatePacket {
    /// What a payload decodes to.
    pub open spec fn spec_from_raw(data: Seq<u8>) -> Result<
        VehicleUpdatePacketView,
        PacketDecodeError,
    > {
        if data.len() < 14 {
            Err(PacketDecodeError::UnexpectedEof)
        } else if !valid_utf8(data.skip(14)) {
            Err(PacketDecodeError::InvalidString)
        } else {
            Ok(
                VehicleUpdatePacketView {
                    player_id: le64(data.subrange(0, 8)) as u64,
                    vehicle_id: le16(data.subrange(8, 10)) as u16,
                    ms: le32(data.subrange(10, 14)) as u32,
                    runtime_data: decode_utf8(data.skip(14)),
                },
            )
        }
    }

    /// The payload of a packet.
    pub open spec fn spec_to_raw(v: VehicleUpdatePacketView) -> Seq<u8> {
        bytes64(v.player_id) + bytes16(v.vehicle_id) + bytes32(v.ms) + encode_utf8(v.runtime_data)
    }

    /// Decodes a payload.
    pub fn from_raw(packet_data: Vec<u8>) -> (r: Result<Self, PacketDecodeError>)
        ensures
            decoded_view(r) == Self::spec_from_raw(packet_data@),
    {
        if packet_data.len() < 14 {
            return Err(PacketDecodeError::UnexpectedEof);
        }
        let pd = packet_data.as_slice();
        let player_id = read_u64(pd, 0);
        let vehicle_id = read_u16(pd, 8);
        let ms = read_u32(pd, 10);
        proof {
            lemma_bytes64_of_le64(packet_data@.subrange(0, 8));
            lemma_bytes32_of_le32(packet_data@.subrange(10, 14));
        }
        match utf8_string(pd, 14) {
            Some(runtime_data) => Ok(Self { player_id, vehicle_id, ms, runtime_data }),
            None => Err(PacketDecodeError::InvalidString),
        }
    }

    /// Encodes the packet.
    pub fn to_raw(&self) -> (r: Result<Vec<u8>, PacketEncodeError>)
        ensures
            r matches Ok(raw) && raw@ == Self::spec_to_raw(self@),
    {
        let mut bytes: Vec<u8> = Vec::new();
        write_u64(&mut bytes, self.player_id);
        write_u16(&mut bytes, self.vehicle_id);
        write_u32(&mut bytes, self.ms);
        write_utf8(&mut bytes, self.runtime_data.as_str());
        assert(bytes@ =~= Self::spec_to_raw(self@));
        Ok(bytes)
    }

    /// Decoding the payload of a packet gives the packet.
    pub proof fn lemma_round_trip(v: VehicleUpdatePacketView)
        ensures
            Self::spec_from_raw(Self::spec_to_raw(v)) == Ok::<_, PacketDecodeError>(v),
    {
        let raw = Self::spec_to_raw(v);
        lemma_le64_of_bytes64(v.player_id);
        lemma_le16_of_bytes16(v.vehicle_id);
        lemma_le32_of_bytes32(v.ms);
        vstd::utf8::encode_utf8_valid_utf8(v.runtime_data);
        vstd::utf8::encode_utf8_decode_utf8(v.runtime_data);
        assert(raw.subrange(0, 8) =~= bytes64(v.player_id));
        assert(raw.subrange(8, 10) =~= bytes16(v.vehicle_id));
        assert(raw.subrange(10, 14) =~= bytes32(v.ms));
        assert(raw.skip(14) =~= encode_utf8(v.runtime_data));
    }

    /// A payload that decodes is the payload of what it decodes to.
    pub proof fn lemma_payload_unique(data: Seq<u8>)
        requires
            Self::spec_from_raw(data) is Ok,
        ensures
            Self::spec_to_raw(Self::spec_from_raw(data)->Ok_0) == data,
    {
        lemma_bytes64_of_le64(data.subrange(0, 8));
        lemma_bytes16_of_le16(data.subrange(8, 10));
        lemma_bytes32_of_le32(data.subrange(10, 14));
        vstd::utf8::decode_utf8_encode_utf8(data.skip(14));
        assert(data.subrange(0, 8) + data.subrange(8, 10) + data.subrange(10, 14) + data.skip(14)
            =~= data);
    }
}

} // verus!
