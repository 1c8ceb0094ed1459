//! Packets that belong to no particular phase of a session.

use vstd::prelude::*;
use crate::wire::{bytes16, le16, lemma_bytes16_of_le16, lemma_le16_of_bytes16, read_u16, write_u16};
use crate::{decoded_view, PacketDecodeError, PacketEncodeError};

verus! {

/// Acknowledges the request that carried `confirm_id`.
///
/// Payload: `confirm_id`, two bytes, little-endian.
#[derive(Clone, Copy, Debug, PartialEq, Eq, Structural)]
pub struct ConfirmationPacket {
    pub confirm_id: u16,
}

impl View for ConfirmationPacket {
    type V = ConfirmationPacket;

    open spec fn view(&self) -> ConfirmationPacket {
        *self
    }
}

impl ConfirmationPacket {
    /// What a payload decodes to.
    pub open spec fn spec_from_raw(data: Seq<u8>) -> Result<
        ConfirmationPacket,
        PacketDecodeError,
    > {
        if data.len() != 2 {
            Err(PacketDecodeError::InvalidDataSize { expected: 2, actual: data.len() as usize })
        } else {
            Ok(ConfirmationPacket { confirm_id: le16(data) as u16 })
        }
    }

    /// The payload of a packet.
    pub open spec fn spec_to_raw(v: ConfirmationPacket) -> Seq<u8> {
        bytes16(v.confirm_id)
    }

    /// Decodes a payload.
    pub fn from_raw(packet_data: Vec<u8>) -> (r: Result<Self, PacketDecodeError>)
        ensures
            decoded_view(r) == Self::spec_from_raw(packet_data@),
    {
        let data_len = packet_data.len();
        if data_len != 2 {
            return Err(PacketDecodeError::InvalidDataSize { expected: 2, actual: data_len });
        }
        let confirm_id = read_u16(packet_data.as_slice(), 0);
        assert(packet_data@.subrange(0, 2) =~= packet_data@);
        Ok(Self { confirm_id })
    }

    /// Encodes the packet.
    pub fn to_raw(&self) -> (r: Result<Vec<u8>, PacketEncodeError>)
        ensures
            r matches Ok(raw) && raw@ == Self::spec_to_raw(self@),
    {
        let mut buf: Vec<u8> = Vec::new();
        write_u16(&mut buf, self.confirm_id);
        assert(buf@ =~= bytes16(self.confirm_id));
        Ok(buf)
    }

    /// Decoding the payload of a packet gives the packet.
    pub proof fn lemma_round_trip(v: ConfirmationPacket)
        ensures
            Self::spec_from_raw(Self::spec_to_raw(v)) == Ok::<_, PacketDecodeError>(v),
    {
        lemma_le16_of_bytes16(v.confirm_id);
    }

    /// A payload that decodes is the payload of what it decodes to.
    pub proof fn lemma_payload_unique(data: Seq<u8>)
        requires
            Self::spec_from_raw(data) is Ok,
        ensures
            Self::spec_to_raw(Self::spec_from_raw(data)->Ok_0) == data,
    {
        lemma_bytes16_of_le16(data);
    }
}

} // verus!
