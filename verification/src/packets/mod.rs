//! The first catalogue of the hop between launcher and game server.
//!
//! | signature | packet |
//! |---|---|
//! | `HI` | `HttpInfo` |
//! | `ML` | `ModList` |
//! | `LM` | `LoadMap` |

use vstd::prelude::*;
use crate::wire::is_latin1;
use self::serverinfo::{
    no_separator, HttpInfoPacket, LoadMapPacket, LoadMapPacketView, ModListPacket,
    ModListPacketView,
};

pub mod serverinfo;

verus! {

/// Why a payload could not be turned into a packet of this catalogue.
#[derive(Clone, Copy, Debug, PartialEq, Eq, Structural)]
pub enum PacketDecodeError {
    UnknownPacket(char, char),
    InvalidDataSize { expected: usize, actual: usize },
}

/// Why a packet of this catalogue could not be turned into a payload.
#[derive(Clone, Copy, Debug, PartialEq, Eq, Structural)]
pub enum PacketEncodeError {
    Generic,
}

/// A packet of this catalogue.
#[derive(Clone, Debug, PartialEq, Eq)]
pub enum Packet {
    HttpInfo(HttpInfoPacket),
    ModList(ModListPacket),
    LoadMap(LoadMapPacket),
}

/// A `Packet` with every text as a sequence of characters.
pub enum PacketView {
    HttpInfo(HttpInfoPacket),
    ModList(ModListPacketView),
    LoadMap(LoadMapPacketView),
}

impl View for Packet {
    type V = PacketView;

    open spec fn view(&self) -> PacketView {
        match self {
            Packet::HttpInfo(p) => PacketView::HttpInfo(p@),
            Packet::ModList(p) => PacketView::ModList(p@),
            Packet::LoadMap(p) => PacketView::LoadMap(p@),
        }
    }
}

impl Packet {
    /// What the payload `data` under the signature `(sig_a, sig_b)` decodes to.
    pub open spec fn spec_from_raw(sig_a: char, sig_b: char, data: Seq<u8>) -> Result<
        PacketView,
        PacketDecodeError,
    > {
        if sig_a == 'H' && sig_b == 'I' {
            match HttpInfoPacket::spec_from_raw(data) {
                Ok(p) => Ok(PacketView::HttpInfo(p)),
                Err(e) => Err(e),
            }
        } else if sig_a == 'M' && sig_b == 'L' {
            Ok(PacketView::ModList(ModListPacket::spec_from_raw(data)))
        } else if sig_a == 'L' && sig_b == 'M' {
            Ok(PacketView::LoadMap(LoadMapPacket::spec_from_raw(data)))
        } else {
            Err(PacketDecodeError::UnknownPacket(sig_a, sig_b))
        }
    }

    /// The signature and payload that stand for the packet `v`.
    pub open spec fn spec_to_raw(v: PacketView) -> (char, char, Seq<u8>) {
        match v {
            PacketView::HttpInfo(p) => ('H', 'I', HttpInfoPacket::spec_to_raw(p)),
            PacketView::ModList(p) => ('M', 'L', ModListPacket::spec_to_raw(p)),
            PacketView::LoadMap(p) => ('L', 'M', LoadMapPacket::spec_to_raw(p)),
        }
    }

    /// Decodes the payload `packet_data` under the signature `(sig_a, sig_b)`.
    pub fn from_raw(sig_a: char, sig_b: char, packet_data: Vec<u8>) -> (r: Result<
        Self,
        PacketDecodeError,
    >)
        ensures
            match r {
                Ok(p) => Self::spec_from_raw(sig_a, sig_b, packet_data@) == Ok::<
                    _,
                    PacketDecodeError,
                >(p@),
                Err(e) => Self::spec_from_raw(sig_a, sig_b, packet_data@) == Err::<
                    PacketView,
                    _,
                >(e),
            },
    {
        match (sig_a, sig_b) {
            ('H', 'I') => Ok(Self::HttpInfo(HttpInfoPacket::from_raw(packet_data)?)),
            ('M', 'L') => Ok(Self::ModList(ModListPacket::from_raw(packet_data)?)),
            ('L', 'M') => Ok(Self::LoadMap(LoadMapPacket::from_raw(packet_data)?)),
            _ => Err(PacketDecodeError::UnknownPacket(sig_a, sig_b)),
        }
    }

    /// Encodes the packet.
    pub fn to_raw(self) -> (r: Result<(char, char, Vec<u8>), PacketEncodeError>)
        ensures
            r matches Ok((sig_a, sig_b, raw)) && (sig_a, sig_b, raw@) == Self::spec_to_raw(self@),
    {
        match self {
            Self::HttpInfo(p) => Ok(('H', 'I', p.to_raw()?)),
            Self::ModList(p) => Ok(('M', 'L', p.to_raw()?)),
            Self::LoadMap(p) => Ok(('L', 'M', p.to_raw()?)),
        }
    }
}

/// The packets that decoding gives back as they were encoded: those whose
/// names hold no character of more than one byte and, in a mod list, no `;`,
/// with the last name of a mod list not empty.
pub open spec fn round_trips(v: PacketView) -> bool {
    match v {
        PacketView::HttpInfo(_) => true,
        PacketView::ModList(p) => {
            &&& forall|i: int|
                0 <= i < p.mods.len() ==> no_separator(#[trigger] p.mods[i]) && is_latin1(
                    p.mods[i],
                )
            &&& p.mods.len() > 0 ==> p.mods.last().len() > 0
        },
        PacketView::LoadMap(p) => is_latin1(p.map_name),
    }
}

/// Round trip: decoding what a packet was encoded to gives the packet.
pub proof fn lemma_round_trip(v: PacketView)
    requires
        round_trips(v),
    ensures
        Packet::spec_from_raw(
            Packet::spec_to_raw(v).0,
            Packet::spec_to_raw(v).1,
            Packet::spec_to_raw(v).2,
        ) == Ok::<_, PacketDecodeError>(v),
{
    match v {
        PacketView::HttpInfo(p) => HttpInfoPacket::lemma_round_trip(p),
        PacketView::ModList(p) => ModListPacket::lemma_round_trip(p),
        PacketView::LoadMap(p) => LoadMapPacket::lemma_round_trip(p),
    }
}

} // verus!
