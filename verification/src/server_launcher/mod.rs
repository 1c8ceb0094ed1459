//! The catalogue of the hop between launcher and game server.
//!
//! | signature | packet | payload |
//! |---|---|---|
//! | `CC` | `Confirmation` | binary |
//! | `VC` | `Version` | binary |
//! | `AC` | `Authentication` | binary |
//! | `HI` | `ServerInfo` | binary |
//! | `LM` | `LoadMap` | binary |
//! | `PL` | `PlayerData` | JSON text |
//! | `VS` | `VehicleSpawn` | JSON text |
//! | `VA` | `VehicleConfirm` | binary |
//! | `VD` | `VehicleDelete` | binary |
//! | `VT` | `VehicleTransform` | binary |
//! | `VU` | `VehicleUpdate` | binary |
//!
//! A payload that is a JSON document is carried as its text: the catalogue
//! sees to it that the text is valid UTF-8, and leaves its meaning to the
//! caller's JSON codec.

use vstd::prelude::*;
use vstd::utf8::encode_utf8;
use crate::wire::{
    is_latin1, lemma_text_payload_unique, lemma_text_round_trip, spec_text_from_raw, utf8_string,
    write_utf8,
};
use crate::{decoded_view, encoded_view, PacketDecodeError, PacketEncodeError, PacketTrait};
use self::gameplay::{
    VehicleConfirmPacket, VehicleDeletePacket, VehicleTransformPacket, VehicleTransformPacketView,
    VehicleUpdatePacket, VehicleUpdatePacketView,
};
use self::generic::ConfirmationPacket;
use self::handshake::{AuthenticationPacket, AuthenticationPacketView, VersionPacket};
use self::serverinfo::{LoadMapPacket, LoadMapPacketView, ServerInfoPacket};

pub mod generic;
pub mod handshake;
pub mod serverinfo;
pub mod gameplay;

verus! {

/// A packet of the hop between launcher and game server.
#[derive(Clone, Debug, PartialEq, Eq)]
pub enum Packet {
    Confirmation(ConfirmationPacket),
    Version(VersionPacket),
    Authentication(AuthenticationPacket),
    ServerInfo(ServerInfoPacket),
    LoadMap(LoadMapPacket),
    /// The player roster, as the text of its JSON document.
    PlayerData(String),
    /// A vehicle to spawn, as the text of its JSON document.
    VehicleSpawn(String),
    VehicleConfirm(VehicleConfirmPacket),
    VehicleDelete(VehicleDeletePacket),
    VehicleTransform(VehicleTransformPacket),
    VehicleUpdate(VehicleUpdatePacket),
}

/// A `Packet` with every text as a sequence of characters.
pub enum PacketView {
    Confirmation(ConfirmationPacket),
    Version(VersionPacket),
    Authentication(AuthenticationPacketView),
    ServerInfo(ServerInfoPacket),
    LoadMap(LoadMapPacketView),
    PlayerData(Seq<char>),
    VehicleSpawn(Seq<char>),
    VehicleConfirm(VehicleConfirmPacket),
    VehicleDelete(VehicleDeletePacket),
    VehicleTransform(VehicleTransformPacketView),
    VehicleUpdate(VehicleUpdatePacketView),
}

impl View for Packet {
    type V = PacketView;

    open spec fn view(&self) -> PacketView {
        match self {
            Packet::Confirmation(p) => PacketView::Confirmation(p@),
            Packet::Version(p) => PacketView::Version(p@),
            Packet::Authentication(p) => PacketView::Authentication(p@),
            Packet::ServerInfo(p) => PacketView::ServerInfo(p@),
            Packet::LoadMap(p) => PacketView::LoadMap(p@),
            Packet::PlayerData(text) => PacketView::PlayerData(text@),
            Packet::VehicleSpawn(text) => PacketView::VehicleSpawn(text@),
            Packet::VehicleConfirm(p) => PacketView::VehicleConfirm(p@),
            Packet::VehicleDelete(p) => PacketView::VehicleDelete(p@),
            Packet::VehicleTransform(p) => PacketView::VehicleTransform(p@),
            Packet::VehicleUpdate(p) => PacketView::VehicleUpdate(p@),
        }
    }
}

/// The result of decoding a payload, put into its variant of the catalogue.
pub open spec fn wrap<P>(r: Result<P, PacketDecodeError>, variant: spec_fn(P) -> PacketView) -> Result<
    PacketView,
    PacketDecodeError,
> {
    match r {
        Ok(p) => Ok(variant(p)),
        Err(e) => Err(e),
    }
}

impl PacketTrait for Packet {
    open spec fn spec_from_raw(sig_a: char, sig_b: char, data: Seq<u8>) -> Result<
        PacketView,
        PacketDecodeError,
    > {
        if sig_a == 'C' && sig_b == 'C' {
            wrap(ConfirmationPacket::spec_from_raw(data), |p| PacketView::Confirmation(p))
        } else if sig_a == 'V' && sig_b == 'C' {
            wrap(VersionPacket::spec_from_raw(data), |p| PacketView::Version(p))
        } else if sig_a == 'A' && sig_b == 'C' {
            wrap(AuthenticationPacket::spec_from_raw(data), |p| PacketView::Authentication(p))
        } else if sig_a == 'H' && sig_b == 'I' {
            wrap(ServerInfoPacket::spec_from_raw(data), |p| PacketView::ServerInfo(p))
        } else if sig_a == 'L' && sig_b == 'M' {
            wrap(LoadMapPacket::spec_from_raw(data), |p| PacketView::LoadMap(p))
        } else if sig_a == 'P' && sig_b == 'L' {
            wrap(
                spec_text_from_raw(data, PacketDecodeError::InvalidString),
                |t| PacketView::PlayerData(t),
            )
        } else if sig_a == 'V' && sig_b == 'S' {
            wrap(
                spec_text_from_raw(data, PacketDecodeError::InvalidString),
                |t| PacketView::VehicleSpawn(t),
            )
        } else if sig_a == 'V' && sig_b == 'A' {
            wrap(VehicleConfirmPacket::spec_from_raw(data), |p| PacketView::VehicleConfirm(p))
        } else if sig_a == 'V' && sig_b == 'D' {
            wrap(VehicleDeletePacket::spec_from_raw(data), |p| PacketView::VehicleDelete(p))
        } else if sig_a == 'V' && sig_b == 'T' {
            wrap(VehicleTransformPacket::spec_from_raw(data), |p| PacketView::VehicleTransform(p))
        } else if sig_a == 'V' && sig_b == 'U' {
            wrap(VehicleUpdatePacket::spec_from_raw(data), |p| PacketView::VehicleUpdate(p))
        } else {
            Err(PacketDecodeError::UnknownPacket(sig_a, sig_b))
        }
    }

    open spec fn spec_to_raw(v: PacketView) -> Result<(char, char, Seq<u8>), PacketEncodeError> {
        Ok(
            match v {
                PacketView::Confirmation(p) => ('C', 'C', ConfirmationPacket::spec_to_raw(p)),
                PacketView::Version(p) => ('V', 'C', VersionPacket::spec_to_raw(p)),
                PacketView::Authentication(p) => ('A', 'C', AuthenticationPacket::spec_to_raw(p)),
                PacketView::ServerInfo(p) => ('H', 'I', ServerInfoPacket::spec_to_raw(p)),
                PacketView::LoadMap(p) => ('L', 'M', LoadMapPacket::spec_to_raw(p)),
                PacketView::PlayerData(text) => ('P', 'L', encode_utf8(text)),
                PacketView::VehicleSpawn(text) => ('V', 'S', encode_utf8(text)),
                PacketView::VehicleConfirm(p) => ('V', 'A', VehicleConfirmPacket::spec_to_raw(p)),
                PacketView::VehicleDelete(p) => ('V', 'D', VehicleDeletePacket::spec_to_raw(p)),
                PacketView::VehicleTransform(p) => (
                    'V',
                    'T',
                    VehicleTransformPacket::spec_to_raw(p),
                ),
                PacketView::VehicleUpdate(p) => ('V', 'U', VehicleUpdatePacket::spec_to_raw(p)),
            },
        )
    }

    fn from_raw(sig_a: char, sig_b: char, packet_data: Vec<u8>) -> (r: Result<
        Self,
        PacketDecodeError,
    >) {
        match (sig_a, sig_b) {
            ('C', 'C') => match ConfirmationPacket::from_raw(packet_data) {
                Ok(p) => Ok(Self::Confirmation(p)),
                Err(e) => Err(e),
            },
            ('V', 'C') => match VersionPacket::from_raw(packet_data) {
                Ok(p) => Ok(Self::Version(p)),
                Err(e) => Err(e),
            },
            ('A', 'C') => match AuthenticationPacket::from_raw(packet_data) {
                Ok(p) => Ok(Self::Authentication(p)),
                Err(e) => Err(e),
            },
            ('H', 'I') => match ServerInfoPacket::from_raw(packet_data) {
                Ok(p) => Ok(Self::ServerInfo(p)),
                Err(e) => Err(e),
            },
            ('L', 'M') => match LoadMapPacket::from_raw(packet_data) {
                Ok(p) => Ok(Self::LoadMap(p)),
                Err(e) => Err(e),
            },
            ('P', 'L') => match text_from_raw(packet_data) {
                Ok(text) => Ok(Self::PlayerData(text)),
                Err(e) => Err(e),
            },
            ('V', 'S') => match text_from_raw(packet_data) {
                Ok(text) => Ok(Self::VehicleSpawn(text)),
                Err(e) => Err(e),
            },
            ('V', 'A') => match VehicleConfirmPacket::from_raw(packet_data) {
                Ok(p) => Ok(Self::VehicleConfirm(p)),
                Err(e) => Err(e),
            },
            ('V', 'D') => match VehicleDeletePacket::from_raw(packet_data) {
                Ok(p) => Ok(Self::VehicleDelete(p)),
                Err(e) => Err(e),
            },
            ('V', 'T') => match VehicleTransformPacket::from_raw(packet_data) {
                Ok(p) => Ok(Self::VehicleTransform(p)),
                Err(e) => Err(e),
            },
            ('V', 'U') => match VehicleUpdatePacket::from_raw(packet_data) {
                Ok(p) => Ok(Self::VehicleUpdate(p)),
                Err(e) => Err(e),
            },
            _ => Err(PacketDecodeError::UnknownPacket(sig_a, sig_b)),
        }
    }

    fn to_raw(&self) -> (r: Result<(char, char, Vec<u8>), PacketEncodeError>) {
        match self {
            Self::Confirmation(p) => Ok(('C', 'C', p.to_raw()?)),
            Self::Version(p) => Ok(('V', 'C', p.to_raw()?)),
            Self::Authentication(p) => Ok(('A', 'C', p.to_raw()?)),
            Self::ServerInfo(p) => Ok(('H', 'I', p.to_raw()?)),
            Self::LoadMap(p) => Ok(('L', 'M', p.to_raw()?)),
            Self::PlayerData(text) => Ok(('P', 'L', text_to_raw(text))),
            Self::VehicleSpawn(text) => Ok(('V', 'S', text_to_raw(text))),
            Self::VehicleConfirm(p) => Ok(('V', 'A', p.to_raw()?)),
            Self::VehicleDelete(p) => Ok(('V', 'D', p.to_raw()?)),
            Self::VehicleTransform(p) => Ok(('V', 'T', p.to_raw()?)),
            Self::VehicleUpdate(p) => Ok(('V', 'U', p.to_raw()?)),
        }
    }
}

/// The text of a payload that is a JSON document.
fn text_from_raw(packet_data: Vec<u8>) -> (r: Result<String, PacketDecodeError>)
    ensures
        decoded_view(r) == spec_text_from_raw(packet_data@, PacketDecodeError::InvalidString),
{
    assert(packet_data@.skip(0) =~= packet_data@);
    match utf8_string(packet_data.as_slice(), 0) {
        Some(text) => Ok(text),
        None => Err(PacketDecodeError::InvalidString),
    }
}

/// The payload for the text of a JSON document.
fn text_to_raw(text: &String) -> (raw: Vec<u8>)
    ensures
        raw@ == encode_utf8(text@),
{
    let mut raw: Vec<u8> = Vec::new();
    write_utf8(&mut raw, text.as_str());
    assert(raw@ =~= encode_utf8(text@));
    raw
}

/// The packets that decoding gives back as they were encoded: all but an
/// `Authentication` whose code is empty or has a character of more than one
/// byte.
pub open spec fn round_trips(v: PacketView) -> bool {
    v matches PacketView::Authentication(p) ==> p.auth_code.len() > 0 && is_latin1(p.auth_code)
}

/// Round trip: decoding what a packet was encoded to gives the packet.
pub proof fn lemma_round_trip(v: PacketView)
    requires
        round_trips(v),
    ensures
        Packet::spec_to_raw(v) matches Ok((sig_a, sig_b, raw)) && Packet::spec_from_raw(
            sig_a,
            sig_b,
            raw,
        ) == Ok::<_, PacketDecodeError>(v),
{
    match v {
        PacketView::Confirmation(p) => ConfirmationPacket::lemma_round_trip(p),
        PacketView::Version(p) => VersionPacket::lemma_round_trip(p),
        PacketView::Authentication(p) => AuthenticationPacket::lemma_round_trip(p),
        PacketView::ServerInfo(p) => ServerInfoPacket::lemma_round_trip(p),
        PacketView::LoadMap(p) => LoadMapPacket::lemma_round_trip(p),
        PacketView::PlayerData(text) => lemma_text_round_trip(
            text,
            PacketDecodeError::InvalidString,
        ),
        PacketView::VehicleSpawn(text) => lemma_text_round_trip(
            text,
            PacketDecodeError::InvalidString,
        ),
        PacketView::VehicleConfirm(p) => VehicleConfirmPacket::lemma_round_trip(p),
        PacketView::VehicleDelete(p) => VehicleDeletePacket::lemma_round_trip(p),
        PacketView::VehicleTransform(p) => VehicleTransformPacket::lemma_round_trip(p),
        PacketView::VehicleUpdate(p) => VehicleUpdatePacket::lemma_round_trip(p),
    }
}

/// Encoding what a payload decoded to gives the signature and the payload.
pub proof fn lemma_payload_unique(sig_a: char, sig_b: char, data: Seq<u8>)
    requires
        Packet::spec_from_raw(sig_a, sig_b, data) is Ok,
    ensures
        Packet::spec_to_raw(Packet::spec_from_raw(sig_a, sig_b, data)->Ok_0) == Ok::<
            _,
            PacketEncodeError,
        >((sig_a, sig_b, data)),
{
    if sig_a == 'C' && sig_b == 'C' {
        ConfirmationPacket::lemma_payload_unique(data);
    } else if sig_a == 'V' && sig_b == 'C' {
        VersionPacket::lemma_payload_unique(data);
    } else if sig_a == 'A' && sig_b == 'C' {
        AuthenticationPacket::lemma_payload_unique(data);
    } else if sig_a == 'H' && sig_b == 'I' {
        ServerInfoPacket::lemma_payload_unique(data);
    } else if sig_a == 'L' && sig_b == 'M' {
        LoadMapPacket::lemma_payload_unique(data);
    } else if sig_a == 'P' && sig_b == 'L' {
        lemma_text_payload_unique(data, PacketDecodeError::InvalidString);
    } else if sig_a == 'V' && sig_b == 'S' {
        lemma_text_payload_unique(data, PacketDecodeError::InvalidString);
    } else if sig_a == 'V' && sig_b == 'A' {
        VehicleConfirmPacket::lemma_payload_unique(data);
    } else if sig_a == 'V' && sig_b == 'D' {
        VehicleDeletePacket::lemma_payload_unique(data);
    } else if sig_a == 'V' && sig_b == 'T' {
        VehicleTransformPacket::lemma_payload_unique(data);
    } else if sig_a == 'V' && sig_b == 'U' {
        VehicleUpdatePacket::lemma_payload_unique(data);
    }
}

} // verus!
