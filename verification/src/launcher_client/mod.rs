//! The catalogue of the hop between game client and launcher.
//!
//! | signature | packet | payload |
//! |---|---|---|
//! | `RL` | `ReloadLauncherConnection` | none |
//! | `CC` | `Confirmation` | JSON text |
//! | `CE` | `ConnectionError` | JSON text |
//! | `VC` | `Version` | JSON text |
//! | `CI` | `ClientInfo` | JSON text |
//! | `AI` | `AuthenticationInfo` | JSON text |
//! | `LR` | `LoginRequest` | none |
//! | `HJ` | `JoinServer` | JSON text |
//! | `LM` | `LoadMap` | JSON text |
//! | `PD` | `PlayerData` | JSON text |
//! | `VS` | `VehicleSpawn` | JSON text |
//! | `VA` | `VehicleConfirm` | JSON text |
//! | `VD` | `VehicleDelete` | JSON text |
//! | `VT` | `VehicleTransform` | JSON text |
//! | `VU` | `VehicleUpdate` | JSON text |
//!
//! A payload that is a JSON document is carried as its text: the catalogue
//! sees to it that the text is valid UTF-8, and leaves its meaning to the
//! caller's JSON codec. The modules below hold the values that the
//! documents spell.

use vstd::prelude::*;
use vstd::utf8::{decode_utf8, encode_utf8, valid_utf8};
use crate::wire::{utf8_string, write_utf8};
use crate::{PacketDecodeError, PacketEncodeError, PacketTrait};

pub mod gameplay;
pub mod generic;
pub mod handshake;

verus! {

/// The kind of a packet of this catalogue: what its signature says.
#[derive(Clone, Copy, Debug, PartialEq, Eq, Structural)]
pub enum PacketKind {
    ReloadLauncherConnection,
    Confirmation,
    ConnectionError,
    Version,
    ClientInfo,
    AuthenticationInfo,
    LoginRequest,
    JoinServer,
    LoadMap,
    PlayerData,
    VehicleSpawn,
    VehicleConfirm,
    VehicleDelete,
    VehicleTransform,
    VehicleUpdate,
}

impl PacketKind {
    /// The signature under which packets of this kind travel.
    pub open spec fn spec_signature(self) -> (char, char) {
        match self {
            PacketKind::ReloadLauncherConnection => ('R', 'L'),
            PacketKind::Confirmation => ('C', 'C'),
            PacketKind::ConnectionError => ('C', 'E'),
            PacketKind::Version => ('V', 'C'),
            PacketKind::ClientInfo => ('C', 'I'),
            PacketKind::AuthenticationInfo => ('A', 'I'),
            PacketKind::LoginRequest => ('L', 'R'),
            PacketKind::JoinServer => ('H', 'J'),
            PacketKind::LoadMap => ('L', 'M'),
            PacketKind::PlayerData => ('P', 'D'),
            PacketKind::VehicleSpawn => ('V', 'S'),
            PacketKind::VehicleConfirm => ('V', 'A'),
            PacketKind::VehicleDelete => ('V', 'D'),
            PacketKind::VehicleTransform => ('V', 'T'),
            PacketKind::VehicleUpdate => ('V', 'U'),
        }
    }

    /// The kind that travels under the signature `(sig_a, sig_b)`, if any.
    pub open spec fn spec_from_signature(sig_a: char, sig_b: char) -> Option<PacketKind> {
        if sig_a == 'R' && sig_b == 'L' {
            Some(PacketKind::ReloadLauncherConnection)
        } else if sig_a == 'C' && sig_b == 'C' {
            Some(PacketKind::Confirmation)
        } else if sig_a == 'C' && sig_b == 'E' {
            Some(PacketKind::ConnectionError)
        } else if sig_a == 'V' && sig_b == 'C' {
            Some(PacketKind::Version)
        } else if sig_a == 'C' && sig_b == 'I' {
            Some(PacketKind::ClientInfo)
        } else if sig_a == 'A' && sig_b == 'I' {
            Some(PacketKind::AuthenticationInfo)
        } else if sig_a == 'L' && sig_b == 'R' {
            Some(PacketKind::LoginRequest)
        } else if sig_a == 'H' && sig_b == 'J' {
            Some(PacketKind::JoinServer)
        } else if sig_a == 'L' && sig_b == 'M' {
            Some(PacketKind::LoadMap)
        } else if sig_a == 'P' && sig_b == 'D' {
            Some(PacketKind::PlayerData)
        } else if sig_a == 'V' && sig_b == 'S' {
            Some(PacketKind::VehicleSpawn)
        } else if sig_a == 'V' && sig_b == 'A' {
            Some(PacketKind::VehicleConfirm)
        } else if sig_a == 'V' && sig_b == 'D' {
            Some(PacketKind::VehicleDelete)
        } else if sig_a == 'V' && sig_b == 'T' {
            Some(PacketKind::VehicleTransform)
        } else if sig_a == 'V' && sig_b == 'U' {
            Some(PacketKind::VehicleUpdate)
        } else {
            None
        }
    }

    /// Packets of this kind have a JSON document as payload; those of the
    /// other kinds have none.
    pub open spec fn spec_has_document(self) -> bool {
        !(self is ReloadLauncherConnection || self is LoginRequest)
    }

    /// The signature under which packets of this kind travel.
    pub fn signature(self) -> (sig: (char, char))
        ensures
            sig == self.spec_signature(),
    {
        match self {
            PacketKind::ReloadLauncherConnection => ('R', 'L'),
            PacketKind::Confirmation => ('C', 'C'),
            PacketKind::ConnectionError => ('C', 'E'),
            PacketKind::Version => ('V', 'C'),
            PacketKind::ClientInfo => ('C', 'I'),
            PacketKind::AuthenticationInfo => ('A', 'I'),
            PacketKind::LoginRequest => ('L', 'R'),
            PacketKind::JoinServer => ('H', 'J'),
            PacketKind::LoadMap => ('L', 'M'),
            PacketKind::PlayerData => ('P', 'D'),
            PacketKind::VehicleSpawn => ('V', 'S'),
            PacketKind::VehicleConfirm => ('V', 'A'),
            PacketKind::VehicleDelete => ('V', 'D'),
            PacketKind::VehicleTransform => ('V', 'T'),
            PacketKind::VehicleUpdate => ('V', 'U'),
        }
    }

    /// The kind that travels under the signature `(sig_a, sig_b)`, if any.
    pub fn from_signature(sig_a: char, sig_b: char) -> (kind: Option<PacketKind>)
        ensures
            kind == Self::spec_from_signature(sig_a, sig_b),
    {
        match (sig_a, sig_b) {
            ('R', 'L') => Some(PacketKind::ReloadLauncherConnection),
            ('C', 'C') => Some(PacketKind::Confirmation),
            ('C', 'E') => Some(PacketKind::ConnectionError),
            ('V', 'C') => Some(PacketKind::Version),
            ('C', 'I') => Some(PacketKind::ClientInfo),
            ('A', 'I') => Some(PacketKind::AuthenticationInfo),
            ('L', 'R') => Some(PacketKind::LoginRequest),
            ('H', 'J') => Some(PacketKind::JoinServer),
            ('L', 'M') => Some(PacketKind::LoadMap),
            ('P', 'D') => Some(PacketKind::PlayerData),
            ('V', 'S') => Some(PacketKind::VehicleSpawn),
            ('V', 'A') => Some(PacketKind::VehicleConfirm),
            ('V', 'D') => Some(PacketKind::VehicleDelete),
            ('V', 'T') => Some(PacketKind::VehicleTransform),
            ('V', 'U') => Some(PacketKind::VehicleUpdate),
            _ => None,
        }
    }

    /// Whether packets of this kind have a JSON document as payload.
    pub fn has_document(self) -> (b: bool)
        ensures
            b == self.spec_has_document(),
    {
        match self {
            PacketKind::ReloadLauncherConnection | PacketKind::LoginRequest => false,
            _ => true,
        }
    }

    /// No two kinds share a signature.
    pub proof fn lemma_signature_unique(a: PacketKind, b: PacketKind)
        requires
            a.spec_signature() == b.spec_signature(),
        ensures
            a == b,
    {
    }

    /// The kind under the signature of a kind is that kind.
    pub proof fn lemma_from_signature(kind: PacketKind)
        ensures
            Self::spec_from_signature(kind.spec_signature().0, kind.spec_signature().1) == Some(
                kind,
            ),
    {
    }

    /// A kind that is found under a signature has that signature.
    pub proof fn lemma_signature_found(sig_a: char, sig_b: char)
        ensures
            Self::spec_from_signature(sig_a, sig_b) matches Some(kind) ==> kind.spec_signature()
                == (sig_a, sig_b),
    {
    }
}

/// A packet of the hop between game client and launcher: its kind and, for
/// the kinds that have one, the text of its JSON document.
#[derive(Clone, Debug, PartialEq, Eq)]
pub enum Packet {
    ReloadLauncherConnection,
    Confirmation(String),
    ConnectionError(String),
    Version(String),
    ClientInfo(String),
    AuthenticationInfo(String),
    LoginRequest,
    JoinServer(String),
    LoadMap(String),
    PlayerData(String),
    VehicleSpawn(String),
    VehicleConfirm(String),
    VehicleDelete(String),
    VehicleTransform(String),
    VehicleUpdate(String),
}

/// A `Packet` as its kind and the characters of its document; a packet
/// without document has no characters.
pub struct PacketView {
    pub kind: PacketKind,
    pub document: Seq<char>,
}

impl View for Packet {
    type V = PacketView;

    open spec fn view(&self) -> PacketView {
        match self {
            Packet::ReloadLauncherConnection => PacketView {
                kind: PacketKind::ReloadLauncherConnection,
                document: Seq::empty(),
            },
            Packet::Confirmation(t) => PacketView { kind: PacketKind::Confirmation, document: t@ },
            Packet::ConnectionError(t) => PacketView {
                kind: PacketKind::ConnectionError,
                document: t@,
            },
            Packet::Version(t) => PacketView { kind: PacketKind::Version, document: t@ },
            Packet::ClientInfo(t) => PacketView { kind: PacketKind::ClientInfo, document: t@ },
            Packet::AuthenticationInfo(t) => PacketView {
                kind: PacketKind::AuthenticationInfo,
                document: t@,
            },
            Packet::LoginRequest => PacketView {
                kind: PacketKind::LoginRequest,
                document: Seq::empty(),
            },
            Packet::JoinServer(t) => PacketView { kind: PacketKind::JoinServer, document: t@ },
            Packet::LoadMap(t) => PacketView { kind: PacketKind::LoadMap, document: t@ },
            Packet::PlayerData(t) => PacketView { kind: PacketKind::PlayerData, document: t@ },
            Packet::VehicleSpawn(t) => PacketView { kind: PacketKind::VehicleSpawn, document: t@ },
            Packet::VehicleConfirm(t) => PacketView {
                kind: PacketKind::VehicleConfirm,
                document: t@,
            },
            Packet::VehicleDelete(t) => PacketView { kind: PacketKind::VehicleDelete, document: t@ },
            Packet::VehicleTransform(t) => PacketView {
                kind: PacketKind::VehicleTransform,
                document: t@,
            },
            Packet::VehicleUpdate(t) => PacketView { kind: PacketKind::VehicleUpdate, document: t@ },
        }
    }
}

impl Packet {
    /// The packet of the kind `kind` with the document `text`. For a kind
    /// without document the text is dropped.
    pub fn new(kind: PacketKind, text: String) -> (packet: Packet)
        ensures
            packet@.kind == kind,
            packet@.document == if kind.spec_has_document() {
                text@
            } else {
                Seq::<char>::empty()
            },
    {
        match kind {
            PacketKind::ReloadLauncherConnection => Packet::ReloadLauncherConnection,
            PacketKind::Confirmation => Packet::Confirmation(text),
            PacketKind::ConnectionError => Packet::ConnectionError(text),
            PacketKind::Version => Packet::Version(text),
            PacketKind::ClientInfo => Packet::ClientInfo(text),
            PacketKind::AuthenticationInfo => Packet::AuthenticationInfo(text),
            PacketKind::LoginRequest => Packet::LoginRequest,
            PacketKind::JoinServer => Packet::JoinServer(text),
            PacketKind::LoadMap => Packet::LoadMap(text),
            PacketKind::PlayerData => Packet::PlayerData(text),
            PacketKind::VehicleSpawn => Packet::VehicleSpawn(text),
            PacketKind::VehicleConfirm => Packet::VehicleConfirm(text),
            PacketKind::VehicleDelete => Packet::VehicleDelete(text),
            PacketKind::VehicleTransform => Packet::VehicleTransform(text),
            PacketKind::VehicleUpdate => Packet::VehicleUpdate(text),
        }
    }

    /// The kind of the packet.
    pub fn kind(&self) -> (kind: PacketKind)
        ensures
            kind == self@.kind,
    {
        match self {
            Packet::ReloadLauncherConnection => PacketKind::ReloadLauncherConnection,
            Packet::Confirmation(_) => PacketKind::Confirmation,
            Packet::ConnectionError(_) => PacketKind::ConnectionError,
            Packet::Version(_) => PacketKind::Version,
            Packet::ClientInfo(_) => PacketKind::ClientInfo,
            Packet::AuthenticationInfo(_) => PacketKind::AuthenticationInfo,
            Packet::LoginRequest => PacketKind::LoginRequest,
            Packet::JoinServer(_) => PacketKind::JoinServer,
            Packet::LoadMap(_) => PacketKind::LoadMap,
            Packet::PlayerData(_) => PacketKind::PlayerData,
            Packet::VehicleSpawn(_) => PacketKind::VehicleSpawn,
            Packet::VehicleConfirm(_) => PacketKind::VehicleConfirm,
            Packet::VehicleDelete(_) => PacketKind::VehicleDelete,
            Packet::VehicleTransform(_) => PacketKind::VehicleTransform,
            Packet::VehicleUpdate(_) => PacketKind::VehicleUpdate,
        }
    }

    /// The text of the packet's JSON document, if its kind has one.
    pub fn document(&self) -> (text: Option<&String>)
        ensures
            text is Some <==> self@.kind.spec_has_document(),
            text matches Some(t) ==> t@ == self@.document,
    {
        match self {
            Packet::ReloadLauncherConnection | Packet::LoginRequest => None,
            Packet::Confirmation(t)
            | Packet::ConnectionError(t)
            | Packet::Version(t)
            | Packet::ClientInfo(t)
            | Packet::AuthenticationInfo(t)
            | Packet::JoinServer(t)
            | Packet::LoadMap(t)
            | Packet::PlayerData(t)
            | Packet::VehicleSpawn(t)
            | Packet::VehicleConfirm(t)
            | Packet::VehicleDelete(t)
            | Packet::VehicleTransform(t)
            | Packet::VehicleUpdate(t) => Some(t),
        }
    }
}

impl PacketTrait for Packet {
    open spec fn spec_from_raw(sig_a: char, sig_b: char, data: Seq<u8>) -> Result<
        PacketView,
        PacketDecodeError,
    > {
        match PacketKind::spec_from_signature(sig_a, sig_b) {
            None => Err(PacketDecodeError::UnknownPacket(sig_a, sig_b)),
            Some(kind) => if !kind.spec_has_document() {
                if data.len() == 0 {
                    Ok(PacketView { kind, document: Seq::empty() })
                } else {
                    Err(
                        PacketDecodeError::InvalidDataSize {
                            expected: 0,
                            actual: data.len() as usize,
                        },
                    )
                }
            } else if valid_utf8(data) {
                Ok(PacketView { kind, document: decode_utf8(data) })
            } else {
                Err(PacketDecodeError::InvalidString)
            },
        }
    }

    open spec fn spec_to_raw(v: PacketView) -> Result<(char, char, Seq<u8>), PacketEncodeError> {
        Ok((v.kind.spec_signature().0, v.kind.spec_signature().1, encode_utf8(v.document)))
    }

    fn from_raw(sig_a: char, sig_b: char, packet_data: Vec<u8>) -> (r: Result<
        Self,
        PacketDecodeError,
    >) {
        match PacketKind::from_signature(sig_a, sig_b) {
            None => Err(PacketDecodeError::UnknownPacket(sig_a, sig_b)),
            Some(kind) => {
                if !kind.has_document() {
                    if packet_data.len() == 0 {
                        Ok(Packet::new(kind, String::new()))
                    } else {
                        Err(
                            PacketDecodeError::InvalidDataSize {
                                expected: 0,
                                actual: packet_data.len(),
                            },
                        )
                    }
                } else {
                    assert(packet_data@.skip(0) =~= packet_data@);
                    match utf8_string(packet_data.as_slice(), 0) {
                        Some(text) => Ok(Packet::new(kind, text)),
                        None => Err(PacketDecodeError::InvalidString),
                    }
                }
            },
        }
    }

    fn to_raw(&self) -> (r: Result<(char, char, Vec<u8>), PacketEncodeError>) {
        let (sig_a, sig_b) = self.kind().signature();
        let mut raw: Vec<u8> = Vec::new();
        match self.document() {
            Some(text) => {
                write_utf8(&mut raw, text.as_str());
                assert(raw@ =~= encode_utf8(self@.document));
            },
            None => {
                assert(encode_utf8(Seq::<char>::empty()) =~= Seq::<u8>::empty()) by {
                    reveal_with_fuel(encode_utf8, 1);
                }
            },
        }
        Ok((sig_a, sig_b, raw))
    }
}

/// The views of packets: a kind without document goes with no characters.
pub open spec fn well_formed(v: PacketView) -> bool {
    !v.kind.spec_has_document() ==> v.document.len() == 0
}

/// Round trip: decoding what a packet was encoded to gives the packet.
pub proof fn lemma_round_trip(v: PacketView)
    requires
        well_formed(v),
    ensures
        Packet::spec_to_raw(v) matches Ok((sig_a, sig_b, raw)) && Packet::spec_from_raw(
            sig_a,
            sig_b,
            raw,
        ) == Ok::<_, PacketDecodeError>(v),
{
    PacketKind::lemma_from_signature(v.kind);
    vstd::utf8::encode_utf8_valid_utf8(v.document);
    vstd::utf8::encode_utf8_decode_utf8(v.document);
    if !v.kind.spec_has_document() {
        assert(v.document =~= Seq::<char>::empty());
        assert(encode_utf8(v.document) =~= Seq::<u8>::empty()) by {
            reveal_with_fuel(encode_utf8, 1);
        }
    }
}

/// Encoding what a payload decoded to gives the signature and the payload.
pub proof fn lemma_payload_unique(sig_a: char, sig_b: char, data: Seq<u8>)
    requires
        Packet::spec_from_raw(sig_a, sig_b, data) is Ok,
    ensures
        Packet::spec_to_raw(Packet::spec_from_raw(sig_a, sig_b, data)->Ok_0) == Ok::<
            _,
            PacketEncodeError,
        >((sig_a, sig_b, data)),
{
    let kind = PacketKind::spec_from_signature(sig_a, sig_b)->0;
    PacketKind::lemma_signature_found(sig_a, sig_b);
    if kind.spec_has_document() {
        vstd::utf8::decode_utf8_encode_utf8(data);
    } else {
        assert(data =~= Seq::<u8>::empty());
        assert(encode_utf8(Seq::<char>::empty()) =~= Seq::<u8>::empty()) by {
            reveal_with_fuel(encode_utf8, 1);
        }
    }
}

/// Every packet has a well-formed view.
pub proof fn lemma_view_well_formed(packet: Packet)
    ensures
        well_formed(packet@),
{
}

} // verus!
