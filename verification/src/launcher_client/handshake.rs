//! Packets of the handshake between game client and launcher.
//!
//! Each travels as a JSON document. The catalogue carries the document as
//! text; these are the values that the text spells.

use vstd::prelude::*;

verus! {

/// Announces the version of the protocol that the sender speaks.
#[derive(Clone, Debug, PartialEq, Eq)]
pub struct VersionPacket {
    pub protocol_version: u16,
}

/// Describes the game client.
#[derive(Clone, Debug, PartialEq, Eq)]
pub struct ClientInfoPacket {
    pub userfolder: String,
    pub client_version: u16,
}

/// Tells the client whether the player is signed in, and as whom.
#[derive(Clone, Debug, PartialEq, Eq)]
pub struct AuthenticationInfoPacket {
    pub success: bool,
    pub player_name: String,
    pub steam_id: String,
    pub avatar_hash: String,
}

} // verus!
