//! Packets that belong to no particular phase of a session.
//!
//! Each travels as a JSON document. The catalogue carries the document as
//! text; these are the values that the text spells.

use vstd::prelude::*;

verus! {

/// Acknowledges the request that carried `confirm_id`.
#[derive(Clone, Debug, PartialEq, Eq)]
pub struct ConfirmationPacket {
    pub confirm_id: u16,
}

/// Tells the client which game server to join.
#[derive(Clone, Debug, PartialEq, Eq)]
pub struct JoinServerPacket {
    pub ip_address: String,
}

/// Tells the client why its connection is refused or ended.
#[derive(Clone, Debug, PartialEq, Eq)]
pub struct ConnectionErrorPacket {
    pub error: String,
}

/// Tells the client which map to load.
#[derive(Clone, Debug, PartialEq, Eq)]
pub struct LoadMapPacket {
    pub confirm_id: u16,
    pub map_string: String,
}

} // verus!
