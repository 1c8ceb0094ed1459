//! Packets of a running game: the player roster and the vehicles.
//!
//! Each travels as a JSON document. The catalogue carries the document as
//! text; these are the values that the text spells. The description of a
//! vehicle to spawn holds positions as floating-point numbers and has no
//! value here.

use vstd::prelude::*;

verus! {

/// One player of the roster.
#[derive(Clone, Debug, PartialEq, Eq)]
pub struct PlayerData {
    pub name: String,
    pub steam_id: String,
    pub avatar_hash: String,
}

/// The player roster.
#[derive(Clone, Debug, PartialEq, Eq)]
pub struct PlayerDataPacket {
    pub players: Vec<PlayerData>,
}

/// Confirms that a vehicle was spawned.
#[derive(Clone, Debug, PartialEq, Eq)]
pub struct VehicleConfirmPacket {
    pub confirm_id: u16,
    pub vehicle_id: u16,
    pub object_id: u32,
}

/// Removes a vehicle of a player.
#[derive(Clone, Debug, PartialEq, Eq)]
pub struct VehicleDeletePacket {
    pub steam_id: String,
    pub vehicle_id: u16,
}

/// Moves a vehicle of a player.
#[derive(Clone, Debug, PartialEq, Eq)]
pub struct VehicleTransformPacket {
    pub steam_id: String,
    pub vehicle_id: u16,
    pub transform: String,
}

/// Reports the state of a vehicle of a player.
#[derive(Clone, Debug, PartialEq, Eq)]
pub struct VehicleUpdatePacket {
    pub steam_id: String,
    pub vehicle_id: u16,
    pub runtime_data: String,
}

} // verus!
