//! Messages exchanged with the server.

use vstd::prelude::*;

verus! {

/// A message to or from the server; positions are in thousandths of a world unit.
#[derive(Clone, Debug, PartialEq, Eq)]
pub enum ClientMessage {
    /// A player's position: reported by this client, relayed by the server.
    PlayerPosition { id: usize, x: i32, y: i32 },
    /// The identity the server gives this client when it joins.
    AssignPlayerId { id: usize },
    /// A player's chat message.
    UpdateMessage { id: usize, message: String },
    /// A player has left.
    OtherPlayerDisconnected { id: usize },
}

/// An inbound payload that could not be decoded into a message.
#[derive(Clone, Debug, PartialEq, Eq)]
pub struct DecodeError {
    pub reason: String,
}

} // verus!
