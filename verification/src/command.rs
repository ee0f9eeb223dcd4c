use vstd::prelude::*;

verus! {

/// What to do with rooms.
#[derive(Debug, Clone)]
pub enum RoomCommand {
    /// Create a new room and print the invite ticket.
    Create { name: String },
    /// Join a room from an invite ticket.
    Join { ticket: String },
    /// Generate a new invite ticket for an existing room.
    Invite { room: String },
}

} // verus!
