//! Core logic of haul: private encrypted file rooms.
//!
//! The document keys of a room index, the encryption frame of stored blobs,
//! the registry of joined rooms, the invite ticket text, and the decisions a node
//! takes on its key file and relay connection are modelled here and verified
//! against their contracts.

pub mod bytes;
pub mod command;
pub mod constants;
pub mod crypto;
pub mod identity;
pub mod index;
pub mod keys;
pub mod node;
pub mod room;
pub mod ticket;

pub use command::RoomCommand;
pub use room::{Room, RoomRegistry};
pub use ticket::RoomTicket;
