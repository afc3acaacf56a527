//! Peer discovery and message relay for a chat between the nodes of one
//! local network.
//!
//! Nodes announce themselves on a multicast group, open direct connections
//! to the peers they hear, and exchange text over them. This crate holds the
//! part that decides: the wire format, the set of live connections, the
//! discovery rules and the single-threaded actor that ties them together.
//! Sockets, threads and the user interface belong to the program around it,
//! which feeds the actor one event at a time and performs what it answers.

pub mod actor;
pub mod bridge;
pub mod codec;
pub mod consumer;
pub mod directory;
pub mod endpoint;
pub mod event;
pub mod laws;
pub mod message;
pub mod protocol;
pub mod registry;

pub use crate::actor::NetworkActor;
pub use crate::event::{Action, Event, NetEvent};
pub use crate::message::{InternalMessage, NetMessage};
