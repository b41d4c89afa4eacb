//! Connectivity core of a peer-to-peer node: the event-driven bootstrap,
//! registration and discovery state machine, the line command interface, and
//! the small parsers that sit between the node and its DHT collaborators.

mod bytes_util;
pub mod command;
pub mod node;
pub mod registry;
pub mod seeds;
pub mod service;
pub mod target;
mod text;
