//! Entity/component replication between one authoritative host and its clients.
//!
//! The host scans its components for changes, turns each change into a
//! broadcast event and fans the events out to one bounded queue per
//! connection. A client drains its inbound queue once per tick, maps each
//! wire entity to a local one and stores the received component value.

pub mod animator;
pub mod bridge;
pub mod broadcast;
pub mod channel;
pub mod client;
pub mod components;
pub mod connections;
pub mod ids;
pub mod messages;
pub mod registry;
pub mod world;
