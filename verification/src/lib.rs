//! Verified core of a multi-instance TCP forwarding proxy.
//!
//! Each proxy instance listens on one address, filters inbound peers against
//! an optional allow-list, dials a fixed target for every permitted client,
//! and relays bytes unmodified in both directions while counting traffic.
//! This crate holds the data model, the address grammar, the filter, and the
//! per-connection state machines; the binary around it owns the sockets and
//! drives these machines with the events it observes.

pub mod addr;
pub mod config;
pub mod connection;
pub mod filter;
pub mod line_config;
pub mod relay;
pub mod service;
pub mod text;
