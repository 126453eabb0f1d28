//! A persistent client for a line-oriented chat protocol: wire framing, the
//! message codec, and the decisions of the connection, handshake and
//! supervision loops.
pub mod frame;
pub mod message;
pub mod connection;
pub mod client;
pub mod supervisor;
pub mod config;
pub mod plugins;
pub mod weather;
