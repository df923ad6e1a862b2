//! The transport side of a connection between two peers.
pub mod connection;
pub mod ids;
pub mod keep_alive;
pub mod laws;
pub mod message;
pub mod sending;
