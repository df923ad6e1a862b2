//! The side of a node that answers requests about contracts.
pub mod channel;
pub mod event;
pub mod laws;
pub mod rendering;
