//! A simulated node and the network it is part of.
pub mod config;
pub mod connectivity;
pub mod event_chain;
pub mod label;
pub mod label_map;
pub mod laws;
pub mod listener;
pub mod order;
pub mod peer;
pub mod random;
pub mod reachability;
pub mod sim_network;
