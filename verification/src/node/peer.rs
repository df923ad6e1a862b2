//! What identifies a peer and where it is on the ring, as plain values.
use vstd::prelude::*;

use crate::transport::message::PeerAddr;

verus! {

/// The public key of a peer, as the two halves of its fingerprint.
#[derive(Debug, Clone, Copy, PartialEq, Eq, Hash, Structural)]
pub struct TransportPublicKey {
    /// The first sixteen bytes of the fingerprint.
    pub high: u128,
    /// The last sixteen bytes of the fingerprint.
    pub low: u128,
}

/// The keys of a peer. The secret one stays with the transport.
#[derive(Debug, Clone, Copy, PartialEq, Eq, Structural)]
pub struct TransportKeypair {
    /// The public key.
    pub public: TransportPublicKey,
}

/// A peer: its address and its key.
#[derive(Debug, Clone, Copy, PartialEq, Eq, Structural)]
pub struct PeerId {
    /// The address.
    pub addr: PeerAddr,
    /// The public key.
    pub pub_key: TransportPublicKey,
}

/// A place on the ring, as the bits of the number that it is.
#[derive(Debug, Clone, Copy, PartialEq, Eq, Structural)]
pub struct Location {
    /// The bits of a double precision number between zero and one.
    pub bits: u64,
}

/// A distance on the ring, as the bits of the number that it is.
#[derive(Debug, Clone, Copy, PartialEq, Eq, Structural)]
pub struct Distance {
    /// The bits of a double precision number.
    pub bits: u64,
}

/// A peer and its place on the ring.
#[derive(Debug, Clone, Copy, PartialEq, Eq, Structural)]
pub struct PeerKeyLocation {
    /// The peer.
    pub peer: PeerId,
    /// Its place, where it is known.
    pub location: Option<Location>,
}

} // verus!
