//! Addresses, messages and errors of a connection, as plain values.
use vstd::prelude::*;

use crate::transport::ids::StreamId;

verus! {

/// The socket address of a peer.
#[derive(Debug, Clone, Copy, PartialEq, Eq, Hash, Structural)]
pub enum PeerAddr {
    /// An IPv4 address, as the number that its four bytes make, and a port.
    V4 { ipv4: u32, port: u16 },
    /// An IPv6 address, as the number that its sixteen bytes make, a port, the flow
    /// information and the scope.
    V6 { ipv6: u128, port: u16, flowinfo: u32, scope_id: u32 },
}

/// What stops a connection or one of its operations.
#[derive(Debug)]
pub enum TransportError {
    /// The connection to this peer is closed.
    ConnectionClosed(PeerAddr),
    /// The remote peer refused the connection.
    ConnectionEstablishmentFailure { cause: String },
    /// A task of the connection could not be completed.
    Other(String),
}

/// What a packet carries besides its number and the receipts that it confirms.
#[derive(Debug)]
pub enum SymmetricMessagePayload {
    /// The answer of the remote peer to the request to connect, or why it refuses.
    AckConnection { result: Result<AckOk, String> },
    /// A message that fits in one packet.
    ShortMessage { payload: Vec<u8> },
    /// One fragment of a message that does not.
    StreamFragment {
        stream_id: StreamId,
        total_length_bytes: u64,
        fragment_number: u32,
        payload: Vec<u8>,
    },
    /// Nothing: a sign of life, or receipts alone.
    NoOp,
}

/// What a peer sends along when it accepts a connection.
#[derive(Debug, Clone, Copy)]
pub struct AckOk {
    /// The symmetric key under which the peer expects what is sent to it.
    pub key: [u8; 16],
    /// The address at which the peer sees the other side.
    pub remote_addr: PeerAddr,
}

/// A packet before it is encoded and encrypted.
#[derive(Debug)]
pub struct OutboundPacket {
    /// The number of the packet.
    pub packet_id: u32,
    /// What it carries.
    pub payload: SymmetricMessagePayload,
    /// The numbers of the packets whose arrival it confirms.
    pub confirm_receipt: Vec<u32>,
}

/// The sizes that the packet format imposes.
#[derive(Debug, Clone, Copy, PartialEq, Eq, Structural)]
pub struct PacketLimits {
    /// How many bytes of data a packet holds.
    pub packet_data_size: usize,
    /// How many bytes a short message needs beside its payload.
    pub short_message_overhead: usize,
    /// How many receipts fit in a packet that carries nothing else.
    pub max_noop_receipts: usize,
}

/// How many bytes of a packet are kept free for what describes a fragment of a stream.
pub const FRAGMENT_OVERHEAD: usize = 100;

impl PacketLimits {
    /// Whether a packet has room for more than what describes a fragment of a stream.
    pub open spec fn wf(self) -> bool {
        self.packet_data_size >= FRAGMENT_OVERHEAD
    }

    /// The largest payload of a single fragment.
    pub open spec fn max_data(self) -> nat {
        (self.packet_data_size - FRAGMENT_OVERHEAD) as nat
    }

    /// The largest payload of a single fragment.
    pub fn max_data_size(&self) -> (r: usize)
        requires
            self.wf(),
        ensures
            r == self.max_data(),
    {
        self.packet_data_size - FRAGMENT_OVERHEAD
    }
}

} // verus!
