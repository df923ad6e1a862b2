//! The decisions that a connection to a remote peer takes. Times are nanoseconds on one
//! monotonic clock.
use std::collections::HashMap;

use vstd::prelude::*;

use crate::transport::ids::take_next;
use crate::transport::ids::StreamId;
use crate::transport::keep_alive::KEEP_ALIVE_INTERVAL;
use crate::transport::message::AckOk;
use crate::transport::message::OutboundPacket;
use crate::transport::message::PacketLimits;
use crate::transport::message::PeerAddr;
use crate::transport::message::SymmetricMessagePayload;
use crate::transport::message::TransportError;

verus! {

use crate::transport::ids::counter_after;
use crate::transport::keep_alive::tick_time;

broadcast use vstd::std_specs::hash::group_hash_axioms;

/// Within this time decryption failures count together.
pub const FAILURE_TIME_WINDOW: u128 = 30_000_000_000;

/// A connection on which nothing arrives for longer than this is closed.
pub const KILL_CONNECTION_AFTER: u128 = 30_000_000_000;

/// The length of a packet that introduces a peer.
pub const INTRO_PACKET_SIZE: usize = 256;

/// The time from `then` to `now`, nothing where `then` is the later one.
pub open spec fn elapsed(now: u128, then: u128) -> nat {
    if now >= then {
        (now - then) as nat
    } else {
        0
    }
}

/// What is fixed about a connection.
pub struct RemoteConnection {
    /// The address of the remote peer.
    pub remote_addr: PeerAddr,
    /// The address at which this peer is seen, where it is known.
    pub my_address: Option<PeerAddr>,
    /// The key under which the remote peer encrypts what it sends.
    pub inbound_symmetric_key_bytes: [u8; 16],
    /// How many bytes per second a stream may send.
    pub bandwidth_limit: Option<usize>,
    /// The sizes that the packet format imposes.
    pub limits: PacketLimits,
    /// After this time without a report, received packets are confirmed.
    pub confirmation_timeout: u128,
    /// How many decryption failures within the time window are put up with.
    pub max_failures: usize,
}

/// A connection to a remote peer. `H` is the handle through which the fragments of an inbound
/// stream reach the task that puts them together.
pub struct PeerConnection<H> {
    /// What is fixed about the connection.
    pub remote_conn: RemoteConnection,
    /// The inbound streams that are being put together.
    pub inbound_streams: HashMap<u32, H>,
    /// How many packets could not be decrypted since `first_failure_time`.
    pub failure_count: usize,
    /// When the first of these arrived.
    pub first_failure_time: Option<u128>,
    /// When received packets were last confirmed because it was time to.
    pub last_packet_report_time: u128,
}

/// What happens while a message is waited for. `H` is the handle of an inbound stream.
pub enum RecvEvent<H> {
    /// A task that puts an inbound stream together came to nothing, failed itself, could not
    /// complete the stream, or has the complete message.
    InboundStream(Option<Result<Result<(StreamId, Vec<u8>), StreamId>, String>>),
    /// A task that sends a stream came to nothing, failed itself, or is done with this result.
    OutboundStream(Option<Result<Result<(), TransportError>, String>>),
    /// A packet arrived, or the source of packets is gone.
    Packet { arrived: bool },
    /// The packet, of this many bytes, could not be decrypted with the key of the connection.
    Undecryptable { len: usize },
    /// The packet was tried as an introduction.
    Intro { opened: bool },
    /// The packet was decrypted: its number, and the packets whose arrival it confirms.
    Decrypted { packet_id: u32, confirm_receipt: Vec<u32> },
    /// The number of the packet was recorded.
    Recorded { report: ReportResult },
    /// What the packet carries is to be processed.
    Payload(SymmetricMessagePayload),
    /// A stream was set up, and its first fragment came to this.
    Opened { stream_id: StreamId, handle: H, complete: Option<Vec<u8>> },
    /// An answer or a fragment was handed over, or could not be.
    HandedOver { delivered: bool },
    /// It was time to look for packets whose receipt is overdue.
    ResendCheck(ResendAction),
    /// A packet was handed to the socket once more, or could not be.
    SentAgain { packet_id: u32, delivered: bool },
    /// It is time to check whether the connection is still alive.
    TimeoutCheck,
}

/// What to do next while a message is waited for.
pub enum Step {
    /// Wait for the next event.
    Wait,
    /// Try to decrypt the packet with the symmetric key of the connection.
    Decrypt,
    /// Try to decrypt the packet as one that introduces a peer.
    TryIntro,
    /// Answer the introduction; whether that succeeds makes no difference.
    AnswerIntro(AckOk),
    /// Stop tracking the packets whose arrival is confirmed, then record the number of this one.
    Record { packet_id: u32, confirmed: Vec<u32> },
    /// Treat the packet like this.
    Handle(PacketHandling),
    /// Send this answer.
    Answer(AckOk),
    /// Pass a fragment on to the task of its stream.
    PassFragment { stream_id: StreamId, fragment_number: u32, payload: Vec<u8> },
    /// Set up a stream with this fragment as the first.
    OpenStream {
        stream_id: StreamId,
        total_length_bytes: u64,
        fragment_number: u32,
        payload: Vec<u8>,
    },
    /// Look for packets whose receipt is overdue again at this time.
    CheckResendsAt(u128),
    /// Send this packet once more.
    SendAgain { packet_id: u32 },
    /// Track this packet again until its receipt is confirmed, and look for the next one whose
    /// receipt is overdue.
    TrackAgain { packet_id: u32 },
    /// Hand this message to the caller.
    Deliver(Vec<u8>),
    /// Stop with this error.
    Close(TransportError),
}

/// What became of recording the number of a packet that arrived.
#[derive(Debug, Clone, Copy, PartialEq, Eq, Structural)]
pub enum ReportResult {
    /// The packet is new.
    New,
    /// The packet arrived before.
    AlreadyReceived,
    /// The numbers of received packets are piling up and have to be confirmed.
    QueueFull,
}

/// What the packets that wait for their receipts ask for.
#[derive(Debug, Clone, Copy, PartialEq, Eq, Structural)]
pub enum ResendAction {
    /// Nothing before this time.
    WaitUntil(u128),
    /// To send this packet once more.
    Resend(u32),
}

/// What to do with a packet that was decrypted.
#[derive(Debug, Clone, Copy, PartialEq, Eq, Structural)]
pub struct PacketHandling {
    /// Whether the packets received so far are confirmed first.
    pub confirm: bool,
    /// Whether what the packet carries is processed.
    pub process: bool,
}

/// How a message leaves.
pub enum Outgoing {
    /// In one packet.
    Short(Vec<u8>),
    /// As a stream of fragments.
    Stream(StreamTask),
}

/// A stream of fragments that is to be sent.
pub struct StreamTask {
    /// The identifier of the stream.
    pub stream_id: StreamId,
    /// The peer that the stream is for.
    pub remote_addr: PeerAddr,
    /// What is sent.
    pub data: Vec<u8>,
    /// How many bytes per second may be sent.
    pub bandwidth_limit: Option<usize>,
}

/// The number of failures and the time of the first of them once another packet that arrived at
/// `now` could not be decrypted.
pub open spec fn after_failure(count: nat, first: Option<u128>, now: u128) -> (nat, Option<u128>) {
    match first {
        Some(t) => if elapsed(now, t) <= FAILURE_TIME_WINDOW {
            (count + 1, first)
        } else {
            (1, Some(now))
        },
        None => (1, Some(now)),
    }
}

/// Whether a packet that arrived at `now` makes it time to confirm what was received.
pub open spec fn report_due(now: u128, last_report: u128, timeout: u128) -> bool {
    now > last_report + timeout
}

/// What happens to a packet whose number was recorded with this result.
pub open spec fn packet_handling(report: ReportResult, due: bool) -> PacketHandling {
    PacketHandling {
        confirm: report == ReportResult::QueueFull || due,
        process: report != ReportResult::AlreadyReceived || due,
    }
}

/// The open inbound streams once a stream was set up and its first fragment taken in.
pub open spec fn stream_opened<H>(
    streams: Map<u32, H>,
    stream_id: StreamId,
    handle: H,
    complete: bool,
) -> Map<u32, H> {
    if complete {
        streams.remove(stream_id.0)
    } else {
        streams.insert(stream_id.0, handle)
    }
}

/// The open inbound streams once the message of a stream is complete.
pub open spec fn stream_finished<H>(streams: Map<u32, H>, stream_id: StreamId) -> Map<u32, H> {
    streams.remove(stream_id.0)
}

impl<H> RecvEvent<H> {
    /// The open inbound streams after the event.
    pub open spec fn streams_after(self, streams: Map<u32, H>) -> Map<u32, H> {
        match self {
            RecvEvent::InboundStream(Some(Ok(Ok((stream_id, _))))) => stream_finished(
                streams,
                stream_id,
            ),
            RecvEvent::Opened { stream_id, handle, complete } => stream_opened(
                streams,
                stream_id,
                handle,
                complete is Some,
            ),
            _ => streams,
        }
    }

    /// Whether the event is a packet that could not be decrypted and introduces no peer.
    pub open spec fn is_failure(self) -> bool {
        match self {
            RecvEvent::Undecryptable { len } => len != INTRO_PACKET_SIZE,
            RecvEvent::Intro { opened } => !opened,
            _ => false,
        }
    }

    /// The message that the event completes: a short one, or the last part of a stream.
    pub open spec fn message(self) -> Option<Vec<u8>> {
        match self {
            RecvEvent::Payload(SymmetricMessagePayload::ShortMessage { payload }) => Some(payload),
            RecvEvent::InboundStream(Some(Ok(Ok((_, msg))))) => Some(msg),
            RecvEvent::Opened { complete, .. } => complete,
            _ => None,
        }
    }

    /// The stream whose message the event completes.
    pub open spec fn finished_stream(self) -> Option<StreamId> {
        match self {
            RecvEvent::InboundStream(Some(Ok(Ok((stream_id, _))))) => Some(stream_id),
            RecvEvent::Opened { stream_id, complete: Some(_), .. } => Some(stream_id),
            _ => None,
        }
    }

    /// Whether the event opens or finishes this stream.
    pub open spec fn is_about(self, stream_id: StreamId) -> bool {
        match self {
            RecvEvent::InboundStream(Some(Ok(Ok((finished, _))))) => finished == stream_id,
            RecvEvent::Opened { stream_id: opened, .. } => opened == stream_id,
            _ => false,
        }
    }
}

/// The open inbound streams after these events.
pub open spec fn streams_after_all<H>(streams: Map<u32, H>, events: Seq<RecvEvent<H>>) -> Map<
    u32,
    H,
>
    decreases events.len(),
{
    if events.len() == 0 {
        streams
    } else {
        events.last().streams_after(streams_after_all(streams, events.drop_last()))
    }
}

impl<H> PeerConnection<H> {
    /// Whether `self` and `other` agree but for the inbound streams.
    pub open spec fn same_but_streams(self, other: Self) -> bool {
        &&& self.remote_conn == other.remote_conn
        &&& self.failure_count == other.failure_count
        &&& self.first_failure_time == other.first_failure_time
        &&& self.last_packet_report_time == other.last_packet_report_time
    }

    /// Whether `self` and `other` agree but for the count of decryption failures.
    pub open spec fn same_but_failures(self, other: Self) -> bool {
        &&& self.remote_conn == other.remote_conn
        &&& self.inbound_streams == other.inbound_streams
        &&& self.last_packet_report_time == other.last_packet_report_time
    }

    /// The error that says that this connection is closed.
    pub open spec fn closed_error(self) -> TransportError {
        TransportError::ConnectionClosed(self.remote_conn.remote_addr)
    }

    /// The answer to a peer that introduces itself.
    pub open spec fn ack(self) -> AckOk {
        AckOk {
            key: self.remote_conn.inbound_symmetric_key_bytes,
            remote_addr: self.remote_conn.remote_addr,
        }
    }

    /// The number of failures and the time of the first one.
    pub open spec fn failures(self) -> (nat, Option<u128>) {
        (self.failure_count as nat, self.first_failure_time)
    }

    /// The state and the step after a packet that could not be decrypted and introduces no peer.
    pub open spec fn failed(self, before: Self, step: Step, now: u128) -> bool {
        &&& self.same_but_failures(before)
        &&& self.failures() == after_failure(
            before.failure_count as nat,
            before.first_failure_time,
            now,
        )
        &&& step == if self.failure_count > before.remote_conn.max_failures {
            Step::Close(before.closed_error())
        } else {
            Step::Wait
        }
    }

    /// What the payload of a packet asks for.
    pub open spec fn payload_step(self, payload: SymmetricMessagePayload) -> Step {
        match payload {
            SymmetricMessagePayload::ShortMessage { payload } => Step::Deliver(payload),
            SymmetricMessagePayload::AckConnection { result: Err(cause) } => Step::Close(
                TransportError::ConnectionEstablishmentFailure { cause },
            ),
            SymmetricMessagePayload::AckConnection { result: Ok(_) } => Step::Answer(self.ack()),
            SymmetricMessagePayload::StreamFragment {
                stream_id,
                total_length_bytes,
                fragment_number,
                payload,
            } => if self.inbound_streams@.contains_key(stream_id.0) {
                Step::PassFragment { stream_id, fragment_number, payload }
            } else {
                Step::OpenStream { stream_id, total_length_bytes, fragment_number, payload }
            },
            SymmetricMessagePayload::NoOp => Step::Wait,
        }
    }

    /// The number of failures and the time of the first of them after an event.
    pub open spec fn failures_after(self, ev: RecvEvent<H>, now: u128) -> (nat, Option<u128>) {
        if ev.is_failure() {
            after_failure(self.failure_count as nat, self.first_failure_time, now)
        } else {
            self.failures()
        }
    }

    /// Whether a packet that arrived at `now` makes it time to confirm what was received.
    pub open spec fn due(self, now: u128) -> bool {
        report_due(now, self.last_packet_report_time, self.remote_conn.confirmation_timeout)
    }

    /// The open inbound streams after an event.
    pub open spec fn streams_after(self, ev: RecvEvent<H>) -> Map<u32, H> {
        ev.streams_after(self.inbound_streams@)
    }

    /// Whether this is the connection after an event at `now`, where it was `before` until then.
    pub open spec fn follows(self, before: Self, ev: RecvEvent<H>, now: u128) -> bool {
        &&& self.remote_conn == before.remote_conn
        &&& self.inbound_streams@ == before.streams_after(ev)
        &&& self.failures() == before.failures_after(ev, now)
        &&& self.last_packet_report_time == if ev is Recorded && before.due(now) {
            now
        } else {
            before.last_packet_report_time
        }
    }

    /// What to do after an event at `now`, where the latest packet before it arrived at `last`.
    pub open spec fn step_after(self, ev: RecvEvent<H>, now: u128, last: u128) -> Step {
        match ev {
            RecvEvent::InboundStream(Some(Ok(Ok((_, msg))))) => Step::Deliver(msg),
            RecvEvent::InboundStream(Some(Err(cause))) => Step::Close(TransportError::Other(cause)),
            RecvEvent::InboundStream(_) => Step::Wait,
            RecvEvent::OutboundStream(Some(Err(cause))) => Step::Close(
                TransportError::Other(cause),
            ),
            RecvEvent::OutboundStream(Some(Ok(Err(e)))) => Step::Close(e),
            RecvEvent::OutboundStream(_) => Step::Wait,
            RecvEvent::Packet { arrived } => if arrived {
                Step::Decrypt
            } else {
                Step::Close(self.closed_error())
            },
            RecvEvent::Undecryptable { len } if len == INTRO_PACKET_SIZE => Step::TryIntro,
            RecvEvent::Intro { opened } if opened => Step::AnswerIntro(self.ack()),
            RecvEvent::Undecryptable { .. } | RecvEvent::Intro { .. } => if self.failures_after(
                ev,
                now,
            ).0 > self.remote_conn.max_failures {
                Step::Close(self.closed_error())
            } else {
                Step::Wait
            },
            RecvEvent::Decrypted { packet_id, confirm_receipt } => Step::Record {
                packet_id,
                confirmed: confirm_receipt,
            },
            RecvEvent::Recorded { report } => Step::Handle(packet_handling(report, self.due(now))),
            RecvEvent::Payload(payload) => self.payload_step(payload),
            RecvEvent::Opened { complete, .. } => match complete {
                Some(msg) => Step::Deliver(msg),
                None => Step::Wait,
            },
            RecvEvent::HandedOver { delivered } => if delivered {
                Step::Wait
            } else {
                Step::Close(self.closed_error())
            },
            RecvEvent::ResendCheck(ResendAction::WaitUntil(time)) => Step::CheckResendsAt(time),
            RecvEvent::ResendCheck(ResendAction::Resend(packet_id)) => Step::SendAgain {
                packet_id,
            },
            RecvEvent::SentAgain { packet_id, delivered } => if delivered {
                Step::TrackAgain { packet_id }
            } else {
                Step::Close(self.closed_error())
            },
            RecvEvent::TimeoutCheck => if elapsed(now, last) > KILL_CONNECTION_AFTER {
                Step::Close(self.closed_error())
            } else {
                Step::Wait
            },
        }
    }

    /// A connection that is established at `now`.
    pub fn new(remote_conn: RemoteConnection, now: u128) -> (r: Self)
        ensures
            r.remote_conn == remote_conn,
            r.inbound_streams@ == Map::<u32, H>::empty(),
            r.failures() == (0nat, None::<u128>),
            r.last_packet_report_time == now,
    {
        PeerConnection {
            remote_conn,
            inbound_streams: HashMap::new(),
            failure_count: 0,
            first_failure_time: None,
            last_packet_report_time: now,
        }
    }

    /// The external address of the peer holding this connection.
    pub fn my_address(&self) -> (r: Option<PeerAddr>)
        ensures
            r == self.remote_conn.my_address,
    {
        self.remote_conn.my_address
    }

    /// The address of the remote peer.
    pub fn remote_addr(&self) -> (r: PeerAddr)
        ensures
            r == self.remote_conn.remote_addr,
    {
        self.remote_conn.remote_addr
    }

    /// Decides how a serialized message leaves: in one packet where it fits in with what
    /// describes it, as a stream otherwise. A stream gets the next identifier of `stream_ids`.
    pub fn send(&self, data: Vec<u8>, stream_ids: &mut u32) -> (r: Outgoing)
        requires
            self.remote_conn.limits.wf(),
        ensures
            if data@.len() + self.remote_conn.limits.short_message_overhead
                > self.remote_conn.limits.max_data() {
                &&& r == Outgoing::Stream(
                    StreamTask {
                        stream_id: StreamId(*old(stream_ids)),
                        remote_addr: self.remote_conn.remote_addr,
                        data,
                        bandwidth_limit: self.remote_conn.bandwidth_limit,
                    },
                )
                &&& *final(stream_ids) == counter_after(
                    *old(stream_ids) as nat,
                    1,
                    0x1_0000_0000,
                )
            } else {
                &&& r == Outgoing::Short(data)
                &&& *final(stream_ids) == *old(stream_ids)
            },
    {
        let max: usize = self.remote_conn.limits.max_data_size();
        let as_stream: bool = match data.len().checked_add(
            self.remote_conn.limits.short_message_overhead,
        ) {
            Some(size) => size > max,
            None => true,
        };
        if as_stream {
            Outgoing::Stream(self.outbound_stream(data, stream_ids))
        } else {
            Outgoing::Short(data)
        }
    }

    /// The stream that carries `data` to the remote peer, with the next identifier of
    /// `stream_ids`.
    pub fn outbound_stream(&self, data: Vec<u8>, stream_ids: &mut u32) -> (r: StreamTask)
        ensures
            r.stream_id == StreamId(*old(stream_ids)),
            *final(stream_ids) == counter_after(*old(stream_ids) as nat, 1, 0x1_0000_0000),
            r.remote_addr == self.remote_conn.remote_addr,
            r.data == data,
            r.bandwidth_limit == self.remote_conn.bandwidth_limit,
    {
        StreamTask {
            stream_id: StreamId::next(stream_ids),
            remote_addr: self.remote_conn.remote_addr,
            data,
            bandwidth_limit: self.remote_conn.bandwidth_limit,
        }
    }

    /// The packet with a short message and the receipts that are waiting, under the next packet
    /// number.
    pub fn outbound_short_message(
        &self,
        data: Vec<u8>,
        receipts: Vec<u32>,
        packet_ids: &mut u32,
    ) -> (r: OutboundPacket)
        ensures
            r.packet_id == *old(packet_ids),
            *final(packet_ids) == counter_after(*old(packet_ids) as nat, 1, 0x1_0000_0000),
            r.payload == (SymmetricMessagePayload::ShortMessage { payload: data }),
            r.confirm_receipt == receipts,
    {
        OutboundPacket {
            packet_id: take_next(packet_ids),
            payload: SymmetricMessagePayload::ShortMessage { payload: data },
            confirm_receipt: receipts,
        }
    }

    /// The packet that confirms `receipts` and carries nothing else, under the next packet
    /// number; none where there is nothing to confirm.
    pub fn noop(&self, receipts: Vec<u32>, packet_ids: &mut u32) -> (r: Option<OutboundPacket>)
        ensures
            match r {
                Some(p) => {
                    &&& receipts@.len() > 0
                    &&& p.packet_id == *old(packet_ids)
                    &&& p.payload == SymmetricMessagePayload::NoOp
                    &&& p.confirm_receipt == receipts
                    &&& *final(packet_ids) == counter_after(
                        *old(packet_ids) as nat,
                        1,
                        0x1_0000_0000,
                    )
                },
                None => receipts@.len() == 0 && *final(packet_ids) == *old(packet_ids),
            },
    {
        if receipts.len() == 0 {
            return None;
        }
        Some(
            OutboundPacket {
                packet_id: take_next(packet_ids),
                payload: SymmetricMessagePayload::NoOp,
                confirm_receipt: receipts,
            },
        )
    }

    /// Takes in what happened at `now` while a message is waited for and says what to do next.
    /// `last_received` is the time of the latest packet, at first the time at which the wait
    /// began.
    pub fn recv(&mut self, ev: RecvEvent<H>, now: u128, last_received: &mut u128) -> (step: Step)
        requires
            ev.is_failure() ==> old(self).failure_count < usize::MAX,
        ensures
            step == old(self).step_after(ev, now, *old(last_received)),
            *final(last_received) == if ev == (RecvEvent::<H>::Packet { arrived: true }) {
                now
            } else {
                *old(last_received)
            },
            final(self).follows(*old(self), ev, now),
    {
        match ev {
            RecvEvent::InboundStream(finished) => self.on_inbound_stream(finished),
            RecvEvent::OutboundStream(finished) => self.on_outbound_stream(finished),
            RecvEvent::Packet { arrived } => self.on_packet(arrived, now, last_received),
            RecvEvent::Undecryptable { len } => self.on_undecryptable(len, now),
            RecvEvent::Intro { opened } => self.on_intro(opened, now),
            RecvEvent::Decrypted { packet_id, confirm_receipt } => self.on_decrypted(
                packet_id,
                confirm_receipt,
            ),
            RecvEvent::Recorded { report } => Step::Handle(self.on_message(report, now)),
            RecvEvent::Payload(payload) => self.process_inbound(payload),
            RecvEvent::Opened { stream_id, handle, complete } => self.on_new_stream(
                stream_id,
                handle,
                complete,
            ),
            RecvEvent::HandedOver { delivered } => self.on_handed_over(delivered),
            RecvEvent::ResendCheck(action) => self.on_resend_check(action),
            RecvEvent::SentAgain { packet_id, delivered } => self.on_sent_again(
                packet_id,
                delivered,
            ),
            RecvEvent::TimeoutCheck => self.on_timeout_check(now, *last_received),
        }
    }

    /// Takes in what a task that puts an inbound stream together came to: nothing, a failure of
    /// the task itself, a stream that could not be completed, or a complete message.
    pub fn on_inbound_stream(
        &mut self,
        finished: Option<Result<Result<(StreamId, Vec<u8>), StreamId>, String>>,
    ) -> (step: Step)
        ensures
            final(self).same_but_streams(*old(self)),
            match finished {
                Some(Ok(Ok((stream_id, msg)))) => {
                    &&& step == Step::Deliver(msg)
                    &&& final(self).inbound_streams@ == stream_finished(
                        old(self).inbound_streams@,
                        stream_id,
                    )
                },
                Some(Err(cause)) => {
                    &&& step == Step::Close(TransportError::Other(cause))
                    &&& final(self).inbound_streams@ == old(self).inbound_streams@
                },
                _ => {
                    &&& step == Step::Wait
                    &&& final(self).inbound_streams@ == old(self).inbound_streams@
                },
            },
    {
        match finished {
            None => Step::Wait,
            Some(Err(cause)) => Step::Close(TransportError::Other(cause)),
            Some(Ok(Err(_))) => Step::Wait,
            Some(Ok(Ok((stream_id, msg)))) => {
                self.inbound_streams.remove(&stream_id.0);
                Step::Deliver(msg)
            },
        }
    }

    /// Takes in what a task that sends a stream came to: nothing, a failure of the task itself,
    /// or the result of sending.
    pub fn on_outbound_stream(
        &self,
        finished: Option<Result<Result<(), TransportError>, String>>,
    ) -> (step: Step)
        ensures
            step == match finished {
                Some(Err(cause)) => Step::Close(TransportError::Other(cause)),
                Some(Ok(Err(e))) => Step::Close(e),
                _ => Step::Wait,
            },
    {
        match finished {
            None => Step::Wait,
            Some(Err(cause)) => Step::Close(TransportError::Other(cause)),
            Some(Ok(Err(e))) => Step::Close(e),
            Some(Ok(Ok(_))) => Step::Wait,
        }
    }

    /// Takes in whether a packet arrived or the source of packets is gone. `last_received` is
    /// the time of the latest packet.
    pub fn on_packet(&self, arrived: bool, now: u128, last_received: &mut u128) -> (step: Step)
        ensures
            if arrived {
                step == Step::Decrypt && *final(last_received) == now
            } else {
                step == Step::Close(self.closed_error()) && *final(last_received) == *old(
                    last_received,
                )
            },
    {
        if !arrived {
            return Step::Close(TransportError::ConnectionClosed(self.remote_conn.remote_addr));
        }
        *last_received = now;
        Step::Decrypt
    }

    /// Takes in that a packet of `len` bytes could not be decrypted with the key of the
    /// connection. One of the length of an introduction is tried as such first.
    pub fn on_undecryptable(&mut self, len: usize, now: u128) -> (step: Step)
        requires
            len != INTRO_PACKET_SIZE ==> old(self).failure_count < usize::MAX,
        ensures
            if len == INTRO_PACKET_SIZE {
                step == Step::TryIntro && *final(self) == *old(self)
            } else {
                final(self).failed(*old(self), step, now)
            },
    {
        if len == INTRO_PACKET_SIZE {
            return Step::TryIntro;
        }
        self.record_failure(now)
    }

    /// Takes in whether a packet of the length of an introduction is one.
    pub fn on_intro(&mut self, opened: bool, now: u128) -> (step: Step)
        requires
            !opened ==> old(self).failure_count < usize::MAX,
        ensures
            if opened {
                step == Step::AnswerIntro(old(self).ack()) && *final(self) == *old(self)
            } else {
                final(self).failed(*old(self), step, now)
            },
    {
        if opened {
            return Step::AnswerIntro(
                AckOk {
                    key: self.remote_conn.inbound_symmetric_key_bytes,
                    remote_addr: self.remote_conn.remote_addr,
                },
            );
        }
        self.record_failure(now)
    }

    /// Counts a packet that could not be decrypted. More than the accepted number of them within
    /// the time window close the connection.
    fn record_failure(&mut self, now: u128) -> (step: Step)
        requires
            old(self).failure_count < usize::MAX,
        ensures
            final(self).failed(*old(self), step, now),
    {
        match self.first_failure_time {
            Some(first) => {
                let since: u128 = if now >= first {
                    now - first
                } else {
                    0
                };
                if since <= FAILURE_TIME_WINDOW {
                    self.failure_count = self.failure_count + 1;
                } else {
                    self.failure_count = 1;
                    self.first_failure_time = Some(now);
                }
            },
            None => {
                self.failure_count = 1;
                self.first_failure_time = Some(now);
            },
        }
        if self.failure_count > self.remote_conn.max_failures {
            return Step::Close(TransportError::ConnectionClosed(self.remote_conn.remote_addr));
        }
        Step::Wait
    }

    /// Takes in a decrypted packet. The receipts that it brings are always passed on, also where the
    /// packet turns out to have arrived before.
    pub fn on_decrypted(&self, packet_id: u32, confirm_receipt: Vec<u32>) -> (step: Step)
        ensures
            step == (Step::Record { packet_id, confirmed: confirm_receipt }),
    {
        Step::Record { packet_id, confirmed: confirm_receipt }
    }

    /// Decides what happens to a decrypted packet that arrived at `now` and whose number was
    /// recorded with the result `report`. Where it is time to confirm received packets, the time
    /// of the next confirmation starts anew.
    pub fn on_message(&mut self, report: ReportResult, now: u128) -> (r: PacketHandling)
        ensures
            ({
                let due = report_due(
                    now,
                    old(self).last_packet_report_time,
                    old(self).remote_conn.confirmation_timeout,
                );
                &&& due == (now > old(self).last_packet_report_time + old(
                    self,
                ).remote_conn.confirmation_timeout)
                &&& r == packet_handling(report, due)
                &&& r.confirm == (report == ReportResult::QueueFull || due)
                &&& r.process == (report != ReportResult::AlreadyReceived || due)
                &&& final(self).last_packet_report_time == if due {
                    now
                } else {
                    old(self).last_packet_report_time
                }
            }),
            final(self).remote_conn == old(self).remote_conn,
            final(self).inbound_streams == old(self).inbound_streams,
            final(self).failures() == old(self).failures(),
    {
        let due: bool = now > self.last_packet_report_time && now - self.last_packet_report_time
            > self.remote_conn.confirmation_timeout;
        if due {
            self.last_packet_report_time = now;
        }
        match (report, due) {
            (ReportResult::QueueFull, _) => PacketHandling { confirm: true, process: true },
            (_, true) => PacketHandling { confirm: true, process: true },
            (ReportResult::New, _) => PacketHandling { confirm: false, process: true },
            (ReportResult::AlreadyReceived, _) => PacketHandling {
                confirm: false,
                process: false,
            },
        }
    }

    /// Decides what the payload of a packet asks for.
    pub fn process_inbound(&self, payload: SymmetricMessagePayload) -> (step: Step)
        ensures
            step == self.payload_step(payload),
            match payload {
                SymmetricMessagePayload::StreamFragment {
                    stream_id,
                    total_length_bytes,
                    fragment_number,
                    payload: bytes,
                } => if self.inbound_streams@.contains_key(stream_id.0) {
                    step == (Step::PassFragment { stream_id, fragment_number, payload: bytes })
                } else {
                    step == (Step::OpenStream {
                        stream_id,
                        total_length_bytes,
                        fragment_number,
                        payload: bytes,
                    })
                },
                _ => true,
            },
    {
        match payload {
            SymmetricMessagePayload::ShortMessage { payload } => Step::Deliver(payload),
            SymmetricMessagePayload::AckConnection { result: Err(cause) } => Step::Close(
                TransportError::ConnectionEstablishmentFailure { cause },
            ),
            SymmetricMessagePayload::AckConnection { result: Ok(_) } => Step::Answer(
                AckOk {
                    key: self.remote_conn.inbound_symmetric_key_bytes,
                    remote_addr: self.remote_conn.remote_addr,
                },
            ),
            SymmetricMessagePayload::StreamFragment {
                stream_id,
                total_length_bytes,
                fragment_number,
                payload,
            } => {
                if self.inbound_streams.contains_key(&stream_id.0) {
                    Step::PassFragment { stream_id, fragment_number, payload }
                } else {
                    Step::OpenStream { stream_id, total_length_bytes, fragment_number, payload }
                }
            },
            SymmetricMessagePayload::NoOp => Step::Wait,
        }
    }

    /// The handle through which fragments of a stream are passed on.
    pub fn stream_handle(&self, stream_id: StreamId) -> (r: Option<&H>)
        ensures
            match r {
                Some(h) => self.inbound_streams@.contains_key(stream_id.0) && *h
                    == self.inbound_streams@[stream_id.0],
                None => !self.inbound_streams@.contains_key(stream_id.0),
            },
    {
        self.inbound_streams.get(&stream_id.0)
    }

    /// Takes in a new stream and what its first fragment came to: the whole message where the
    /// stream has no other fragment. The message is handed over and the stream forgotten again;
    /// a stream that is not complete stays open under `handle`.
    pub fn on_new_stream(&mut self, stream_id: StreamId, handle: H, complete: Option<Vec<u8>>) -> (
        step: Step)
        ensures
            step == match complete {
                Some(msg) => Step::Deliver(msg),
                None => Step::Wait,
            },
            final(self).same_but_streams(*old(self)),
            final(self).inbound_streams@ == stream_opened(
                old(self).inbound_streams@,
                stream_id,
                handle,
                complete is Some,
            ),
    {
        self.inbound_streams.insert(stream_id.0, handle);
        match complete {
            Some(msg) => {
                self.inbound_streams.remove(&stream_id.0);
                proof {
                    assert(self.inbound_streams@ =~= old(self).inbound_streams@.remove(
                        stream_id.0,
                    ));
                }
                Step::Deliver(msg)
            },
            None => Step::Wait,
        }
    }

    /// Takes in what the packets that wait for their receipts ask for.
    pub fn on_resend_check(&self, action: ResendAction) -> (step: Step)
        ensures
            step == match action {
                ResendAction::WaitUntil(time) => Step::CheckResendsAt(time),
                ResendAction::Resend(packet_id) => Step::SendAgain { packet_id },
            },
    {
        match action {
            ResendAction::WaitUntil(time) => Step::CheckResendsAt(time),
            ResendAction::Resend(packet_id) => Step::SendAgain { packet_id },
        }
    }

    /// Takes in whether a packet could be handed to the socket once more. Where it could not,
    /// the connection is closed.
    pub fn on_sent_again(&self, packet_id: u32, delivered: bool) -> (step: Step)
        ensures
            step == if delivered {
                Step::TrackAgain { packet_id }
            } else {
                Step::Close(self.closed_error())
            },
    {
        if delivered {
            Step::TrackAgain { packet_id }
        } else {
            Step::Close(TransportError::ConnectionClosed(self.remote_conn.remote_addr))
        }
    }

    /// Takes in whether something could be handed over: an answer to the socket, or a fragment
    /// to the task of its stream. Where it could not, the connection is closed.
    pub fn on_handed_over(&self, delivered: bool) -> (step: Step)
        ensures
            step == if delivered {
                Step::Wait
            } else {
                Step::Close(self.closed_error())
            },
    {
        if delivered {
            Step::Wait
        } else {
            Step::Close(TransportError::ConnectionClosed(self.remote_conn.remote_addr))
        }
    }

    /// Checks at `now` how long ago the latest packet arrived, and closes a connection that has
    /// been silent for too long.
    pub fn on_timeout_check(&self, now: u128, last_received: u128) -> (step: Step)
        ensures
            step == if elapsed(now, last_received) > KILL_CONNECTION_AFTER {
                Step::Close(self.closed_error())
            } else {
                Step::Wait
            },
    {
        let silent: u128 = if now >= last_received {
            now - last_received
        } else {
            0
        };
        if silent > KILL_CONNECTION_AFTER {
            Step::Close(TransportError::ConnectionClosed(self.remote_conn.remote_addr))
        } else {
            Step::Wait
        }
    }
}

/// Whether `conns` are the states of a connection before, between and after these events, each
/// with its time.
pub open spec fn is_run<H>(
    conns: Seq<PeerConnection<H>>,
    events: Seq<(RecvEvent<H>, u128)>,
) -> bool {
    &&& conns.len() == events.len() + 1
    &&& forall|i: int| #![trigger conns[i + 1]]
        0 <= i < events.len() ==> conns[i + 1].follows(conns[i], events[i].0, events[i].1)
}

/// How many of the first `n` events are packets that could not be decrypted and introduce no peer.
pub open spec fn failure_number<H>(events: Seq<(RecvEvent<H>, u128)>, n: nat) -> nat
    decreases n,
{
    if n == 0 {
        0
    } else {
        failure_number(events, (n - 1) as nat) + if events[n - 1].0.is_failure() {
            1nat
        } else {
            0nat
        }
    }
}

proof fn lemma_failures_of_run<H>(
    conns: Seq<PeerConnection<H>>,
    events: Seq<(RecvEvent<H>, u128)>,
    first: int,
    n: nat,
)
    requires
        is_run(conns, events),
        conns[0].failures() == (0nat, None::<u128>),
        0 <= first < events.len(),
        events[first].0.is_failure(),
        forall|i: int| 0 <= i < first ==> !(#[trigger] events[i]).0.is_failure(),
        forall|i: int|
            0 <= i < events.len() && (#[trigger] events[i]).0.is_failure() ==> elapsed(
                events[i].1,
                events[first].1,
            ) <= FAILURE_TIME_WINDOW,
        n <= events.len(),
    ensures
        conns[n as int].remote_conn == conns[0].remote_conn,
        conns[n as int].failures() == (
            failure_number(events, n),
            if n > first {
                Some(events[first].1)
            } else {
                None
            },
        ),
        n <= first ==> failure_number(events, n) == 0,
    decreases n,
{
    if n > 0 {
        let m = (n - 1) as nat;
        lemma_failures_of_run(conns, events, first, m);
        assert(conns[m as int + 1].follows(conns[m as int], events[m as int].0, events[m as int].1));
        assert(!events[m as int].0.is_failure() || m >= first);
    }
}

/// On a new connection, packets that cannot be decrypted and all lie within the time window of the
/// first of them are all counted, whatever else happens in between. The connection is closed at
/// the first of them beyond the accepted number, and those before it are passed over.
pub proof fn law_failures_in_one_window_add_up<H>(
    conns: Seq<PeerConnection<H>>,
    events: Seq<(RecvEvent<H>, u128)>,
    first: int,
)
    requires
        is_run(conns, events),
        conns[0].failures() == (0nat, None::<u128>),
        0 <= first < events.len(),
        events[first].0.is_failure(),
        forall|i: int| 0 <= i < first ==> !(#[trigger] events[i]).0.is_failure(),
        forall|i: int|
            0 <= i < events.len() && (#[trigger] events[i]).0.is_failure() ==> elapsed(
                events[i].1,
                events[first].1,
            ) <= FAILURE_TIME_WINDOW,
    ensures
        forall|n: nat| #![trigger conns[n as int]]
            n <= events.len() ==> conns[n as int].failures().0 == failure_number(events, n),
        forall|i: int, last: u128| #![trigger conns[i].step_after(events[i].0, events[i].1, last)]
            0 <= i < events.len() && events[i].0.is_failure() ==> conns[i].step_after(
                events[i].0,
                events[i].1,
                last,
            ) == if failure_number(events, (i + 1) as nat) > conns[0].remote_conn.max_failures {
                Step::Close(conns[0].closed_error())
            } else {
                Step::Wait
            },
{
    assert forall|n: nat| #![trigger conns[n as int]] n <= events.len() implies conns[n as int].failures().0
        == failure_number(events, n) by {
        lemma_failures_of_run(conns, events, first, n);
    }
    assert forall|i: int, last: u128|
        #![trigger conns[i].step_after(events[i].0, events[i].1, last)]
        0 <= i < events.len() && events[i].0.is_failure() implies conns[i].step_after(
        events[i].0,
        events[i].1,
        last,
    ) == if failure_number(events, (i + 1) as nat) > conns[0].remote_conn.max_failures {
        Step::Close(conns[0].closed_error())
    } else {
        Step::Wait
    } by {
        lemma_failures_of_run(conns, events, first, i as nat);
        lemma_failures_of_run(conns, events, first, (i + 1) as nat);
        assert(conns[i + 1].follows(conns[i], events[i].0, events[i].1));
    }
}

/// A packet that cannot be decrypted and arrives after the time window of the first one starts the
/// count anew: it is then the first of its own window.
pub proof fn law_failure_window_starts_anew<H>(
    before: PeerConnection<H>,
    after: PeerConnection<H>,
    ev: RecvEvent<H>,
    now: u128,
    first: u128,
)
    requires
        after.follows(before, ev, now),
        ev.is_failure(),
        before.first_failure_time == Some(first),
        elapsed(now, first) > FAILURE_TIME_WINDOW,
    ensures
        after.failures() == (1nat, Some(now)),
{
}

/// On a connection that was new once, there are failures exactly where a first failure is known.
pub proof fn law_failure_count_and_time_agree<H>(
    conns: Seq<PeerConnection<H>>,
    events: Seq<(RecvEvent<H>, u128)>,
    n: nat,
)
    requires
        is_run(conns, events),
        conns[0].failures() == (0nat, None::<u128>),
        n <= events.len(),
    ensures
        conns[n as int].failures().0 > 0 <==> conns[n as int].failures().1 is Some,
    decreases n,
{
    if n > 0 {
        let m = (n - 1) as nat;
        law_failure_count_and_time_agree(conns, events, m);
        assert(conns[m as int + 1].follows(conns[m as int], events[m as int].0, events[m as int].1));
    }
}

/// A message is handed over exactly where an event completes one: a short message, or the whole
/// message of a stream. Signs of life, answers, packets that cannot be decrypted and fragments of
/// incomplete streams hand over nothing. A stream whose message was handed over is not open any
/// more, and the other streams stay as they are.
pub proof fn law_only_complete_messages_are_delivered<H>(
    before: PeerConnection<H>,
    after: PeerConnection<H>,
    ev: RecvEvent<H>,
    now: u128,
    last: u128,
)
    requires
        after.follows(before, ev, now),
    ensures
        match ev.message() {
            Some(msg) => before.step_after(ev, now, last) == Step::Deliver(msg),
            None => !(before.step_after(ev, now, last) is Deliver),
        },
        ev.message() is Some ==> match ev.finished_stream() {
            Some(stream_id) => after.inbound_streams@ == before.inbound_streams@.remove(
                stream_id.0,
            ),
            None => after.inbound_streams@ == before.inbound_streams@,
        },
        ev.finished_stream() is Some ==> ev.message() is Some,
{
}

proof fn lemma_one_more_stream<H>(
    streams: Map<u32, H>,
    stream_id: StreamId,
    handle: H,
    events: Seq<RecvEvent<H>>,
)
    requires
        !streams.contains_key(stream_id.0),
        forall|i: int| 0 <= i < events.len() ==> !(#[trigger] events[i]).is_about(stream_id),
    ensures
        !streams_after_all(streams, events).contains_key(stream_id.0),
        streams_after_all(streams.insert(stream_id.0, handle), events) == streams_after_all(
            streams,
            events,
        ).insert(stream_id.0, handle),
    decreases events.len(),
{
    if events.len() > 0 {
        let front = events.drop_last();
        assert forall|i: int| 0 <= i < front.len() implies !(#[trigger] front[i]).is_about(
            stream_id,
        ) by {
            assert(front[i] == events[i]);
        }
        lemma_one_more_stream(streams, stream_id, handle, front);
        assert(!events[events.len() - 1].is_about(stream_id));
        assert(streams_after_all(streams.insert(stream_id.0, handle), events)
            =~= streams_after_all(streams, events).insert(stream_id.0, handle));
    }
}

/// While a stream is open its fragments are passed on to its task, under the handle that it was
/// opened with, whatever happens to other streams. A stream whose first fragment is the whole
/// message is never open, and a finished stream leaves the others as if it had never been opened.
pub proof fn law_streams_are_kept_until_finished<H>(
    streams: Map<u32, H>,
    stream_id: StreamId,
    handle: H,
    events: Seq<RecvEvent<H>>,
)
    requires
        !streams.contains_key(stream_id.0),
        forall|i: int| 0 <= i < events.len() ==> !(#[trigger] events[i]).is_about(stream_id),
    ensures
        stream_opened(streams, stream_id, handle, true) == streams,
        ({
            let open = streams_after_all(
                stream_opened(streams, stream_id, handle, false),
                events,
            );
            &&& open.contains_key(stream_id.0)
            &&& open[stream_id.0] == handle
            &&& stream_finished(open, stream_id) == streams_after_all(streams, events)
        }),
{
    lemma_one_more_stream(streams, stream_id, handle, events);
    assert(stream_opened(streams, stream_id, handle, true) =~= streams);
    let open = streams_after_all(stream_opened(streams, stream_id, handle, false), events);
    assert(stream_finished(open, stream_id) =~= streams_after_all(streams, events));
}

/// A connection on which packets arrive is never closed for silence: as long as the check comes
/// no later after the latest packet than the accepted time, it lets the connection be.
pub proof fn law_live_connection_stays_open<H>(conn: PeerConnection<H>, now: u128, last: u128)
    requires
        now <= last + KILL_CONNECTION_AFTER,
    ensures
        conn.step_after(RecvEvent::TimeoutCheck, now, last) == Step::Wait,
{
}

/// A peer that gives signs of life is never taken for silent: where that of one tick arrived, the
/// connection stays open until the third tick after it, so that it outlives the loss of two signs
/// of life in a row.
pub proof fn law_signs_of_life_keep_a_connection<H>(
    conn: PeerConnection<H>,
    start: u128,
    tick: nat,
    now: u128,
    last: u128,
)
    requires
        last >= tick_time(start, tick),
        now <= tick_time(start, tick + 3),
    ensures
        conn.step_after(RecvEvent::TimeoutCheck, now, last) == Step::Wait,
{
    assert((tick + 3) * KEEP_ALIVE_INTERVAL == tick * KEEP_ALIVE_INTERVAL + 3
        * KEEP_ALIVE_INTERVAL) by (nonlinear_arith);
}

/// The receipts of every decrypted packet are passed on once, whatever recording its number comes
/// to. Received packets are confirmed where their numbers pile up or it is time to; only then the
/// time of the next confirmation starts anew. What the packet carries is processed unless it
/// arrived before and it is not time to confirm.
pub proof fn law_receipts_are_always_passed_on<H>(
    conns: Seq<PeerConnection<H>>,
    events: Seq<(RecvEvent<H>, u128)>,
    packet_id: u32,
    receipts: Vec<u32>,
    report: ReportResult,
    last: u128,
)
    requires
        is_run(conns, events),
        events.len() == 2,
        events[0].0 == (RecvEvent::<H>::Decrypted { packet_id, confirm_receipt: receipts }),
        events[1].0 == (RecvEvent::<H>::Recorded { report }),
    ensures
        ({
            let due = conns[0].due(events[1].1);
            &&& conns[0].step_after(events[0].0, events[0].1, last) == (Step::Record {
                packet_id,
                confirmed: receipts,
            })
            &&& conns[1].step_after(events[1].0, events[1].1, last) == Step::Handle(
                PacketHandling {
                    confirm: report == ReportResult::QueueFull || due,
                    process: !(report == ReportResult::AlreadyReceived && !due),
                },
            )
            &&& conns[2].last_packet_report_time == if due {
                events[1].1
            } else {
                conns[0].last_packet_report_time
            }
        }),
{
    assert(conns[0int + 1].follows(conns[0], events[0].0, events[0].1));
    assert(conns[1int + 1].follows(conns[1], events[1].0, events[1].1));
}

/// A packet that arrived before is processed again only when it is time to confirm received
/// packets, and a new packet is always processed.
pub proof fn law_known_packets_are_dropped(report: ReportResult, due: bool)
    ensures
        report != ReportResult::AlreadyReceived ==> packet_handling(report, due).process,
        report == ReportResult::AlreadyReceived && !due ==> !packet_handling(report, due).process
            && !packet_handling(report, due).confirm,
{
}

} // verus!
