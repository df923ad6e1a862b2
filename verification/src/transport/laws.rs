//! What a connection does about each event, stated over what the event carries.
use vstd::prelude::*;

use crate::transport::connection::PeerConnection;
use crate::transport::connection::RecvEvent;
use crate::transport::connection::RemoteConnection;
use crate::transport::connection::ReportResult;
use crate::transport::connection::ResendAction;
use crate::transport::connection::Step;
use crate::transport::ids::StreamId;
use crate::transport::keep_alive::KeepAlive;
use crate::transport::keep_alive::KeepAliveOutcome;
use crate::transport::message::AckOk;
use crate::transport::message::OutboundPacket;
use crate::transport::message::PacketLimits;
use crate::transport::message::PeerAddr;
use crate::transport::message::SymmetricMessagePayload;
use crate::transport::message::TransportError;

verus! {

use crate::transport::connection::after_failure;
use crate::transport::connection::elapsed;
use crate::transport::connection::packet_handling;
use crate::transport::connection::report_due;
use crate::transport::connection::stream_finished;
use crate::transport::connection::stream_opened;
use crate::transport::ids::counter_after;
use crate::transport::keep_alive::is_tick;
use crate::transport::keep_alive::tick_time;
use crate::transport::sending::is_packet_plan;

/// A fragment of a stream that is not open opens a stream with exactly the identifier, the total
/// length, the fragment number and the payload that it carries. A fragment of an open stream is
/// passed on to that stream, with exactly its number and its payload.
pub proof fn law_fragments_reach_their_stream_unchanged<H>(
    conn: PeerConnection<H>,
    stream_id: StreamId,
    total_length_bytes: u64,
    fragment_number: u32,
    payload: Vec<u8>,
    step: Step,
    now: u128,
    last: u128,
)
    requires
        ({
            let fragment = SymmetricMessagePayload::StreamFragment {
                stream_id,
                total_length_bytes,
                fragment_number,
                payload,
            };
            ||| call_ensures(PeerConnection::<H>::process_inbound, (&conn, fragment), step)
            ||| step == conn.payload_step(fragment)
            ||| step == conn.step_after(RecvEvent::Payload(fragment), now, last)
        }),
    ensures
        conn.inbound_streams@.contains_key(stream_id.0) ==> {
            &&& step is PassFragment
            &&& step->PassFragment_stream_id == stream_id
            &&& step->PassFragment_fragment_number == fragment_number
            &&& step->PassFragment_payload == payload
        },
        !conn.inbound_streams@.contains_key(stream_id.0) ==> {
            &&& step is OpenStream
            &&& step->OpenStream_stream_id == stream_id
            &&& step->OpenStream_total_length_bytes == total_length_bytes
            &&& step->OpenStream_fragment_number == fragment_number
            &&& step->OpenStream_payload == payload
        },
{
}

/// A short message is handed over as it is, a refused connection is closed with the cause that the
/// remote peer gave, an accepted one is answered with the key under which this side expects
/// packets and the address of the remote peer, whatever that sent along, and a packet without
/// content asks for nothing.
pub proof fn law_other_payloads<H>(
    conn: PeerConnection<H>,
    bytes: Vec<u8>,
    cause: String,
    accepted: AckOk,
    now: u128,
    last: u128,
)
    ensures
        ({
            let short = SymmetricMessagePayload::ShortMessage { payload: bytes };
            let refused = SymmetricMessagePayload::AckConnection { result: Err(cause) };
            let agreed = SymmetricMessagePayload::AckConnection { result: Ok(accepted) };
            let noop = SymmetricMessagePayload::NoOp;
            &&& conn.step_after(RecvEvent::Payload(short), now, last) == Step::Deliver(bytes)
            &&& conn.payload_step(short) == Step::Deliver(bytes)
            &&& conn.step_after(RecvEvent::Payload(refused), now, last) == Step::Close(
                TransportError::ConnectionEstablishmentFailure { cause },
            )
            &&& conn.payload_step(refused) == Step::Close(
                TransportError::ConnectionEstablishmentFailure { cause },
            )
            &&& conn.step_after(RecvEvent::Payload(agreed), now, last) == Step::Answer(
                AckOk {
                    key: conn.remote_conn.inbound_symmetric_key_bytes,
                    remote_addr: conn.remote_conn.remote_addr,
                },
            )
            &&& conn.payload_step(agreed) == Step::Answer(
                AckOk {
                    key: conn.remote_conn.inbound_symmetric_key_bytes,
                    remote_addr: conn.remote_conn.remote_addr,
                },
            )
            &&& conn.step_after(RecvEvent::Payload(noop), now, last) == Step::Wait
            &&& conn.payload_step(noop) == Step::Wait
        }),
{
}

/// A packet recorded at `now` makes it time to confirm received packets exactly where `now` is
/// more than the timeout after the last confirmation, however late it is. It is then confirmed and
/// processed, and the time of the next confirmation starts anew at `now`. Before that time a
/// packet is confirmed only where the numbers of received packets pile up, it is processed unless
/// it arrived before, and the time of the next confirmation stays.
pub proof fn law_confirmations_come_after_the_timeout<H>(
    before: PeerConnection<H>,
    after: PeerConnection<H>,
    report: ReportResult,
    now: u128,
    last: u128,
)
    requires
        after.follows(before, RecvEvent::Recorded { report }, now),
    ensures
        ({
            let step = before.step_after(RecvEvent::Recorded { report }, now, last);
            let next = before.last_packet_report_time
                + before.remote_conn.confirmation_timeout;
            &&& step is Handle
            &&& now > next ==> {
                &&& step->Handle_0.confirm
                &&& step->Handle_0.process
                &&& after.last_packet_report_time == now
            }
            &&& now <= next ==> {
                &&& step->Handle_0.confirm == (report == ReportResult::QueueFull)
                &&& step->Handle_0.process == (report != ReportResult::AlreadyReceived)
                &&& after.last_packet_report_time == before.last_packet_report_time
            }
        }),
{
}

/// The same of the parts: when it is time to confirm, and what happens to a packet by that.
pub proof fn law_what_is_due(
    report: ReportResult,
    now: u128,
    last_report: u128,
    timeout: u128,
    due: bool,
)
    ensures
        report_due(now, last_report, timeout) <==> now > last_report + timeout,
        packet_handling(report, due).confirm <==> due || report == ReportResult::QueueFull,
        packet_handling(report, due).process <==> due || report != ReportResult::AlreadyReceived,
{
}

/// Nothing but recording a packet moves the time of the next confirmation, and nothing at all
/// changes what is fixed about a connection.
pub proof fn law_only_recording_moves_the_report_time<H>(
    before: PeerConnection<H>,
    after: PeerConnection<H>,
    ev: RecvEvent<H>,
    now: u128,
)
    requires
        after.follows(before, ev, now),
    ensures
        after.remote_conn == before.remote_conn,
        !(ev is Recorded) ==> after.last_packet_report_time == before.last_packet_report_time,
{
}

/// The receipts and the number of a decrypted packet are passed on as they are.
pub proof fn law_receipts_are_passed_on_unchanged<H>(
    conn: PeerConnection<H>,
    packet_id: u32,
    confirm_receipt: Vec<u32>,
    now: u128,
    last: u128,
)
    ensures
        ({
            let step = conn.step_after(
                RecvEvent::Decrypted { packet_id, confirm_receipt },
                now,
                last,
            );
            &&& step is Record
            &&& step->Record_packet_id == packet_id
            &&& step->confirmed == confirm_receipt
        }),
{
}

/// A packet that arrives is decrypted; without a source of packets the connection is closed.
/// Packets of any length but that of an introduction which cannot be decrypted count as failures,
/// and so do those of that length that are no introduction. An introduction is answered with the
/// key under which this side expects packets and the address of the remote peer.
pub proof fn law_arriving_packets<H>(
    before: PeerConnection<H>,
    after: PeerConnection<H>,
    ev: RecvEvent<H>,
    now: u128,
    last: u128,
)
    requires
        after.follows(before, ev, now),
    ensures
        ({
            let step = before.step_after(ev, now, last);
            let closed = Step::Close(
                TransportError::ConnectionClosed(before.remote_conn.remote_addr),
            );
            let unchanged = after.failure_count == before.failure_count
                && after.first_failure_time == before.first_failure_time;
            let counted = {
                &&& match before.first_failure_time {
                    Some(first) => if now <= first + 30_000_000_000 {
                        &&& after.failure_count == before.failure_count + 1
                        &&& after.first_failure_time == Some(first)
                    } else {
                        after.failure_count == 1 && after.first_failure_time == Some(now)
                    },
                    None => after.failure_count == 1 && after.first_failure_time == Some(now),
                }
                &&& step == if after.failure_count > before.remote_conn.max_failures {
                    closed
                } else {
                    Step::Wait
                }
            };
            match ev {
                RecvEvent::Packet { arrived } => unchanged && step == if arrived {
                    Step::Decrypt
                } else {
                    closed
                },
                RecvEvent::Undecryptable { len } => if len == 256 {
                    unchanged && step == Step::TryIntro
                } else {
                    counted
                },
                RecvEvent::Intro { opened } => if opened {
                    unchanged && step == Step::AnswerIntro(
                        AckOk {
                            key: before.remote_conn.inbound_symmetric_key_bytes,
                            remote_addr: before.remote_conn.remote_addr,
                        },
                    )
                } else {
                    counted
                },
                _ => unchanged,
            }
        }),
{
}

/// The same of the parts: how a failure is counted, and what it changes.
pub proof fn law_how_a_failure_is_counted<H>(
    count: nat,
    first: u128,
    now: u128,
    before: PeerConnection<H>,
    after: PeerConnection<H>,
    step: Step,
)
    ensures
        after_failure(count, None, now) == (1nat, Some(now)),
        now <= first + 30_000_000_000 ==> after_failure(count, Some(first), now) == (
            count + 1,
            Some(first),
        ),
        now > first + 30_000_000_000 ==> after_failure(count, Some(first), now) == (
            1nat,
            Some(now),
        ),
        before.failures() == (before.failure_count as nat, before.first_failure_time),
        after.failed(before, step, now) ==> {
            &&& after.remote_conn == before.remote_conn
            &&& after.inbound_streams == before.inbound_streams
            &&& after.last_packet_report_time == before.last_packet_report_time
            &&& after.failures() == after_failure(
                before.failure_count as nat,
                before.first_failure_time,
                now,
            )
            &&& step == if after.failure_count > before.remote_conn.max_failures {
                Step::Close(TransportError::ConnectionClosed(before.remote_conn.remote_addr))
            } else {
                Step::Wait
            }
        },
{
}

/// The address in an error and in an answer is that of the remote peer, and connections that agree
/// but for their streams agree in all else.
pub proof fn law_errors_and_answers_name_the_remote_peer<H>(
    conn: PeerConnection<H>,
    other: PeerConnection<H>,
)
    ensures
        conn.closed_error() == TransportError::ConnectionClosed(conn.remote_conn.remote_addr),
        conn.ack().key == conn.remote_conn.inbound_symmetric_key_bytes,
        conn.ack().remote_addr == conn.remote_conn.remote_addr,
        conn.same_but_streams(other) <==> {
            &&& conn.remote_conn == other.remote_conn
            &&& conn.failure_count == other.failure_count
            &&& conn.first_failure_time == other.first_failure_time
            &&& conn.last_packet_report_time == other.last_packet_report_time
        },
{
}

/// A stream that is set up is open under its handle until its message is complete; one whose first
/// fragment is the whole message is not open afterwards. A task that finished its stream closes
/// just that one. No other event opens or closes a stream.
pub proof fn law_streams_open_and_close<H>(
    before: PeerConnection<H>,
    after: PeerConnection<H>,
    ev: RecvEvent<H>,
    now: u128,
    last: u128,
)
    requires
        after.follows(before, ev, now),
    ensures
        ({
            let step = before.step_after(ev, now, last);
            let streams = before.inbound_streams@;
            match ev {
                RecvEvent::Opened { stream_id, handle, complete: Some(msg) } => {
                    &&& after.inbound_streams@ == streams.remove(stream_id.0)
                    &&& step == Step::Deliver(msg)
                },
                RecvEvent::Opened { stream_id, handle, complete: None } => {
                    &&& after.inbound_streams@ == streams.insert(stream_id.0, handle)
                    &&& step == Step::Wait
                },
                RecvEvent::InboundStream(Some(Ok(Ok((stream_id, msg))))) => {
                    &&& after.inbound_streams@ == streams.remove(stream_id.0)
                    &&& step == Step::Deliver(msg)
                },
                RecvEvent::InboundStream(Some(Err(cause))) => {
                    &&& after.inbound_streams@ == streams
                    &&& step == Step::Close(TransportError::Other(cause))
                },
                RecvEvent::InboundStream(_) => {
                    &&& after.inbound_streams@ == streams
                    &&& step == Step::Wait
                },
                _ => after.inbound_streams@ == streams,
            }
        }),
{
}

/// The same of the parts.
pub proof fn law_how_streams_open_and_close<H>(
    streams: Map<u32, H>,
    stream_id: StreamId,
    handle: H,
)
    ensures
        stream_opened(streams, stream_id, handle, true) == streams.remove(stream_id.0),
        stream_opened(streams, stream_id, handle, false) == streams.insert(stream_id.0, handle),
        stream_finished(streams, stream_id) == streams.remove(stream_id.0),
{
}

/// A stream that could not be sent closes the connection, with the error of the stream or that of
/// its task; one that was sent asks for nothing.
pub proof fn law_sent_streams<H>(
    conn: PeerConnection<H>,
    error: TransportError,
    cause: String,
    now: u128,
    last: u128,
)
    ensures
        conn.step_after(RecvEvent::OutboundStream(None), now, last) == Step::Wait,
        conn.step_after(RecvEvent::OutboundStream(Some(Ok(Ok(())))), now, last) == Step::Wait,
        conn.step_after(RecvEvent::OutboundStream(Some(Ok(Err(error)))), now, last) == Step::Close(
            error,
        ),
        conn.step_after(RecvEvent::OutboundStream(Some(Err(cause))), now, last) == Step::Close(
            TransportError::Other(cause),
        ),
{
}

/// A packet whose receipt is overdue is sent once more, and tracked again once it was; before that
/// the next look at them comes at the time that was given. Where something cannot be handed over,
/// the connection is closed.
pub proof fn law_overdue_packets_are_sent_again<H>(
    conn: PeerConnection<H>,
    packet_id: u32,
    time: u128,
    now: u128,
    last: u128,
)
    ensures
        ({
            let closed = Step::Close(
                TransportError::ConnectionClosed(conn.remote_conn.remote_addr),
            );
            &&& conn.step_after(
                RecvEvent::ResendCheck(ResendAction::WaitUntil(time)),
                now,
                last,
            ) == Step::CheckResendsAt(time)
            &&& conn.step_after(
                RecvEvent::ResendCheck(ResendAction::Resend(packet_id)),
                now,
                last,
            ) == (Step::SendAgain { packet_id })
            &&& conn.step_after(RecvEvent::SentAgain { packet_id, delivered: true }, now, last) == (
            Step::TrackAgain { packet_id })
            &&& conn.step_after(RecvEvent::SentAgain { packet_id, delivered: false }, now, last)
                == closed
            &&& conn.step_after(RecvEvent::HandedOver { delivered: true }, now, last) == Step::Wait
            &&& conn.step_after(RecvEvent::HandedOver { delivered: false }, now, last) == closed
        }),
{
}

/// A connection is closed for silence exactly where its latest packet arrived more than thirty
/// seconds ago.
pub proof fn law_silence_of_thirty_seconds_closes<H>(
    conn: PeerConnection<H>,
    now: u128,
    last: u128,
)
    ensures
        now > last + 30_000_000_000 ==> conn.step_after(RecvEvent::TimeoutCheck, now, last)
            == Step::Close(TransportError::ConnectionClosed(conn.remote_conn.remote_addr)),
        now <= last + 30_000_000_000 ==> conn.step_after(RecvEvent::TimeoutCheck, now, last)
            == Step::Wait,
        now >= last ==> elapsed(now, last) == now - last,
        now < last ==> elapsed(now, last) == 0,
{
}

/// A counter counts by one and starts over after its last value.
pub proof fn law_counters_count_by_one(value: nat, calls: nat, modulus: nat)
    requires
        value < modulus,
    ensures
        counter_after(value, 0, modulus) == value,
        value + 1 < modulus ==> counter_after(value, 1, modulus) == value + 1,
        value + 1 == modulus ==> counter_after(value, 1, modulus) == 0,
        value + calls < modulus ==> counter_after(value, calls, modulus) == value + calls,
{
    if value + calls < modulus {
        vstd::arithmetic::div_mod::lemma_small_mod(value + calls, modulus);
    }
    vstd::arithmetic::div_mod::lemma_small_mod(value, modulus);
    if value + 1 < modulus {
        vstd::arithmetic::div_mod::lemma_small_mod(value + 1, modulus);
    } else {
        vstd::arithmetic::div_mod::lemma_mod_self_0(modulus as int);
    }
}

/// A single fragment has room for all data of a packet but a hundred bytes.
pub proof fn law_a_hundred_bytes_are_kept_free(limits: PacketLimits)
    requires
        limits.packet_data_size >= 100,
    ensures
        limits.wf(),
        limits.max_data() == limits.packet_data_size - 100,
{
}

/// A tick gives nothing before the task is started and starts it. From then on it gives one packet
/// without content and receipts under the next number, and the numbers count on by one. Ticks come
/// every ten seconds.
pub proof fn law_what_a_tick_gives(
    before: KeepAlive,
    packet_ids: u32,
    packet: Option<OutboundPacket>,
    after: KeepAlive,
    packet_ids_after: u32,
    start: u128,
    tick: nat,
)
    requires
        is_tick(before, packet_ids, packet, after, packet_ids_after),
    ensures
        after.started,
        !before.started ==> packet is None && packet_ids_after == packet_ids,
        before.started ==> {
            &&& packet is Some
            &&& packet->0.packet_id == packet_ids
            &&& packet->0.payload == SymmetricMessagePayload::NoOp
            &&& packet->0.confirm_receipt@.len() == 0
            &&& packet_ids < u32::MAX ==> packet_ids_after == packet_ids + 1
            &&& packet_ids == u32::MAX ==> packet_ids_after == 0
        },
        tick_time(start, 0) == start,
        tick_time(start, tick + 1) == tick_time(start, tick) + 10_000_000_000,
{
    law_counters_count_by_one(packet_ids as nat, 1, 0x1_0000_0000);
    assert((tick + 1) * 10_000_000_000 == tick * 10_000_000_000 + 10_000_000_000);
}

/// The packets of a message: its own comes first, all have the number of the message, and those
/// after the first carry nothing but receipts. Where everything fits there is one packet with all
/// receipts. Otherwise the first has none; receipts that fit in one packet follow in one, more
/// than that in two, where the second one has as many of the first receipts as fit.
pub proof fn law_packets_of_a_message(
    plan: Seq<OutboundPacket>,
    packet_id: u32,
    payload: SymmetricMessagePayload,
    receipts: Seq<u32>,
    fits: bool,
    max: nat,
)
    requires
        is_packet_plan(plan, packet_id, payload, receipts, fits, max),
    ensures
        plan.len() >= 1,
        plan[0].payload == payload,
        forall|i: int| 0 <= i < plan.len() ==> (#[trigger] plan[i]).packet_id == packet_id,
        forall|i: int|
            1 <= i < plan.len() ==> (#[trigger] plan[i]).payload == SymmetricMessagePayload::NoOp,
        fits ==> plan.len() == 1 && plan[0].confirm_receipt@ == receipts,
        !fits ==> plan[0].confirm_receipt@.len() == 0,
        !fits && max > 0 && receipts.len() <= max ==> plan.len() == 2 && plan[1].confirm_receipt@
            == receipts,
        !fits && max > 0 && receipts.len() > max ==> {
            &&& plan.len() == 3
            &&& plan[2].confirm_receipt@.len() == max
            &&& plan[2].confirm_receipt@ + plan[1].confirm_receipt@ == receipts
        },
        !fits && max == 0 && receipts.len() > 0 ==> plan.len() == 2 && plan[1].confirm_receipt@
            == receipts,
        !fits && max == 0 && receipts.len() == 0 ==> plan.len() == 1,
{
    if !fits && plan.len() >= 2 {
        assert(plan[1].confirm_receipt@ == crate::transport::sending::receipt_groups(
            receipts,
            max,
        )[0]);
        if max > 0 && receipts.len() > max {
            assert(plan[2].confirm_receipt@ == crate::transport::sending::receipt_groups(
                receipts,
                max,
            )[1]);
            assert(receipts.take(max as int) + receipts.skip(max as int) =~= receipts);
        }
    }
}

/// The task goes on exactly where the packet of a tick was handed to the socket.
pub proof fn law_signs_of_life_end_with_the_socket(
    task: KeepAlive,
    outcome: KeepAliveOutcome,
    r: bool,
)
    requires
        call_ensures(KeepAlive::goes_on, (&task, outcome), r),
    ensures
        r <==> outcome == KeepAliveOutcome::Sent,
{
}

/// The addresses of a connection are those that it was made with, and the handle of a stream is
/// the one under which it is open.
pub proof fn law_connections_know_their_peers<H>(
    conn: PeerConnection<H>,
    mine: Option<PeerAddr>,
    remote: PeerAddr,
    stream_id: StreamId,
    handle: Option<&H>,
)
    requires
        call_ensures(PeerConnection::<H>::my_address, (&conn,), mine),
        call_ensures(PeerConnection::<H>::remote_addr, (&conn,), remote),
        call_ensures(PeerConnection::<H>::stream_handle, (&conn, stream_id), handle),
    ensures
        mine == conn.remote_conn.my_address,
        remote == conn.remote_conn.remote_addr,
        conn.inbound_streams@.contains_key(stream_id.0) ==> handle == Some(
            &conn.inbound_streams@[stream_id.0],
        ),
        !conn.inbound_streams@.contains_key(stream_id.0) ==> handle is None,
{
}

/// A connection that is made has no streams and no failures, and the time of the first
/// confirmation starts with it.
pub proof fn law_new_connections_start_empty<H>(
    remote_conn: RemoteConnection,
    now: u128,
    conn: PeerConnection<H>,
)
    requires
        call_ensures(PeerConnection::<H>::new, (remote_conn, now), conn),
    ensures
        conn.remote_conn == remote_conn,
        conn.inbound_streams@ == Map::<u32, H>::empty(),
        conn.failure_count == 0,
        conn.first_failure_time is None,
        conn.last_packet_report_time == now,
{
}

} // verus!
