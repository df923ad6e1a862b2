use freenet_core::transport::connection::Outgoing;
use freenet_core::transport::connection::PacketHandling;
use freenet_core::transport::connection::PeerConnection;
use freenet_core::transport::connection::RecvEvent;
use freenet_core::transport::connection::RemoteConnection;
use freenet_core::transport::connection::ReportResult;
use freenet_core::transport::connection::ResendAction;
use freenet_core::transport::connection::Step;
use freenet_core::transport::connection::FAILURE_TIME_WINDOW;
use freenet_core::transport::keep_alive::KEEP_ALIVE_INTERVAL;
use freenet_core::transport::connection::KILL_CONNECTION_AFTER;
use freenet_core::transport::ids::take_next;
use freenet_core::transport::ids::StreamId;
use freenet_core::transport::keep_alive::KeepAlive;
use freenet_core::transport::keep_alive::KeepAliveOutcome;
use freenet_core::transport::message::AckOk;
use freenet_core::transport::message::OutboundPacket;
use freenet_core::transport::message::PacketLimits;
use freenet_core::transport::message::PeerAddr;
use freenet_core::transport::message::SymmetricMessagePayload;
use freenet_core::transport::message::TransportError;
use freenet_core::transport::sending::packet_sending;
use freenet_core::transport::sending::PacketBatch;

const SECOND: u128 = 1_000_000_000;
const REMOTE: PeerAddr = PeerAddr::V4 { ipv4: 0x7f00_0001, port: 8080 };
const MINE: PeerAddr = PeerAddr::V6 { ipv6: 1, port: 9090, flowinfo: 0, scope_id: 0 };

fn limits() -> PacketLimits {
    PacketLimits { packet_data_size: 1100, short_message_overhead: 20, max_noop_receipts: 3 }
}

fn connection(max_failures: usize) -> PeerConnection<&'static str> {
    PeerConnection::new(
        RemoteConnection {
            remote_addr: REMOTE,
            my_address: Some(MINE),
            inbound_symmetric_key_bytes: [1; 16],
            bandwidth_limit: Some(5000),
            limits: limits(),
            confirmation_timeout: SECOND,
            max_failures,
        },
        100 * SECOND,
    )
}

fn is_closed(step: &Step) -> bool {
    matches!(step, Step::Close(TransportError::ConnectionClosed(addr)) if *addr == REMOTE)
}

fn is_ack(ack: &AckOk) -> bool {
    ack.key == [1; 16] && ack.remote_addr == REMOTE
}

fn fragment(stream: u32, number: u32) -> SymmetricMessagePayload {
    SymmetricMessagePayload::StreamFragment {
        stream_id: StreamId(stream),
        total_length_bytes: 3000,
        fragment_number: number,
        payload: vec![number as u8],
    }
}

fn receipts_of(plan: &[OutboundPacket]) -> Vec<Vec<u32>> {
    plan.iter().map(|p| p.confirm_receipt.clone()).collect()
}

#[test]
fn identifiers_count_up_and_start_over() {
    let mut counter = 0;
    assert_eq!(StreamId::next(&mut counter), StreamId(0));
    assert_eq!(StreamId::next(&mut counter), StreamId(1));
    assert_eq!(counter, 2);
    let mut counter = u32::MAX;
    assert_eq!(take_next(&mut counter), u32::MAX);
    assert_eq!(take_next(&mut counter), 0);
    assert_eq!(StreamId(0).to_string(), "0");
    assert_eq!(StreamId(u32::MAX).to_string(), "4294967295");
}

#[test]
fn a_connection_knows_its_addresses() {
    let conn = connection(1);
    assert_eq!(conn.my_address(), Some(MINE));
    assert_eq!(conn.remote_addr(), REMOTE);
    assert_eq!(conn.failure_count, 0);
    assert_eq!(conn.first_failure_time, None);
    assert_eq!(conn.last_packet_report_time, 100 * SECOND);
    assert!(conn.inbound_streams.is_empty());
}

#[test]
fn a_message_that_fits_leaves_in_one_packet() {
    let conn = connection(1);
    assert_eq!(limits().max_data_size(), 1000);
    let mut streams = 3;
    match conn.send(vec![0; 980], &mut streams) {
        Outgoing::Short(data) => assert_eq!(data.len(), 980),
        Outgoing::Stream(_) => panic!("it fits"),
    }
    assert_eq!(streams, 3);
    match conn.send(vec![0; 981], &mut streams) {
        Outgoing::Short(_) => panic!("it does not fit"),
        Outgoing::Stream(task) => {
            assert_eq!(task.stream_id, StreamId(3));
            assert_eq!(task.remote_addr, REMOTE);
            assert_eq!(task.data.len(), 981);
            assert_eq!(task.bandwidth_limit, Some(5000));
        }
    }
    assert_eq!(streams, 4);
}

#[test]
fn a_short_message_takes_the_waiting_receipts_along() {
    let conn = connection(1);
    let mut ids = 7;
    let p = conn.outbound_short_message(vec![1, 2], vec![4, 5], &mut ids);
    assert_eq!((p.packet_id, ids), (7, 8));
    assert_eq!(p.confirm_receipt, vec![4, 5]);
    assert!(matches!(p.payload, SymmetricMessagePayload::ShortMessage { payload } if payload == [1, 2]));
}

#[test]
fn nothing_is_sent_where_nothing_is_to_be_confirmed() {
    let conn = connection(1);
    let mut ids = 7;
    assert!(conn.noop(vec![], &mut ids).is_none());
    assert_eq!(ids, 7);
    let p = conn.noop(vec![1], &mut ids).unwrap();
    assert_eq!((p.packet_id, ids), (7, 8));
    assert_eq!(p.confirm_receipt, vec![1]);
    assert!(matches!(p.payload, SymmetricMessagePayload::NoOp));
}

#[test]
fn receipts_that_fit_go_with_the_message() {
    let payload = SymmetricMessagePayload::ShortMessage { payload: vec![9] };
    let plan = packet_sending(5, payload, vec![1, 2, 3, 4], true, 3);
    assert_eq!(receipts_of(&plan), vec![vec![1, 2, 3, 4]]);
    assert_eq!(plan[0].packet_id, 5);
    assert!(matches!(&plan[0].payload, SymmetricMessagePayload::ShortMessage { payload } if payload == &[9]));
}

#[test]
fn receipts_that_do_not_fit_follow_in_packets_of_their_own() {
    let plan_of = |receipts: Vec<u32>, max| {
        let payload = SymmetricMessagePayload::ShortMessage { payload: vec![9] };
        let plan = packet_sending(5, payload, receipts, false, max);
        assert!(matches!(&plan[0].payload, SymmetricMessagePayload::ShortMessage { .. }));
        for p in &plan[1..] {
            assert!(matches!(&p.payload, SymmetricMessagePayload::NoOp));
        }
        assert!(plan.iter().all(|p| p.packet_id == 5));
        receipts_of(&plan)
    };
    assert_eq!(plan_of(vec![1, 2], 3), vec![vec![], vec![1, 2]]);
    assert_eq!(plan_of(vec![1, 2, 3], 3), vec![vec![], vec![1, 2, 3]]);
    assert_eq!(plan_of(vec![1, 2, 3, 4], 3), vec![vec![], vec![4], vec![1, 2, 3]]);
    assert_eq!(plan_of(vec![1, 2, 3, 4, 5, 6], 3), vec![vec![], vec![4, 5, 6], vec![1, 2, 3]]);
    assert_eq!(plan_of(vec![1, 2, 3], 1), vec![vec![], vec![2, 3], vec![1]]);
    assert_eq!(plan_of(vec![], 3), vec![Vec::<u32>::new(), vec![]]);
    assert_eq!(plan_of(vec![], 0), vec![Vec::<u32>::new()]);
    assert_eq!(plan_of(vec![1, 2], 0), vec![vec![], vec![1, 2]]);
}

#[test]
fn the_packets_of_a_message_are_sent_in_turn() {
    let plan = packet_sending(5, SymmetricMessagePayload::NoOp, vec![1, 2, 3, 4], false, 3);
    let mut batch = PacketBatch::new(REMOTE, plan);
    assert_eq!(batch.current().unwrap().confirm_receipt, Vec::<u32>::new());
    assert!(matches!(batch.on_sent(true), Ok(5)));
    assert_eq!(batch.current().unwrap().confirm_receipt, vec![4]);
    assert!(matches!(
        batch.on_sent(false),
        Err(TransportError::ConnectionClosed(addr)) if addr == REMOTE
    ));
    assert_eq!(batch.current().unwrap().confirm_receipt, vec![4]);
    assert!(matches!(batch.on_sent(true), Ok(5)));
    assert!(matches!(batch.on_sent(true), Ok(5)));
    assert!(batch.current().is_none());
}

#[test]
fn packets_are_decrypted_when_they_arrive() {
    let mut conn = connection(1);
    let mut last = 100 * SECOND;
    let step = conn.recv(RecvEvent::Packet { arrived: true }, 105 * SECOND, &mut last);
    assert!(matches!(step, Step::Decrypt));
    assert_eq!(last, 105 * SECOND);
    let step = conn.recv(RecvEvent::Packet { arrived: false }, 106 * SECOND, &mut last);
    assert!(is_closed(&step));
    assert_eq!(last, 105 * SECOND);
}

#[test]
fn too_many_failures_in_one_window_close_the_connection() {
    let mut conn = connection(2);
    let mut last = 0;
    let start = 200 * SECOND;
    let mut fail = |conn: &mut PeerConnection<&'static str>, at| {
        conn.recv(RecvEvent::Undecryptable { len: 40 }, at, &mut last)
    };
    assert!(matches!(fail(&mut conn, start), Step::Wait));
    assert!(matches!(fail(&mut conn, start + SECOND), Step::Wait));
    assert!(is_closed(&fail(&mut conn, start + FAILURE_TIME_WINDOW)));
    assert_eq!(conn.failure_count, 3);
    assert_eq!(conn.first_failure_time, Some(start));
}

#[test]
fn valid_packets_in_between_do_not_reset_the_count() {
    let mut conn = connection(2);
    let mut last = 0;
    let start = 200 * SECOND;
    for n in 0..3 {
        let at = start + n * SECOND;
        let valid = SymmetricMessagePayload::ShortMessage { payload: vec![n as u8] };
        conn.recv(RecvEvent::Packet { arrived: true }, at, &mut last);
        conn.recv(RecvEvent::Recorded { report: ReportResult::New }, at, &mut last);
        assert!(matches!(conn.recv(RecvEvent::Payload(valid), at, &mut last), Step::Deliver(_)));
        conn.recv(RecvEvent::Packet { arrived: true }, at, &mut last);
        let step = conn.recv(RecvEvent::Undecryptable { len: 40 }, at, &mut last);
        assert_eq!(is_closed(&step), n == 2);
        assert_eq!(conn.failure_count, n as usize + 1);
        assert_eq!(conn.first_failure_time, Some(start));
    }
}

#[test]
fn a_failure_after_the_window_starts_anew() {
    let mut conn = connection(2);
    let mut last = 0;
    let start = 200 * SECOND;
    for at in [start, start + SECOND] {
        assert!(matches!(conn.recv(RecvEvent::Undecryptable { len: 40 }, at, &mut last), Step::Wait));
    }
    let late = start + FAILURE_TIME_WINDOW + 1;
    assert!(matches!(conn.recv(RecvEvent::Undecryptable { len: 40 }, late, &mut last), Step::Wait));
    assert_eq!(conn.failure_count, 1);
    assert_eq!(conn.first_failure_time, Some(late));
}

#[test]
fn introductions_are_answered() {
    let mut conn = connection(0);
    let mut last = 0;
    let step = conn.recv(RecvEvent::Undecryptable { len: 256 }, SECOND, &mut last);
    assert!(matches!(step, Step::TryIntro));
    let step = conn.recv(RecvEvent::Intro { opened: true }, SECOND, &mut last);
    assert!(matches!(step, Step::AnswerIntro(ack) if is_ack(&ack)));
    assert_eq!(conn.failure_count, 0);
    let step = conn.recv(RecvEvent::Intro { opened: false }, SECOND, &mut last);
    assert!(is_closed(&step));
    assert_eq!(conn.failure_count, 1);
}

#[test]
fn receipts_are_passed_on_for_repeated_packets_too() {
    let mut conn = connection(1);
    for _ in 0..2 {
        let ev = RecvEvent::Decrypted { packet_id: 9, confirm_receipt: vec![3, 4, 4] };
        assert!(matches!(
            conn.recv(ev, SECOND, &mut 0),
            Step::Record { packet_id: 9, confirmed } if confirmed == [3, 4, 4]
        ));
        let ev = RecvEvent::Recorded { report: ReportResult::AlreadyReceived };
        assert!(matches!(
            conn.recv(ev, SECOND, &mut 0),
            Step::Handle(PacketHandling { confirm: false, process: false })
        ));
    }
}

#[test]
fn received_packets_are_confirmed_when_it_is_time() {
    let handle = |conn: &mut PeerConnection<&'static str>, report, now| {
        match conn.recv(RecvEvent::Recorded { report }, now, &mut 0) {
            Step::Handle(handling) => handling,
            _ => panic!("a recorded packet is handled"),
        }
    };
    let yes = PacketHandling { confirm: true, process: true };
    let quiet = PacketHandling { confirm: false, process: true };
    let drop = PacketHandling { confirm: false, process: false };
    let mut conn = connection(1);
    let early = 101 * SECOND;
    assert_eq!(handle(&mut conn, ReportResult::New, early), quiet);
    assert_eq!(handle(&mut conn, ReportResult::AlreadyReceived, early), drop);
    assert_eq!(handle(&mut conn, ReportResult::QueueFull, early), yes);
    assert_eq!(conn.last_packet_report_time, 100 * SECOND);
    assert_eq!(handle(&mut conn, ReportResult::AlreadyReceived, early + 1), yes);
    assert_eq!(conn.last_packet_report_time, early + 1);
    assert_eq!(handle(&mut conn, ReportResult::New, early + 2), quiet);
}

#[test]
fn payloads_say_what_to_do() {
    let mut conn = connection(1);
    let mut last = 0;
    let mut step = |conn: &mut PeerConnection<&'static str>, payload| {
        conn.recv(RecvEvent::Payload(payload), SECOND, &mut last)
    };
    let short = SymmetricMessagePayload::ShortMessage { payload: vec![1, 2] };
    assert!(matches!(step(&mut conn, short), Step::Deliver(msg) if msg == [1, 2]));
    assert!(matches!(step(&mut conn, SymmetricMessagePayload::NoOp), Step::Wait));
    let refused = SymmetricMessagePayload::AckConnection { result: Err("busy".to_string()) };
    assert!(matches!(
        step(&mut conn, refused),
        Step::Close(TransportError::ConnectionEstablishmentFailure { cause }) if cause == "busy"
    ));
    let accepted = SymmetricMessagePayload::AckConnection {
        result: Ok(AckOk { key: [8; 16], remote_addr: MINE }),
    };
    assert!(matches!(step(&mut conn, accepted), Step::Answer(ack) if is_ack(&ack)));
    assert!(matches!(
        step(&mut conn, fragment(4, 1)),
        Step::OpenStream { stream_id: StreamId(4), total_length_bytes: 3000, fragment_number: 1, payload }
            if payload == [1]
    ));
}

#[test]
fn fragments_reach_the_stream_that_they_belong_to() {
    let mut conn = connection(1);
    let mut last = 0;
    let opened = RecvEvent::Opened { stream_id: StreamId(4), handle: "four", complete: None };
    assert!(matches!(conn.recv(opened, SECOND, &mut last), Step::Wait));
    let opened = RecvEvent::Opened { stream_id: StreamId(5), handle: "five", complete: None };
    assert!(matches!(conn.recv(opened, SECOND, &mut last), Step::Wait));
    assert!(matches!(
        conn.recv(RecvEvent::Payload(fragment(4, 2)), SECOND, &mut last),
        Step::PassFragment { stream_id: StreamId(4), fragment_number: 2, payload } if payload == [2]
    ));
    assert_eq!(conn.stream_handle(StreamId(4)), Some(&"four"));
    let done = RecvEvent::InboundStream(Some(Ok(Ok((StreamId(4), vec![7])))));
    assert!(matches!(conn.recv(done, SECOND, &mut last), Step::Deliver(msg) if msg == [7]));
    assert_eq!(conn.stream_handle(StreamId(4)), None);
    assert_eq!(conn.stream_handle(StreamId(5)), Some(&"five"));
}

#[test]
fn a_stream_of_one_fragment_is_never_open() {
    let mut conn = connection(1);
    let whole = RecvEvent::Opened { stream_id: StreamId(4), handle: "four", complete: Some(vec![3]) };
    assert!(matches!(conn.recv(whole, SECOND, &mut 0), Step::Deliver(msg) if msg == [3]));
    assert_eq!(conn.stream_handle(StreamId(4)), None);
}

#[test]
fn failed_streams_and_tasks() {
    let mut conn = connection(1);
    let mut last = 0;
    let mut step = |ev| conn.recv(ev, SECOND, &mut last);
    assert!(matches!(step(RecvEvent::InboundStream(None)), Step::Wait));
    assert!(matches!(step(RecvEvent::InboundStream(Some(Ok(Err(StreamId(1)))))), Step::Wait));
    assert!(matches!(
        step(RecvEvent::InboundStream(Some(Err("gone".to_string())))),
        Step::Close(TransportError::Other(cause)) if cause == "gone"
    ));
    assert!(matches!(step(RecvEvent::OutboundStream(None)), Step::Wait));
    assert!(matches!(step(RecvEvent::OutboundStream(Some(Ok(Ok(()))))), Step::Wait));
    assert!(matches!(
        step(RecvEvent::OutboundStream(Some(Ok(Err(TransportError::ConnectionClosed(MINE)))))),
        Step::Close(TransportError::ConnectionClosed(addr)) if addr == MINE
    ));
    assert!(matches!(
        step(RecvEvent::OutboundStream(Some(Err("gone".to_string())))),
        Step::Close(TransportError::Other(cause)) if cause == "gone"
    ));
}

#[test]
fn packets_are_sent_again_until_they_are_confirmed() {
    let mut conn = connection(1);
    let mut last = 0;
    let mut step = |ev| conn.recv(ev, SECOND, &mut last);
    assert!(matches!(
        step(RecvEvent::ResendCheck(ResendAction::WaitUntil(9))),
        Step::CheckResendsAt(9)
    ));
    assert!(matches!(
        step(RecvEvent::ResendCheck(ResendAction::Resend(3))),
        Step::SendAgain { packet_id: 3 }
    ));
    assert!(matches!(
        step(RecvEvent::SentAgain { packet_id: 3, delivered: true }),
        Step::TrackAgain { packet_id: 3 }
    ));
    assert!(is_closed(&step(RecvEvent::SentAgain { packet_id: 3, delivered: false })));
    assert!(matches!(step(RecvEvent::HandedOver { delivered: true }), Step::Wait));
    assert!(is_closed(&step(RecvEvent::HandedOver { delivered: false })));
}

#[test]
fn a_silent_connection_is_closed() {
    let mut conn = connection(1);
    let mut last = 100 * SECOND;
    let limit = 100 * SECOND + KILL_CONNECTION_AFTER;
    assert!(matches!(conn.recv(RecvEvent::TimeoutCheck, limit, &mut last), Step::Wait));
    assert!(is_closed(&conn.recv(RecvEvent::TimeoutCheck, limit + 1, &mut last)));
    assert!(matches!(conn.recv(RecvEvent::TimeoutCheck, 50 * SECOND, &mut last), Step::Wait));
    assert_eq!(KILL_CONNECTION_AFTER, 30 * SECOND);
    assert_eq!(3 * KEEP_ALIVE_INTERVAL, KILL_CONNECTION_AFTER);
}

#[test]
fn signs_of_life_and_messages_share_their_numbers() {
    let conn = connection(1);
    let mut task = KeepAlive::new();
    let mut ids = u32::MAX;
    assert!(task.on_tick(&mut ids).is_none());
    let mut taken = Vec::new();
    for _ in 0..3 {
        taken.push(conn.outbound_short_message(vec![], vec![], &mut ids).packet_id);
        taken.push(task.on_tick(&mut ids).unwrap().packet_id);
    }
    assert_eq!(taken, vec![u32::MAX, 0, 1, 2, 3, 4]);
}

#[test]
fn signs_of_life_are_sent_at_every_tick_but_the_first() {
    let mut task = KeepAlive::new();
    let mut ids = 7;
    assert!(task.on_tick(&mut ids).is_none());
    assert_eq!(ids, 7);
    let p = task.on_tick(&mut ids).unwrap();
    assert_eq!((p.packet_id, ids), (7, 8));
    assert!(p.confirm_receipt.is_empty());
    assert!(matches!(p.payload, SymmetricMessagePayload::NoOp));
    assert!(task.goes_on(KeepAliveOutcome::Sent));
    assert!(!task.goes_on(KeepAliveOutcome::EncodingFailed));
    assert!(!task.goes_on(KeepAliveOutcome::ChannelClosed));
}
