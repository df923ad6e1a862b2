use std::sync::Arc;
use std::time::Duration;

use freenet_core::contract::channel::contract_handler_channel;
use freenet_core::contract::channel::ContractError;
use freenet_core::contract::channel::EventId;
use freenet_core::contract::channel::HandlerReply;
use freenet_core::contract::channel::InternalCHEvent;
use freenet_core::contract::channel::Transaction;
use freenet_core::contract::channel::WaitingTransaction;
use freenet_core::contract::channel::CH_EV_RESPONSE_TIME_OUT;
use freenet_core::contract::channel::WAITING_CLIENTS;
use freenet_core::contract::event::ClientId;
use freenet_core::contract::event::ContractContainer;
use freenet_core::contract::event::ContractHandlerEvent;
use freenet_core::contract::event::ContractInstanceId;
use freenet_core::contract::event::ContractKey;
use freenet_core::contract::event::RelatedContracts;
use freenet_core::contract::event::WrappedState;
use freenet_stdlib::prelude::ContractCode;
use freenet_stdlib::prelude::Parameters;
use freenet_stdlib::prelude::WrappedContract;
use tokio::sync::mpsc;
use tokio::sync::oneshot;

type Event = ContractHandlerEvent<(), ()>;
type Response = oneshot::Sender<(EventId, Event)>;

fn no_change() -> Event {
    Event::RegisterSubscriberListenerResponse
}

fn response(value: u8) -> Event {
    Event::PutResponse { new_value: Ok(WrappedState { bytes: vec![value] }) }
}

fn value_of(ev: &Event) -> u8 {
    match ev {
        Event::PutResponse { new_value: Ok(state) } => state.bytes[0],
        _ => panic!("no response"),
    }
}

fn plain_contract() -> ContractContainer {
    let contract = WrappedContract::new(
        Arc::new(ContractCode::from(vec![0, 1, 2, 3])),
        Parameters::from(vec![4, 5]),
    );
    let mut instance = [0u8; 32];
    instance.copy_from_slice(contract.key().as_bytes());
    let mut code = [0u8; 32];
    code.copy_from_slice(contract.code().hash().as_ref());
    ContractContainer {
        key: ContractKey { instance: ContractInstanceId { bytes: instance }, code },
        code: contract.code().data().to_vec(),
        params: contract.params().as_ref().to_vec(),
    }
}

#[test]
fn channel_test() {
    let runtime = tokio::runtime::Builder::new_multi_thread()
        .worker_threads(2)
        .enable_time()
        .build()
        .unwrap();
    runtime.block_on(async {
        let (send_halve, mut rcv_halve, _) = contract_handler_channel::<Response>();
        let (event_sender, mut event_receiver) =
            mpsc::unbounded_channel::<InternalCHEvent<(), (), Response>>();

        let contract = plain_contract();
        let h = tokio::spawn(async move {
            let mut event_ids = 0;
            let (result, result_receiver) = oneshot::channel();
            let sent = send_halve.send_to_handler(
                Event::PutQuery {
                    key: contract.key,
                    state: WrappedState { bytes: vec![6, 7, 8] },
                    related_contracts: RelatedContracts { entries: vec![] },
                    contract: Some(contract),
                },
                result,
                &mut event_ids,
            );
            let reply = match event_sender.send(sent) {
                Err(err) => HandlerReply::NotSent(err.0.ev),
                Ok(()) => {
                    let wait = Duration::from_secs(CH_EV_RESPONSE_TIME_OUT);
                    match tokio::time::timeout(wait, result_receiver).await {
                        Ok(Ok((_, res))) => HandlerReply::Response(res),
                        Ok(Err(_)) => HandlerReply::Dropped,
                        Err(_) => HandlerReply::TimedOut,
                    }
                }
            };
            send_halve.on_reply(reply)
        });
        let received = tokio::time::timeout(Duration::from_millis(100), event_receiver.recv())
            .await
            .unwrap();
        let (id, ev) = rcv_halve.recv_from_sender(received).unwrap();

        let Event::PutQuery { state, .. } = ev else {
            panic!("invalid event");
        };
        assert_eq!(state.bytes, &[6, 7, 8]);

        let (result, answer) = rcv_halve
            .send_to_sender(
                id,
                Event::PutResponse { new_value: Ok(WrappedState { bytes: vec![0, 7] }) },
            )
            .unwrap();
        let delivered = result.send(answer).is_ok();
        rcv_halve.on_responded::<(), ()>(delivered).unwrap();
        let Event::PutResponse { new_value } = h.await.unwrap().unwrap() else {
            panic!("invalid event!");
        };
        let new_value = new_value.unwrap();
        assert_eq!(new_value.bytes, &[0, 7]);
    });
}

#[test]
fn a_response_goes_to_the_handle_of_its_event() {
    let (sender, mut handler, _) = contract_handler_channel::<&str>();
    let mut ids = 5;
    let first = sender.send_to_handler(no_change(), "first", &mut ids);
    let second = sender.send_to_handler(no_change(), "second", &mut ids);
    assert_eq!((first.id, second.id, ids), (5, 6, 7));
    let (first_id, _) = handler.recv_from_sender(Some(first)).unwrap();
    let (second_id, _) = handler.recv_from_sender(Some(second)).unwrap();
    let (to, (_, ev)) = handler.send_to_sender(second_id, response(2)).unwrap();
    assert_eq!((to, value_of(&ev)), ("second", 2));
    let (to, (_, ev)) = handler.send_to_sender(first_id, response(1)).unwrap();
    assert_eq!((to, value_of(&ev)), ("first", 1));
}

#[test]
fn a_second_response_finds_nobody() {
    let (sender, mut handler, _) = contract_handler_channel::<u8>();
    let mut ids = 0;
    let sent = sender.send_to_handler(no_change(), 1, &mut ids);
    let (id, _) = handler.recv_from_sender(Some(sent)).unwrap();
    let (_, (id, _)) = handler.send_to_sender(id, response(1)).unwrap();
    assert!(matches!(
        handler.send_to_sender(id, response(2)),
        Err(ContractError::NoEvHandlerResponse)
    ));
}

#[test]
fn event_numbers_start_over_after_the_last() {
    let (sender, _, _) = contract_handler_channel::<u8>();
    let mut ids = u64::MAX;
    assert_eq!(sender.send_to_handler(no_change(), 1, &mut ids).id, u64::MAX);
    assert_eq!(ids, 0);
}

#[test]
fn the_channel_says_what_went_wrong() {
    let (sender, mut handler, waiting) = contract_handler_channel::<u8>();
    assert!(matches!(
        sender.on_reply(HandlerReply::NotSent(response(9))),
        Err(ContractError::ChannelDropped(ev)) if value_of(&ev) == 9
    ));
    assert!(matches!(
        sender.on_reply(HandlerReply::<(), ()>::Dropped),
        Err(ContractError::NoEvHandlerResponse)
    ));
    assert!(matches!(
        sender.on_reply(HandlerReply::<(), ()>::TimedOut),
        Err(ContractError::NoEvHandlerResponse)
    ));
    assert_eq!(value_of(&sender.on_reply(HandlerReply::Response(response(3))).unwrap()), 3);
    assert!(matches!(
        handler.recv_from_sender::<(), ()>(None),
        Err(ContractError::NoEvHandlerResponse)
    ));
    assert!(matches!(
        handler.on_responded::<(), ()>(false),
        Err(ContractError::NoEvHandlerResponse)
    ));
    assert!(handler.on_responded::<(), ()>(true).is_ok());
    assert!(matches!(
        sender.on_announced::<(), ()>(false),
        Err(ContractError::NoEvHandlerResponse)
    ));
    assert!(sender.on_announced::<(), ()>(true).is_ok());
    assert!(waiting.relay_transaction_result_to_client(None).is_err());
}

#[test]
fn waiting_clients_are_announced() {
    let (sender, _, waiting) = contract_handler_channel::<u8>();
    let tx = Transaction { id: 77 };
    let announced = sender.waiting_for_transaction_result(tx.into(), ClientId(3));
    let (client, transaction) = waiting.relay_transaction_result_to_client(Some(announced)).unwrap();
    assert_eq!(client, ClientId(3));
    assert!(matches!(transaction, WaitingTransaction::Transaction(t) if t == tx));
    let contract_key = ContractInstanceId { bytes: [4; 32] };
    let announced = sender
        .waiting_for_transaction_result(WaitingTransaction::Subscription { contract_key }, ClientId(1));
    assert!(matches!(
        announced,
        (ClientId(1), WaitingTransaction::Subscription { contract_key: k }) if k.bytes == [4; 32]
    ));
}

#[test]
fn the_limits_of_the_channel() {
    assert_eq!(CH_EV_RESPONSE_TIME_OUT, 300);
    assert_eq!(WAITING_CLIENTS, 10);
}

#[test]
fn serialization() {
    let bytes: Vec<u8> = (0..1024).map(|_| rand::random::<u8>()).collect();
    let mut gen = arbitrary::Unstructured::new(&bytes);
    let contract: WrappedContract = gen.arbitrary().unwrap();

    let serialized = bincode::serialize(&contract).unwrap();
    let deser: WrappedContract = bincode::deserialize(&serialized).unwrap();
    assert_eq!(deser.code(), contract.code());
    assert_eq!(deser.key(), contract.key());
}

#[test]
fn events_come_out_as_they_were_sent() {
    let (sender, mut handler, _) = contract_handler_channel::<usize>();
    let (other, _, _) = contract_handler_channel::<usize>();
    let mut ids = u64::MAX - 1;
    let mut sent = Vec::new();
    for n in 0..4 {
        sent.push(sender.send_to_handler(response(n as u8), n, &mut ids));
        other.send_to_handler(no_change(), n, &mut ids);
    }
    let numbers: Vec<u64> = sent.iter().map(|s| s.id).collect();
    assert_eq!(numbers, vec![u64::MAX - 1, 0, 2, 4]);
    let mut received = Vec::new();
    for (n, s) in sent.into_iter().enumerate() {
        let (id, ev) = handler.recv_from_sender(Some(s)).unwrap();
        assert_eq!(value_of(&ev) as usize, n);
        received.push(id);
    }
    assert!(handler.recv_from_sender::<(), ()>(None).is_err());
    for (n, id) in received.into_iter().enumerate() {
        assert_eq!(handler.send_to_sender(id, no_change()).unwrap().0, n);
    }
}
