use freenet_core::contract::channel::ChannelDropped;
use freenet_core::contract::channel::Transaction;
use freenet_core::contract::channel::WaitingTransaction;
use freenet_core::contract::event::ClientId;
use freenet_core::node::listener::EventListener;
use freenet_core::node::listener::ListenerAction;
use freenet_core::node::listener::ListenerError;
use freenet_core::node::listener::ListenerEvent;
use freenet_core::node::listener::NetMessage;
use freenet_core::node::listener::NodeEvent;
use freenet_core::node::listener::Notification;

type Event = ListenerEvent<&'static str, u32, &'static str>;
type Action = ListenerAction<&'static str, u32, &'static str>;

fn tx(id: u128) -> Transaction {
    Transaction { id }
}

fn message(id: u128) -> Event {
    ListenerEvent::Network(Ok(NetMessage::Other { id: tx(id), body: "body" }))
}

fn waits(client: usize, id: u128) -> Event {
    ListenerEvent::ClientWaiting(Ok((ClientId(client), WaitingTransaction::Transaction(tx(id)))))
}

fn heard(action: Action) -> (u128, bool, Option<ClientId>) {
    match action {
        ListenerAction::Process(p) => (p.message.id().id, p.executor_callback, p.client),
        _ => panic!("no message to process"),
    }
}

#[test]
fn a_client_hears_of_every_message_of_its_transaction() {
    let mut listener = EventListener::new();
    assert_eq!(heard(listener.on_event(message(1))), (1, false, None));
    assert!(matches!(listener.on_event(waits(4, 1)), ListenerAction::Continue));
    assert!(matches!(listener.on_event(waits(5, 2)), ListenerAction::Continue));
    assert_eq!(heard(listener.on_event(message(1))), (1, false, Some(ClientId(4))));
    assert_eq!(heard(listener.on_event(message(1))), (1, false, Some(ClientId(4))));
    assert_eq!(heard(listener.on_event(message(2))), (2, false, Some(ClientId(5))));
    assert!(matches!(listener.on_event(waits(6, 1)), ListenerAction::Continue));
    assert_eq!(heard(listener.on_event(message(1))), (1, false, Some(ClientId(6))));
}

#[test]
fn the_executor_hears_of_its_transaction_once() {
    let mut listener = EventListener::new();
    let started: Event = ListenerEvent::FromExecutor(Some(tx(1)));
    assert!(matches!(listener.on_event(started), ListenerAction::Continue));
    assert_eq!(heard(listener.on_event(message(2))), (2, false, None));
    assert_eq!(heard(listener.on_event(message(1))), (1, true, None));
    assert_eq!(heard(listener.on_event(message(1))), (1, false, None));
    let none: Event = ListenerEvent::FromExecutor(None);
    assert!(matches!(listener.on_event(none), ListenerAction::Continue));
}

#[test]
fn notifications_bring_messages_too() {
    let mut listener = EventListener::new();
    let note = Notification::Message(NetMessage::Other { id: tx(3), body: "body" });
    let ev: Event = ListenerEvent::Notification(Some(note));
    assert_eq!(heard(listener.on_event(ev)), (3, false, None));
}

#[test]
fn an_aborted_transaction_is_undone_before_its_message_is_processed() {
    let mut listener = EventListener::new();
    listener.on_event::<&str, u32, &str>(ListenerEvent::FromExecutor(Some(tx(1))));
    let aborted: Event = ListenerEvent::Network(Ok(NetMessage::Aborted(tx(1))));
    let ListenerAction::HandleAborted(undone, msg) = listener.on_event(aborted) else {
        panic!("the transaction was aborted");
    };
    assert_eq!(undone, tx(1));
    let processing = listener.process(msg);
    assert!(matches!(processing.message, NetMessage::Aborted(t) if t == tx(1)));
    assert!(processing.executor_callback);
    assert!(processing.client.is_none());
}

#[test]
fn orders_to_the_node() {
    let mut listener = EventListener::new();
    let mut order = |o| -> Action { listener.on_event(ListenerEvent::Controller(Some(o))) };
    assert!(matches!(order(NodeEvent::DropConnection(9)), ListenerAction::DropConnection(9)));
    assert!(matches!(order(NodeEvent::ConnectPeer { peer: 9 }), ListenerAction::Continue));
    assert!(matches!(order(NodeEvent::Disconnect { cause: None }), ListenerAction::Shutdown));
    let cause = Some("done".to_string());
    assert!(matches!(order(NodeEvent::Disconnect { cause }), ListenerAction::Shutdown));
    let note: Event =
        ListenerEvent::Notification(Some(Notification::Event(NodeEvent::DropConnection(8))));
    assert!(matches!(listener.on_event(note), ListenerAction::DropConnection(8)));
}

#[test]
fn channels_that_are_gone() {
    let mut listener = EventListener::new();
    let mut action = |ev: Event| listener.on_event(ev);
    assert!(matches!(
        action(ListenerEvent::Notification(None)),
        ListenerAction::Fail(ListenerError::NotificationChannelShutdown)
    ));
    assert!(matches!(
        action(ListenerEvent::Controller(None)),
        ListenerAction::Fail(ListenerError::NodeControllerChannelShutdown)
    ));
    assert!(matches!(
        action(ListenerEvent::ClientWaiting(Err(ChannelDropped))),
        ListenerAction::Continue
    ));
    assert!(matches!(
        action(ListenerEvent::Network(Err("broken"))),
        ListenerAction::ReportError("broken")
    ));
}
