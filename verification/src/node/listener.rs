//! What a simulated node does with the events that reach it.
use std::collections::HashMap;
use std::collections::HashSet;

use vstd::prelude::*;

use crate::contract::channel::ChannelDropped;
use crate::contract::channel::Transaction;
use crate::contract::channel::WaitingTransaction;
use crate::contract::event::ClientId;

verus! {

broadcast use vstd::std_specs::hash::group_hash_axioms;

/// A message of the network. `M` is what it carries besides the transaction.
pub enum NetMessage<M> {
    /// The transaction was aborted.
    Aborted(Transaction),
    /// Anything else that belongs to a transaction.
    Other { id: Transaction, body: M },
}

impl<M> NetMessage<M> {
    /// The transaction that a message belongs to.
    pub open spec fn tx(self) -> Transaction {
        match self {
            NetMessage::Aborted(tx) => tx,
            NetMessage::Other { id, .. } => id,
        }
    }

    /// The transaction that the message belongs to.
    pub fn id(&self) -> (r: Transaction)
        ensures
            r == self.tx(),
    {
        match self {
            NetMessage::Aborted(tx) => *tx,
            NetMessage::Other { id, .. } => *id,
        }
    }
}

/// An order to the node itself. `P` identifies a peer.
pub enum NodeEvent<P> {
    /// Drop the connection to a peer.
    DropConnection(P),
    /// A connection to a peer was made.
    ConnectPeer { peer: P },
    /// Shut down.
    Disconnect { cause: Option<String> },
    /// Say which connections there are.
    QueryConnections,
    /// A transaction took too long.
    TransactionTimedOut(Transaction),
    /// Say which subscriptions there are.
    QuerySubscriptions,
    /// Say how the node is doing.
    QueryNodeDiagnostics,
}

/// What comes through the notification channel of the node.
pub enum Notification<M, P> {
    /// A message to process.
    Message(NetMessage<M>),
    /// An order to the node.
    Event(NodeEvent<P>),
}

/// What reaches a node. `E` is the error of a connection.
pub enum ListenerEvent<M, P, E> {
    /// A message of the network, or that it could not be received.
    Network(Result<NetMessage<M>, E>),
    /// A notification, or that the channel for them is gone.
    Notification(Option<Notification<M, P>>),
    /// An order to the node, or that the channel for them is gone.
    Controller(Option<NodeEvent<P>>),
    /// A client that waits, or that no other one will be announced.
    ClientWaiting(Result<(ClientId, WaitingTransaction), ChannelDropped>),
    /// A transaction that the executor started, or that it starts no more.
    FromExecutor(Option<Transaction>),
}

/// Why a node stops listening.
#[derive(Debug, Clone, Copy, PartialEq, Eq, Structural)]
pub enum ListenerError {
    /// The notification channel is gone.
    NotificationChannelShutdown,
    /// The channel for orders to the node is gone.
    NodeControllerChannelShutdown,
}

/// A message to process and who hears of the outcome.
pub struct Processing<M> {
    /// The message.
    pub message: NetMessage<M>,
    /// Whether the executor waits for this transaction.
    pub executor_callback: bool,
    /// The client that waits for this transaction.
    pub client: Option<ClientId>,
}

/// What a node does next.
pub enum ListenerAction<M, P, E> {
    /// Nothing.
    Continue,
    /// Stop with an error.
    Fail(ListenerError),
    /// Stop.
    Shutdown,
    /// Register that a peer is disconnected and remove the connection to it.
    DropConnection(P),
    /// Report that a message could not be received.
    ReportError(E),
    /// Undo what an aborted transaction began, then process the message.
    HandleAborted(Transaction, NetMessage<M>),
    /// Process a message.
    Process(Processing<M>),
}

/// The transactions that somebody waits for.
pub struct EventListener {
    pending_from_executor: HashSet<u128>,
    tx_to_client: HashMap<u128, ClientId>,
}

/// Whether a node can deal with an order.
pub open spec fn is_supported_order<P>(order: NodeEvent<P>) -> bool {
    match order {
        NodeEvent::DropConnection(_) => true,
        NodeEvent::ConnectPeer { .. } => true,
        NodeEvent::Disconnect { .. } => true,
        _ => false,
    }
}

/// Whether a node can deal with an event.
pub open spec fn is_supported<M, P, E>(ev: ListenerEvent<M, P, E>) -> bool {
    match ev {
        ListenerEvent::Notification(Some(Notification::Event(order))) => is_supported_order(order),
        ListenerEvent::Controller(Some(order)) => is_supported_order(order),
        ListenerEvent::ClientWaiting(Ok((_, WaitingTransaction::Subscription { .. }))) => false,
        _ => true,
    }
}

/// What a node does about an order that it can deal with.
pub open spec fn order_action<M, P, E>(order: NodeEvent<P>) -> ListenerAction<M, P, E> {
    match order {
        NodeEvent::DropConnection(peer) => ListenerAction::DropConnection(peer),
        NodeEvent::Disconnect { .. } => ListenerAction::Shutdown,
        _ => ListenerAction::Continue,
    }
}

/// The message that an event brings.
pub open spec fn message_of<M, P, E>(ev: ListenerEvent<M, P, E>) -> Option<NetMessage<M>> {
    match ev {
        ListenerEvent::Network(Ok(message)) => Some(message),
        ListenerEvent::Notification(Some(Notification::Message(message))) => Some(message),
        _ => None,
    }
}

/// The transactions of the executor after an event.
pub open spec fn pending_after<M, P, E>(pending: Set<u128>, ev: ListenerEvent<M, P, E>) -> Set<
    u128,
> {
    match (ev, message_of(ev)) {
        (ListenerEvent::FromExecutor(Some(tx)), _) => pending.insert(tx.id),
        (_, Some(NetMessage::Other { id, .. })) => pending.remove(id.id),
        _ => pending,
    }
}

/// The waiting clients after an event.
pub open spec fn clients_after<M, P, E>(
    clients: Map<u128, ClientId>,
    ev: ListenerEvent<M, P, E>,
) -> Map<u128, ClientId> {
    match ev {
        ListenerEvent::ClientWaiting(Ok((client, WaitingTransaction::Transaction(tx)))) => {
            clients.insert(tx.id, client)
        },
        _ => clients,
    }
}

/// How a message is processed while these transactions are waited for.
pub open spec fn processing_of<M>(
    pending: Set<u128>,
    clients: Map<u128, ClientId>,
    message: NetMessage<M>,
) -> Processing<M> {
    Processing {
        message,
        executor_callback: pending.contains(message.tx().id),
        client: if clients.contains_key(message.tx().id) {
            Some(clients[message.tx().id])
        } else {
            None
        },
    }
}

/// What a node does about an event while these transactions are waited for.
pub open spec fn action_of<M, P, E>(
    pending: Set<u128>,
    clients: Map<u128, ClientId>,
    ev: ListenerEvent<M, P, E>,
) -> ListenerAction<M, P, E> {
    match message_of(ev) {
        Some(NetMessage::Aborted(tx)) => ListenerAction::HandleAborted(
            tx,
            NetMessage::Aborted(tx),
        ),
        Some(message) => ListenerAction::Process(processing_of(pending, clients, message)),
        None => match ev {
            ListenerEvent::Network(Err(e)) => ListenerAction::ReportError(e),
            ListenerEvent::Notification(None) => ListenerAction::Fail(
                ListenerError::NotificationChannelShutdown,
            ),
            ListenerEvent::Notification(Some(Notification::Event(order))) => order_action(order),
            ListenerEvent::Controller(None) => ListenerAction::Fail(
                ListenerError::NodeControllerChannelShutdown,
            ),
            ListenerEvent::Controller(Some(order)) => order_action(order),
            _ => ListenerAction::Continue,
        },
    }
}

impl EventListener {
    /// The transactions that the executor waits for.
    pub closed spec fn pending(self) -> Set<u128> {
        self.pending_from_executor@
    }

    /// The clients that wait for transactions.
    pub closed spec fn clients(self) -> Map<u128, ClientId> {
        self.tx_to_client@
    }

    /// A listener of a node for which nobody waits.
    pub fn new() -> (r: Self)
        ensures
            r.pending() == Set::<u128>::empty(),
            r.clients() == Map::<u128, ClientId>::empty(),
    {
        EventListener { pending_from_executor: HashSet::new(), tx_to_client: HashMap::new() }
    }

    /// Takes in an event and says what the node does next.
    pub fn on_event<M, P, E>(&mut self, ev: ListenerEvent<M, P, E>) -> (r: ListenerAction<M, P, E>)
        requires
            is_supported(ev),
        ensures
            r == action_of(old(self).pending(), old(self).clients(), ev),
            final(self).pending() == pending_after(old(self).pending(), ev),
            final(self).clients() == clients_after(old(self).clients(), ev),
    {
        match ev {
            ListenerEvent::Network(Ok(message)) => self.on_net_message(message),
            ListenerEvent::Network(Err(e)) => ListenerAction::ReportError(e),
            ListenerEvent::Notification(None) => ListenerAction::Fail(
                ListenerError::NotificationChannelShutdown,
            ),
            ListenerEvent::Notification(Some(Notification::Message(message))) => {
                self.on_net_message(message)
            },
            ListenerEvent::Notification(Some(Notification::Event(order))) => Self::on_order(order),
            ListenerEvent::Controller(None) => ListenerAction::Fail(
                ListenerError::NodeControllerChannelShutdown,
            ),
            ListenerEvent::Controller(Some(order)) => Self::on_order(order),
            ListenerEvent::ClientWaiting(Ok((client, WaitingTransaction::Transaction(tx)))) => {
                self.tx_to_client.insert(tx.id, client);
                ListenerAction::Continue
            },
            ListenerEvent::ClientWaiting(_) => ListenerAction::Continue,
            ListenerEvent::FromExecutor(Some(tx)) => {
                self.pending_from_executor.insert(tx.id);
                ListenerAction::Continue
            },
            ListenerEvent::FromExecutor(None) => ListenerAction::Continue,
        }
    }

    /// Takes in a message. One that aborts a transaction is dealt with as such first.
    fn on_net_message<M, P, E>(&mut self, message: NetMessage<M>) -> (r: ListenerAction<M, P, E>)
        ensures
            r == action_of(
                old(self).pending(),
                old(self).clients(),
                ListenerEvent::<M, P, E>::Network(Ok(message)),
            ),
            final(self).pending() == pending_after(
                old(self).pending(),
                ListenerEvent::<M, P, E>::Network(Ok(message)),
            ),
            final(self).clients() == old(self).clients(),
    {
        match message {
            NetMessage::Aborted(tx) => ListenerAction::HandleAborted(tx, NetMessage::Aborted(tx)),
            NetMessage::Other { id, body } => ListenerAction::Process(
                self.process(NetMessage::Other { id, body }),
            ),
        }
    }

    /// What the node does about an order that it can deal with.
    fn on_order<M, P, E>(order: NodeEvent<P>) -> (r: ListenerAction<M, P, E>)
        requires
            is_supported_order(order),
        ensures
            r == order_action::<M, P, E>(order),
    {
        match order {
            NodeEvent::DropConnection(peer) => ListenerAction::DropConnection(peer),
            NodeEvent::Disconnect { .. } => ListenerAction::Shutdown,
            _ => ListenerAction::Continue,
        }
    }

    /// Prepares a message for processing. The executor hears of its transaction once, a client
    /// every time.
    pub fn process<M>(&mut self, message: NetMessage<M>) -> (r: Processing<M>)
        ensures
            r == processing_of(old(self).pending(), old(self).clients(), message),
            final(self).pending() == old(self).pending().remove(message.tx().id),
            final(self).clients() == old(self).clients(),
    {
        let id: u128 = message.id().id;
        let executor_callback: bool = self.pending_from_executor.remove(&id);
        let client: Option<ClientId> = match self.tx_to_client.get(&id) {
            Some(c) => Some(*c),
            None => None,
        };
        proof {
            assert(self.pending() =~= old(self).pending().remove(id));
        }
        Processing { message, executor_callback, client }
    }
}

/// The waiting clients after these events.
pub open spec fn clients_after_all<M, P, E>(
    clients: Map<u128, ClientId>,
    events: Seq<ListenerEvent<M, P, E>>,
) -> Map<u128, ClientId>
    decreases events.len(),
{
    if events.len() == 0 {
        clients
    } else {
        clients_after(clients_after_all(clients, events.drop_last()), events.last())
    }
}

/// Whether an event announces a client that waits for this transaction.
pub open spec fn announces<M, P, E>(ev: ListenerEvent<M, P, E>, id: u128) -> bool {
    ev matches ListenerEvent::ClientWaiting(Ok((_, WaitingTransaction::Transaction(tx)))) && tx.id
        == id
}

/// A client that waits for a transaction hears of every message of it, whatever else happens,
/// until another client is announced for the same transaction.
pub proof fn law_client_hears_of_its_transaction<M, P, E>(
    pending: Set<u128>,
    clients: Map<u128, ClientId>,
    events: Seq<ListenerEvent<M, P, E>>,
    message: NetMessage<M>,
)
    requires
        clients.contains_key(message.tx().id),
        forall|i: int| 0 <= i < events.len() ==> !announces(#[trigger] events[i], message.tx().id),
    ensures
        processing_of(pending, clients_after_all(clients, events), message).client == Some(
            clients[message.tx().id],
        ),
    decreases events.len(),
{
    if events.len() > 0 {
        let before = events.drop_last();
        assert forall|i: int| 0 <= i < before.len() implies !announces(
            #[trigger] before[i],
            message.tx().id,
        ) by {
            assert(before[i] == events[i]);
        }
        law_client_hears_of_its_transaction(pending, clients, before, message);
        assert(!announces(events[events.len() - 1], message.tx().id));
    }
}

/// The executor hears of a transaction that it started with the first message of it, and of no
/// later one.
pub proof fn law_executor_hears_once<M, P, E>(
    pending: Set<u128>,
    clients: Map<u128, ClientId>,
    tx: Transaction,
    body: M,
    later: M,
)
    ensures
        ({
            let started = pending_after(
                pending,
                ListenerEvent::<M, P, E>::FromExecutor(Some(tx)),
            );
            let message = NetMessage::Other { id: tx, body };
            let processed = pending_after(started, ListenerEvent::<M, P, E>::Network(Ok(message)));
            &&& processing_of(started, clients, message).executor_callback
            &&& !processing_of(
                processed,
                clients,
                NetMessage::Other { id: tx, body: later },
            ).executor_callback
            &&& processed == pending.remove(tx.id)
        }),
{
    let started = pending_after(pending, ListenerEvent::<M, P, E>::FromExecutor(Some(tx)));
    let message = NetMessage::Other { id: tx, body };
    let processed = pending_after(started, ListenerEvent::<M, P, E>::Network(Ok(message)));
    assert(processed =~= pending.remove(tx.id));
}

/// Every message that aborts nothing is processed, the same whichever channel it comes through:
/// with the client that waits for its transaction, where there is one, and with the callback of
/// the executor exactly where that waits for it. The executor does not wait for it afterwards; the
/// clients do.
pub proof fn law_messages_of_both_channels_are_processed_alike<M, P, E>(
    pending: Set<u128>,
    clients: Map<u128, ClientId>,
    id: Transaction,
    body: M,
)
    ensures
        ({
            let message = NetMessage::Other { id, body };
            let network = ListenerEvent::<M, P, E>::Network(Ok(message));
            let notified = ListenerEvent::<M, P, E>::Notification(
                Some(Notification::Message(message)),
            );
            let action = ListenerAction::<M, P, E>::Process(
                Processing {
                    message,
                    executor_callback: pending.contains(id.id),
                    client: if clients.contains_key(id.id) {
                        Some(clients[id.id])
                    } else {
                        None
                    },
                },
            );
            &&& message.tx() == id
            &&& action_of(pending, clients, network) == action
            &&& action_of(pending, clients, notified) == action
            &&& pending_after(pending, network) == pending.remove(id.id)
            &&& pending_after(pending, notified) == pending.remove(id.id)
            &&& clients_after(clients, network) == clients
            &&& clients_after(clients, notified) == clients
        }),
{
}

/// A message that aborts a transaction first has the transaction undone, whichever channel it
/// comes through, and nobody stops waiting by that. It is processed afterwards like any other
/// message of the transaction.
pub proof fn law_aborted_transactions_are_undone_first<M, P, E>(
    pending: Set<u128>,
    clients: Map<u128, ClientId>,
    tx: Transaction,
)
    ensures
        ({
            let message = NetMessage::<M>::Aborted(tx);
            let network = ListenerEvent::<M, P, E>::Network(Ok(message));
            let notified = ListenerEvent::<M, P, E>::Notification(
                Some(Notification::Message(message)),
            );
            &&& action_of(pending, clients, network) == ListenerAction::<M, P, E>::HandleAborted(
                tx,
                message,
            )
            &&& action_of(pending, clients, notified) == ListenerAction::<M, P, E>::HandleAborted(
                tx,
                message,
            )
            &&& pending_after(pending, network) == pending
            &&& pending_after(pending, notified) == pending
            &&& clients_after(clients, network) == clients
            &&& clients_after(clients, notified) == clients
            &&& message.tx() == tx
            &&& processing_of(pending, clients, message) == (Processing {
                message,
                executor_callback: pending.contains(tx.id),
                client: if clients.contains_key(tx.id) {
                    Some(clients[tx.id])
                } else {
                    None
                },
            })
        }),
{
}

/// An order gives the same action whichever channel it comes through: a connection is dropped, a
/// new one is only noted, and a node that is told to disconnect stops, with or without a cause. No
/// order changes who waits for what, and the other orders cannot be dealt with.
pub proof fn law_orders_are_carried_out<M, P, E>(
    pending: Set<u128>,
    clients: Map<u128, ClientId>,
    order: NodeEvent<P>,
)
    ensures
        ({
            let notified = ListenerEvent::<M, P, E>::Notification(Some(Notification::Event(order)));
            let controller = ListenerEvent::<M, P, E>::Controller(Some(order));
            &&& action_of(pending, clients, notified) == action_of(pending, clients, controller)
            &&& match order {
                NodeEvent::DropConnection(peer) => {
                    &&& is_supported(notified) && is_supported(controller)
                    &&& action_of(pending, clients, controller) == ListenerAction::<
                        M,
                        P,
                        E,
                    >::DropConnection(peer)
                },
                NodeEvent::ConnectPeer { .. } => {
                    &&& is_supported(notified) && is_supported(controller)
                    &&& action_of(pending, clients, controller) == ListenerAction::<M, P, E>::Continue
                },
                NodeEvent::Disconnect { .. } => {
                    &&& is_supported(notified) && is_supported(controller)
                    &&& action_of(pending, clients, controller) == ListenerAction::<M, P, E>::Shutdown
                },
                _ => !is_supported(notified) && !is_supported(controller),
            }
            &&& pending_after(pending, notified) == pending
            &&& pending_after(pending, controller) == pending
            &&& clients_after(clients, notified) == clients
            &&& clients_after(clients, controller) == clients
        }),
{
}

/// A client that is announced waits for its transaction from then on, in place of one that did so
/// before, and all others wait as they did; so does the executor for a transaction that it starts.
/// Nothing else is done about that.
pub proof fn law_waiting_is_remembered<M, P, E>(
    pending: Set<u128>,
    clients: Map<u128, ClientId>,
    client: ClientId,
    tx: Transaction,
)
    ensures
        ({
            let announced = ListenerEvent::<M, P, E>::ClientWaiting(
                Ok((client, WaitingTransaction::Transaction(tx))),
            );
            let started = ListenerEvent::<M, P, E>::FromExecutor(Some(tx));
            &&& is_supported(announced) && is_supported(started)
            &&& action_of(pending, clients, announced) == ListenerAction::<M, P, E>::Continue
            &&& clients_after(clients, announced) == clients.insert(tx.id, client)
            &&& pending_after(pending, announced) == pending
            &&& action_of(pending, clients, started) == ListenerAction::<M, P, E>::Continue
            &&& pending_after(pending, started) == pending.insert(tx.id)
            &&& clients_after(clients, started) == clients
        }),
{
}

/// A node stops with an error where the channel of notifications or of orders is gone, each with
/// its own; it reports an error of the network, and goes on where no client or transaction is
/// announced any more. Nobody stops waiting by that.
pub proof fn law_lost_channels_are_told_apart<M, P, E>(
    pending: Set<u128>,
    clients: Map<u128, ClientId>,
    error: E,
)
    ensures
        action_of(pending, clients, ListenerEvent::<M, P, E>::Notification(None))
            == ListenerAction::<M, P, E>::Fail(ListenerError::NotificationChannelShutdown),
        action_of(pending, clients, ListenerEvent::<M, P, E>::Controller(None))
            == ListenerAction::<M, P, E>::Fail(ListenerError::NodeControllerChannelShutdown),
        action_of(pending, clients, ListenerEvent::<M, P, E>::Network(Err(error)))
            == ListenerAction::<M, P, E>::ReportError(error),
        action_of(pending, clients, ListenerEvent::<M, P, E>::ClientWaiting(Err(ChannelDropped)))
            == ListenerAction::<M, P, E>::Continue,
        action_of(pending, clients, ListenerEvent::<M, P, E>::FromExecutor(None))
            == ListenerAction::<M, P, E>::Continue,
        pending_after(pending, ListenerEvent::<M, P, E>::Notification(None)) == pending,
        pending_after(pending, ListenerEvent::<M, P, E>::Controller(None)) == pending,
        pending_after(pending, ListenerEvent::<M, P, E>::Network(Err(error))) == pending,
        pending_after(pending, ListenerEvent::<M, P, E>::ClientWaiting(Err(ChannelDropped)))
            == pending,
        pending_after(pending, ListenerEvent::<M, P, E>::FromExecutor(None)) == pending,
        clients_after(clients, ListenerEvent::<M, P, E>::Notification(None)) == clients,
        clients_after(clients, ListenerEvent::<M, P, E>::Controller(None)) == clients,
        clients_after(clients, ListenerEvent::<M, P, E>::Network(Err(error))) == clients,
        clients_after(clients, ListenerEvent::<M, P, E>::ClientWaiting(Err(ChannelDropped)))
            == clients,
        clients_after(clients, ListenerEvent::<M, P, E>::FromExecutor(None)) == clients,
{
}

} // verus!
