//! The channel between a node and its contract handler. It keeps track of who started an
//! operation and hands the response to whoever waits for it.
use std::collections::BTreeMap;

use vstd::prelude::*;

use crate::contract::event::ClientId;
use crate::contract::event::ContractHandlerEvent;
use crate::contract::event::ContractInstanceId;

verus! {

use crate::transport::ids::counter_after;
use crate::transport::ids::law_ids_repeat_only_after_a_round;

broadcast use {
    vstd::std_specs::btree::group_btree_axioms,
    vstd::laws_cmp::group_laws_cmp,
};

/// The number of values of an event counter.
pub open spec fn event_id_count() -> nat {
    0x1_0000_0000_0000_0000
}

/// How long the answer of the contract handler is waited for, in seconds.
pub const CH_EV_RESPONSE_TIME_OUT: u64 = 300;

/// How many clients that wait for a transaction are queued before the next one has to wait.
pub const WAITING_CLIENTS: usize = 10;

/// The identifier of an event on the channel.
#[derive(Debug, PartialEq, Eq, Hash, Structural)]
pub struct EventId {
    id: u64,
}

impl EventId {
    /// The number of the event.
    pub closed spec fn number(self) -> u64 {
        self.id
    }

    /// The identifier of the event with this number.
    pub closed spec fn of(number: u64) -> Self {
        EventId { id: number }
    }
}

/// A transaction of the network.
#[derive(Debug, Clone, Copy, PartialEq, Eq, Hash, Structural)]
pub struct Transaction {
    /// The identifier of the transaction.
    pub id: u128,
}

/// What a client waits for.
#[derive(Debug, Clone, Copy)]
pub enum WaitingTransaction {
    /// The result of a transaction.
    Transaction(Transaction),
    /// Updates of a contract.
    Subscription { contract_key: ContractInstanceId },
}

impl From<Transaction> for WaitingTransaction {
    fn from(tx: Transaction) -> (r: Self) {
        WaitingTransaction::Transaction(tx)
    }
}

impl vstd::std_specs::convert::FromSpecImpl<Transaction> for WaitingTransaction {
    open spec fn obeys_from_spec() -> bool {
        true
    }

    open spec fn from_spec(tx: Transaction) -> Self {
        WaitingTransaction::Transaction(tx)
    }
}

/// What can go wrong on the channel.
#[derive(Debug)]
pub enum ContractError<L, Q> {
    /// The other end is gone; the event that was to be sent.
    ChannelDropped(Box<ContractHandlerEvent<L, Q>>),
    /// There is no response, or nobody waits for it.
    NoEvHandlerResponse,
}

/// The other end of the channel on which waiting clients are announced is gone.
#[derive(Debug)]
pub struct ChannelDropped;

/// An event on its way to the contract handler. `R` is the handle to which the response goes.
pub struct InternalCHEvent<L, Q, R> {
    /// The event.
    pub ev: ContractHandlerEvent<L, Q>,
    /// Its number.
    pub id: u64,
    /// Where the response goes.
    pub result: R,
}

/// What became of an event after it was sent to the contract handler.
pub enum HandlerReply<L, Q> {
    /// It could not be sent.
    NotSent(ContractHandlerEvent<L, Q>),
    /// The response to it.
    Response(ContractHandlerEvent<L, Q>),
    /// The handle for the response was dropped.
    Dropped,
    /// No response came in time.
    TimedOut,
}

/// One end of the channel.
pub struct ContractHandlerChannel<End> {
    /// What this end keeps.
    pub end: End,
}

/// The end of the contract handler: the handles of those who wait for a response.
pub struct ContractHandlerHalve<R> {
    waiting_response: BTreeMap<u64, R>,
}

impl<R> ContractHandlerHalve<R> {
    /// The handles of those who wait, by the number of the event.
    pub closed spec fn waiting(self) -> Map<u64, R> {
        self.waiting_response@
    }
}

/// The end of those who send events.
pub struct SenderHalve;

/// The end at which clients that wait for the result of a transaction are announced.
pub struct WaitingResolution;

/// Those who wait once an event was received.
pub open spec fn after_receiving<R>(waiting: Map<u64, R>, id: u64, result: R) -> Map<u64, R> {
    waiting.insert(id, result)
}

/// Those who wait once the response to an event was sent.
pub open spec fn after_responding<R>(waiting: Map<u64, R>, id: u64) -> Map<u64, R> {
    waiting.remove(id)
}

/// The number of the event after the one with the number `id`.
pub open spec fn next_event_id(id: u64) -> u64 {
    counter_after(id as nat, 1, event_id_count()) as u64
}

/// What the contract handler gets of what came through the channel: the event and its number, or
/// an error where nothing will come any more.
pub open spec fn receipt_of<L, Q, R>(received: Option<InternalCHEvent<L, Q, R>>) -> Result<
    (EventId, ContractHandlerEvent<L, Q>),
    ContractError<L, Q>,
> {
    match received {
        Some(sent) => Ok((EventId::of(sent.id), sent.ev)),
        None => Err(ContractError::NoEvHandlerResponse),
    }
}

/// The three ends of a channel, on which nobody waits for a response yet.
pub fn contract_handler_channel<R>() -> (r: (
    ContractHandlerChannel<SenderHalve>,
    ContractHandlerChannel<ContractHandlerHalve<R>>,
    ContractHandlerChannel<WaitingResolution>,
))
    ensures
        r.1.end.waiting() == Map::<u64, R>::empty(),
{
    (
        ContractHandlerChannel { end: SenderHalve },
        ContractHandlerChannel {
            end: ContractHandlerHalve { waiting_response: BTreeMap::new() },
        },
        ContractHandlerChannel { end: WaitingResolution },
    )
}

impl ContractHandlerChannel<WaitingResolution> {
    /// Takes in the next client that waits for a transaction, or that there will be none.
    pub fn relay_transaction_result_to_client(
        &self,
        received: Option<(ClientId, WaitingTransaction)>,
    ) -> (r: Result<(ClientId, WaitingTransaction), ChannelDropped>)
        ensures
            r == match received {
                Some(waiting) => Ok::<_, ChannelDropped>(waiting),
                None => Err(ChannelDropped),
            },
    {
        match received {
            Some(waiting) => Ok(waiting),
            None => Err(ChannelDropped),
        }
    }
}

impl ContractHandlerChannel<SenderHalve> {
    /// Prepares an event for the contract handler: it gets the next number of `event_ids` and
    /// the handle to which the response goes.
    pub fn send_to_handler<L, Q, R>(
        &self,
        ev: ContractHandlerEvent<L, Q>,
        result: R,
        event_ids: &mut u64,
    ) -> (r: InternalCHEvent<L, Q, R>)
        ensures
            r == (InternalCHEvent { ev, id: *old(event_ids), result }),
            *final(event_ids) == next_event_id(*old(event_ids)),
    {
        let id: u64 = *event_ids;
        *event_ids = id.wrapping_add(1);
        InternalCHEvent { ev, id, result }
    }

    /// Takes in what became of an event that was sent.
    pub fn on_reply<L, Q>(&self, reply: HandlerReply<L, Q>) -> (r: Result<
        ContractHandlerEvent<L, Q>,
        ContractError<L, Q>,
    >)
        ensures
            r == match reply {
                HandlerReply::NotSent(ev) => Err(ContractError::ChannelDropped(Box::new(ev))),
                HandlerReply::Response(ev) => Ok(ev),
                HandlerReply::Dropped => Err(ContractError::NoEvHandlerResponse),
                HandlerReply::TimedOut => Err(ContractError::NoEvHandlerResponse),
            },
    {
        match reply {
            HandlerReply::NotSent(ev) => Err(ContractError::ChannelDropped(Box::new(ev))),
            HandlerReply::Response(ev) => Ok(ev),
            HandlerReply::Dropped => Err(ContractError::NoEvHandlerResponse),
            HandlerReply::TimedOut => Err(ContractError::NoEvHandlerResponse),
        }
    }

    /// What is announced for a client that waits.
    pub fn waiting_for_transaction_result(
        &self,
        transaction: WaitingTransaction,
        client_id: ClientId,
    ) -> (r: (ClientId, WaitingTransaction))
        ensures
            r == (client_id, transaction),
    {
        (client_id, transaction)
    }

    /// Takes in whether a waiting client could be announced.
    pub fn on_announced<L, Q>(&self, delivered: bool) -> (r: Result<(), ContractError<L, Q>>)
        ensures
            r == if delivered {
                Ok::<(), ContractError<L, Q>>(())
            } else {
                Err(ContractError::NoEvHandlerResponse)
            },
    {
        if delivered {
            Ok(())
        } else {
            Err(ContractError::NoEvHandlerResponse)
        }
    }
}

impl<R> ContractHandlerChannel<ContractHandlerHalve<R>> {
    /// Takes the handle of whoever waits for the response to event `id`, together with what has
    /// to be sent there. An error where nobody waits for it.
    pub fn send_to_sender<L, Q>(&mut self, id: EventId, ev: ContractHandlerEvent<L, Q>) -> (r:
        Result<(R, (EventId, ContractHandlerEvent<L, Q>)), ContractError<L, Q>>)
        ensures
            final(self).end.waiting() == after_responding(
                old(self).end.waiting(),
                id.number(),
            ),
            r == if old(self).end.waiting().contains_key(id.number()) {
                Ok::<_, ContractError<L, Q>>(
                    (old(self).end.waiting()[id.number()], (id, ev)),
                )
            } else {
                Err(ContractError::NoEvHandlerResponse)
            },
    {
        match self.end.waiting_response.remove(&id.id) {
            Some(response) => Ok((response, (id, ev))),
            None => {
                proof {
                    assert(self.end.waiting() =~= old(self).end.waiting().remove(id.number()));
                }
                Err(ContractError::NoEvHandlerResponse)
            },
        }
    }

    /// Takes in whether a response could be handed to whoever waited for it.
    pub fn on_responded<L, Q>(&self, delivered: bool) -> (r: Result<(), ContractError<L, Q>>)
        ensures
            r == if delivered {
                Ok::<(), ContractError<L, Q>>(())
            } else {
                Err(ContractError::NoEvHandlerResponse)
            },
    {
        if delivered {
            Ok(())
        } else {
            Err(ContractError::NoEvHandlerResponse)
        }
    }

    /// Takes in the next event, or that there will be none, and remembers who waits for the
    /// response to it.
    pub fn recv_from_sender<L, Q>(&mut self, received: Option<InternalCHEvent<L, Q, R>>) -> (r:
        Result<(EventId, ContractHandlerEvent<L, Q>), ContractError<L, Q>>)
        ensures
            r == receipt_of(received),
            match (received, r) {
                (Some(sent), Ok((id, _))) => id.number() == sent.id,
                _ => true,
            },
            final(self).end.waiting() == match received {
                Some(sent) => after_receiving(old(self).end.waiting(), sent.id, sent.result),
                None => old(self).end.waiting(),
            },
    {
        match received {
            Some(InternalCHEvent { ev, id, result }) => {
                self.end.waiting_response.insert(id, result);
                Ok((EventId { id }, ev))
            },
            None => Err(ContractError::NoEvHandlerResponse),
        }
    }
}

/// What can happen at the end of the contract handler.
pub ghost enum ChannelOp<R> {
    /// An event was received.
    Received { id: u64, result: R },
    /// The response to an event was sent.
    Responded { id: u64 },
}

impl<R> ChannelOp<R> {
    /// The number of the event.
    pub open spec fn event(self) -> u64 {
        match self {
            ChannelOp::Received { id, .. } => id,
            ChannelOp::Responded { id } => id,
        }
    }
}

/// Those who wait after all of this happened.
pub open spec fn after_ops<R>(waiting: Map<u64, R>, ops: Seq<ChannelOp<R>>) -> Map<u64, R>
    decreases ops.len(),
{
    if ops.len() == 0 {
        waiting
    } else {
        let before = after_ops(waiting, ops.drop_last());
        match ops.last() {
            ChannelOp::Received { id, result } => after_receiving(before, id, result),
            ChannelOp::Responded { id } => after_responding(before, id),
        }
    }
}

proof fn lemma_one_more_waits<R>(
    waiting: Map<u64, R>,
    id: u64,
    result: R,
    ops: Seq<ChannelOp<R>>,
)
    requires
        forall|i: int| 0 <= i < ops.len() ==> (#[trigger] ops[i]).event() != id,
    ensures
        after_ops(after_receiving(waiting, id, result), ops) == after_ops(waiting, ops).insert(
            id,
            result,
        ),
    decreases ops.len(),
{
    let with = after_receiving(waiting, id, result);
    if ops.len() > 0 {
        let front = ops.drop_last();
        assert forall|i: int| 0 <= i < front.len() implies (#[trigger] front[i]).event() != id by {
            assert(front[i] == ops[i]);
        }
        lemma_one_more_waits(waiting, id, result, front);
        assert(ops[ops.len() - 1].event() != id);
        assert(after_ops(with, ops) =~= after_ops(waiting, ops).insert(id, result));
    }
}

/// The response to an event goes to the handle that came with the event, whatever events are
/// received and responded to in between. A second response to it finds nobody, and those who wait
/// for other events wait as if it had never been received.
pub proof fn law_response_reaches_the_initiator<R>(
    waiting: Map<u64, R>,
    id: u64,
    result: R,
    ops: Seq<ChannelOp<R>>,
)
    requires
        !waiting.contains_key(id),
        forall|i: int| 0 <= i < ops.len() ==> (#[trigger] ops[i]).event() != id,
    ensures
        ({
            let received = after_ops(after_receiving(waiting, id, result), ops);
            &&& received.contains_key(id) && received[id] == result
            &&& !after_responding(received, id).contains_key(id)
            &&& after_responding(received, id) == after_ops(waiting, ops)
        }),
{
    lemma_one_more_waits(waiting, id, result, ops);
    lemma_stays_unknown(waiting, id, ops);
    let received = after_ops(after_receiving(waiting, id, result), ops);
    assert(after_responding(received, id) =~= after_ops(waiting, ops));
}

proof fn lemma_stays_unknown<R>(waiting: Map<u64, R>, id: u64, ops: Seq<ChannelOp<R>>)
    requires
        !waiting.contains_key(id),
        forall|i: int| 0 <= i < ops.len() ==> (#[trigger] ops[i]).event() != id,
    ensures
        !after_ops(waiting, ops).contains_key(id),
    decreases ops.len(),
{
    if ops.len() > 0 {
        let front = ops.drop_last();
        assert forall|i: int| 0 <= i < front.len() implies (#[trigger] front[i]).event() != id by {
            assert(front[i] == ops[i]);
        }
        lemma_stays_unknown(waiting, id, front);
        assert(ops[ops.len() - 1].event() != id);
    }
}

/// What is sent for these events, one after the other, each with the handle for its response, where
/// `first` is the number of the first one.
pub open spec fn sent_in_turn<L, Q, R>(
    events: Seq<(ContractHandlerEvent<L, Q>, R)>,
    first: u64,
) -> Seq<InternalCHEvent<L, Q, R>>
    decreases events.len(),
{
    if events.len() == 0 {
        Seq::empty()
    } else {
        let (ev, result) = events.last();
        sent_in_turn(events.drop_last(), first).push(
            InternalCHEvent { ev, id: id_after(first, (events.len() - 1) as nat), result },
        )
    }
}

/// The number of the event that comes `n` events after the one with the number `first`.
pub open spec fn id_after(first: u64, n: nat) -> u64
    decreases n,
{
    if n == 0 {
        first
    } else {
        next_event_id(id_after(first, (n - 1) as nat))
    }
}

/// Those who wait once all of this was received in turn.
pub open spec fn after_receiving_all<L, Q, R>(
    waiting: Map<u64, R>,
    sent: Seq<InternalCHEvent<L, Q, R>>,
) -> Map<u64, R>
    decreases sent.len(),
{
    if sent.len() == 0 {
        waiting
    } else {
        after_receiving(
            after_receiving_all(waiting, sent.drop_last()),
            sent.last().id,
            sent.last().result,
        )
    }
}

proof fn lemma_id_after(first: u64, n: nat)
    ensures
        id_after(first, n) == counter_after(first as nat, n, event_id_count()),
    decreases n,
{
    if n > 0 {
        lemma_id_after(first, (n - 1) as nat);
        let before = (first + n - 1) as int;
        let m = event_id_count() as int;
        assert((before % m + 1) % m == (before + 1) % m) by (nonlinear_arith)
            requires
                m > 0,
        {
            vstd::arithmetic::div_mod::lemma_add_mod_noop(before, 1, m);
            vstd::arithmetic::div_mod::lemma_add_mod_noop(before % m, 1, m);
        }
    }
}

proof fn lemma_ids_differ(first: u64, i: nat, j: nat)
    requires
        i < j < event_id_count(),
    ensures
        id_after(first, i) != id_after(first, j),
{
    lemma_id_after(first, i);
    lemma_id_after(first, j);
    if id_after(first, i) == id_after(first, j) {
        law_ids_repeat_only_after_a_round(first as nat, i, j, event_id_count());
    }
}

proof fn lemma_sent_in_turn<L, Q, R>(events: Seq<(ContractHandlerEvent<L, Q>, R)>, first: u64)
    ensures
        sent_in_turn(events, first).len() == events.len(),
        forall|i: int| #![trigger sent_in_turn(events, first)[i]]
            0 <= i < events.len() ==> sent_in_turn(events, first)[i] == (InternalCHEvent {
                ev: events[i].0,
                id: id_after(first, i as nat),
                result: events[i].1,
            }),
    decreases events.len(),
{
    if events.len() > 0 {
        let front = events.drop_last();
        lemma_sent_in_turn(front, first);
        assert forall|i: int| #![trigger sent_in_turn(events, first)[i]]
            0 <= i < events.len() implies sent_in_turn(events, first)[i] == (InternalCHEvent {
            ev: events[i].0,
            id: id_after(first, i as nat),
            result: events[i].1,
        }) by {
            if i < front.len() {
                assert(sent_in_turn(events, first)[i] == sent_in_turn(front, first)[i]);
            }
        }
    }
}

proof fn lemma_all_wait<L, Q, R>(waiting: Map<u64, R>, sent: Seq<InternalCHEvent<L, Q, R>>, n: int)
    requires
        0 <= n <= sent.len(),
        forall|i: int, j: int| #![trigger sent[i], sent[j]]
            0 <= i < j < sent.len() ==> sent[i].id != sent[j].id,
    ensures
        forall|i: int| #![trigger sent[i]]
            0 <= i < n ==> after_receiving_all(waiting, sent.take(n)).contains_key(sent[i].id)
                && after_receiving_all(waiting, sent.take(n))[sent[i].id] == sent[i].result,
    decreases n,
{
    if n > 0 {
        lemma_all_wait(waiting, sent, n - 1);
        assert(sent.take(n).drop_last() =~= sent.take(n - 1));
        assert(sent.take(n).last() == sent[n - 1]);
    }
}

/// Events come out of the channel in the order in which they were sent and unchanged, each under a
/// number of its own, whichever channel they are for; once they are received, the handle of each
/// of them waits under its number. After the last event, a sender that is gone gives an error.
pub proof fn law_events_are_received_as_sent<L, Q, R>(
    events: Seq<(ContractHandlerEvent<L, Q>, R)>,
    first: u64,
    waiting: Map<u64, R>,
)
    requires
        events.len() <= event_id_count(),
    ensures
        ({
            let sent = sent_in_turn(events, first);
            let after = after_receiving_all(waiting, sent);
            &&& sent.len() == events.len()
            &&& forall|i: int| #![trigger sent[i]]
                0 <= i < events.len() ==> {
                    &&& receipt_of(Some(sent[i])) == Ok::<
                        (EventId, ContractHandlerEvent<L, Q>),
                        ContractError<L, Q>,
                    >((EventId::of(id_after(first, i as nat)), events[i].0))
                    &&& EventId::of(id_after(first, i as nat)).number() == id_after(
                        first,
                        i as nat,
                    )
                    &&& after.contains_key(id_after(first, i as nat))
                    &&& after[id_after(first, i as nat)] == events[i].1
                }
            &&& forall|i: nat, j: nat| #![trigger id_after(first, i), id_after(first, j)]
                i < j < events.len() ==> id_after(first, i) != id_after(first, j)
            &&& receipt_of::<L, Q, R>(None) == Err::<
                (EventId, ContractHandlerEvent<L, Q>),
                ContractError<L, Q>,
            >(ContractError::NoEvHandlerResponse)
        }),
{
    let sent = sent_in_turn(events, first);
    lemma_sent_in_turn(events, first);
    assert forall|i: nat, j: nat| #![trigger id_after(first, i), id_after(first, j)]
        i < j < events.len() implies id_after(first, i) != id_after(first, j) by {
        lemma_ids_differ(first, i, j);
    }
    assert forall|i: int, j: int| #![trigger sent[i], sent[j]]
        0 <= i < j < sent.len() implies sent[i].id != sent[j].id by {
        lemma_ids_differ(first, i as nat, j as nat);
    }
    lemma_all_wait(waiting, sent, sent.len() as int);
    assert(sent.take(sent.len() as int) =~= sent);
}

} // verus!
