//! The signs of life that keep a connection open.
use vstd::prelude::*;

use crate::transport::ids::take_next;
use crate::transport::message::OutboundPacket;
use crate::transport::message::SymmetricMessagePayload;

verus! {

use crate::transport::ids::counter_after;
use crate::transport::ids::law_ids_repeat_only_after_a_round;

/// The time between two signs of life, in nanoseconds.
pub const KEEP_ALIVE_INTERVAL: u128 = 10_000_000_000;

/// When the tick with this number comes, where the timer starts at `start` with tick zero.
pub open spec fn tick_time(start: u128, tick: nat) -> int {
    start + tick * KEEP_ALIVE_INTERVAL
}

/// How many packet numbers there are.
pub open spec fn packet_id_count() -> nat {
    0x1_0000_0000
}

/// What became of the packet of one tick.
#[derive(Debug, Clone, Copy, PartialEq, Eq, Structural)]
pub enum KeepAliveOutcome {
    /// It was handed to the socket.
    Sent,
    /// It could not be encoded.
    EncodingFailed,
    /// The socket is gone.
    ChannelClosed,
}

/// The task that sends a packet without content at every tick of a timer but the first, which
/// comes at once.
pub struct KeepAlive {
    /// Whether the first tick is over.
    pub started: bool,
}

/// Whether a tick leads from `before` to `after` and gives this packet: none at the first tick, and
/// a packet without content and without receipts, under the next number, at any other.
pub open spec fn is_tick(
    before: KeepAlive,
    packet_ids: u32,
    packet: Option<OutboundPacket>,
    after: KeepAlive,
    packet_ids_after: u32,
) -> bool {
    &&& after.started
    &&& match packet {
        Some(p) => {
            &&& before.started
            &&& p.packet_id == packet_ids
            &&& p.payload == SymmetricMessagePayload::NoOp
            &&& p.confirm_receipt@ == Seq::<u32>::empty()
            &&& packet_ids_after == counter_after(packet_ids as nat, 1, packet_id_count())
        },
        None => !before.started && packet_ids_after == packet_ids,
    }
}

impl KeepAlive {
    /// A task that has seen no tick yet.
    pub fn new() -> (r: Self)
        ensures
            !r.started,
    {
        KeepAlive { started: false }
    }

    /// The packet of one tick, under the next packet number and without receipts.
    pub fn on_tick(&mut self, packet_ids: &mut u32) -> (r: Option<OutboundPacket>)
        ensures
            is_tick(*old(self), *old(packet_ids), r, *final(self), *final(packet_ids)),
    {
        if !self.started {
            self.started = true;
            return None;
        }
        Some(
            OutboundPacket {
                packet_id: take_next(packet_ids),
                payload: SymmetricMessagePayload::NoOp,
                confirm_receipt: Vec::new(),
            },
        )
    }

    /// Whether the task goes on after the packet of a tick came to this.
    pub fn goes_on(&self, outcome: KeepAliveOutcome) -> (r: bool)
        ensures
            r == (outcome == KeepAliveOutcome::Sent),
    {
        match outcome {
            KeepAliveOutcome::Sent => true,
            KeepAliveOutcome::EncodingFailed => false,
            KeepAliveOutcome::ChannelClosed => false,
        }
    }
}

/// What the packet numbers of a connection are used for.
pub ghost enum NumberUse {
    /// A tick of the timer, with the packet that it gave.
    Tick(Option<OutboundPacket>),
    /// Another message, which took this number.
    Message(u32),
}

impl NumberUse {
    /// The number that was taken.
    pub open spec fn taken(self) -> Option<u32> {
        match self {
            NumberUse::Tick(Some(p)) => Some(p.packet_id),
            NumberUse::Tick(None) => None,
            NumberUse::Message(id) => Some(id),
        }
    }
}

/// Whether `states` are the task and the packet numbers before, between and after these uses.
pub open spec fn is_number_run(states: Seq<(KeepAlive, u32)>, uses: Seq<NumberUse>) -> bool {
    &&& states.len() == uses.len() + 1
    &&& forall|i: int| #![trigger states[i + 1]]
        0 <= i < uses.len() ==> match uses[i] {
            NumberUse::Tick(packet) => is_tick(
                states[i].0,
                states[i].1,
                packet,
                states[i + 1].0,
                states[i + 1].1,
            ),
            NumberUse::Message(id) => {
                &&& states[i + 1].0 == states[i].0
                &&& id == states[i].1
                &&& states[i + 1].1 == counter_after(states[i].1 as nat, 1, packet_id_count())
            },
        }
}

proof fn lemma_started(states: Seq<(KeepAlive, u32)>, uses: Seq<NumberUse>, n: int)
    requires
        is_number_run(states, uses),
        !states[0].0.started,
        0 <= n <= uses.len(),
    ensures
        states[n].0.started <==> exists|j: int| 0 <= j < n && (#[trigger] uses[j]) is Tick,
    decreases n,
{
    if n > 0 {
        lemma_started(states, uses, n - 1);
        assert(states[(n - 1) + 1] == states[n]);
        if states[n - 1].0.started {
            let j = choose|j: int| 0 <= j < n - 1 && (#[trigger] uses[j]) is Tick;
            assert(uses[j] is Tick);
        }
        if exists|j: int| 0 <= j < n && (#[trigger] uses[j]) is Tick {
            let j = choose|j: int| 0 <= j < n && (#[trigger] uses[j]) is Tick;
            if j < n - 1 {
                assert(states[n - 1].0.started);
            }
        }
        if uses[n - 1] is Tick {
            assert(states[n].0.started);
        }
    }
}

/// Every tick of a new task but the first gives one sign of life: a packet without content and
/// without receipts, under the next packet number, whatever other messages take numbers in
/// between. The first tick gives none.
pub proof fn law_every_later_tick_gives_a_sign_of_life(
    states: Seq<(KeepAlive, u32)>,
    uses: Seq<NumberUse>,
    i: int,
)
    requires
        is_number_run(states, uses),
        !states[0].0.started,
        0 <= i < uses.len(),
        uses[i] is Tick,
    ensures
        match uses[i]->Tick_0 {
            Some(p) => {
                &&& exists|j: int| 0 <= j < i && (#[trigger] uses[j]) is Tick
                &&& p.packet_id == states[i].1
                &&& p.payload == SymmetricMessagePayload::NoOp
                &&& p.confirm_receipt@ == Seq::<u32>::empty()
                &&& states[i + 1].1 == counter_after(states[i].1 as nat, 1, packet_id_count())
            },
            None => {
                &&& forall|j: int| 0 <= j < i ==> !((#[trigger] uses[j]) is Tick)
                &&& states[i + 1].1 == states[i].1
            },
        },
{
    lemma_started(states, uses, i);
    assert(states[i + 1].0.started);
}

/// How many of the uses from position `from` on, before position `to`, took a number.
pub open spec fn taken_number(uses: Seq<NumberUse>, from: int, to: int) -> nat
    decreases to - from,
{
    if to <= from {
        0
    } else {
        taken_number(uses, from, to - 1) + if uses[to - 1].taken() is Some {
            1nat
        } else {
            0nat
        }
    }
}

proof fn lemma_numbers(states: Seq<(KeepAlive, u32)>, uses: Seq<NumberUse>, from: int, to: int)
    requires
        is_number_run(states, uses),
        0 <= from <= to <= uses.len(),
    ensures
        states[to].1 == counter_after(
            states[from].1 as nat,
            taken_number(uses, from, to),
            packet_id_count(),
        ),
        taken_number(uses, from, to) <= to - from,
        from < to && uses[from].taken() is Some ==> taken_number(uses, from, to) >= 1,
    decreases to - from,
{
    if from < to {
        lemma_numbers(states, uses, from, to - 1);
        assert(states[(to - 1) + 1] == states[to]);
        assert(uses[to - 1].taken() is Some ==> states[to].1 == counter_after(
            states[to - 1].1 as nat,
            1,
            packet_id_count(),
        ));
    }
}

/// No two packets of a connection, signs of life or messages, have the same number, unless all
/// numbers were used in between.
pub proof fn law_packet_numbers_differ(
    states: Seq<(KeepAlive, u32)>,
    uses: Seq<NumberUse>,
    i: int,
    j: int,
)
    requires
        is_number_run(states, uses),
        0 <= i < j < uses.len(),
        uses[i].taken() is Some,
        uses[j].taken() is Some,
        j - i < packet_id_count(),
    ensures
        uses[i].taken() != uses[j].taken(),
{
    lemma_numbers(states, uses, i, j);
    let (after_i, after_j) = (states[i + 1], states[j + 1]);
    assert(uses[i].taken() == Some(states[i].1));
    assert(uses[j].taken() == Some(states[j].1));
    if states[i].1 == states[j].1 {
        let taken = taken_number(uses, i, j);
        law_ids_repeat_only_after_a_round(states[i].1 as nat, 0, taken, packet_id_count());
    }
}

} // verus!
