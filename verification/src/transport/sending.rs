//! How one message and the receipts that go with it are spread over packets, and how the packets
//! of one message are sent in turn.
use vstd::prelude::*;

use crate::transport::message::OutboundPacket;
use crate::transport::message::PeerAddr;
use crate::transport::message::SymmetricMessagePayload;
use crate::transport::message::TransportError;

verus! {

/// The receipts of each of the packets that carry nothing else, in the order in which the packets
/// are sent, where the message itself has no room for receipts. `max` is how many receipts fit in
/// one packet.
pub open spec fn receipt_groups(receipts: Seq<u32>, max: nat) -> Seq<Seq<u32>> {
    if receipts.len() == 0 && max == 0 {
        Seq::empty()
    } else if receipts.len() <= max || max == 0 {
        seq![receipts]
    } else {
        seq![receipts.skip(max as int), receipts.take(max as int)]
    }
}

/// The packets of one message: the message with all receipts where these fit in (`fits`), and
/// otherwise the message alone, followed by packets that carry nothing but receipts.
pub open spec fn is_packet_plan(
    plan: Seq<OutboundPacket>,
    packet_id: u32,
    payload: SymmetricMessagePayload,
    receipts: Seq<u32>,
    fits: bool,
    max: nat,
) -> bool {
    &&& plan.len() > 0
    &&& forall|i: int| 0 <= i < plan.len() ==> (#[trigger] plan[i]).packet_id == packet_id
    &&& plan[0].payload == payload
    &&& if fits {
        plan.len() == 1 && plan[0].confirm_receipt@ == receipts
    } else {
        &&& plan.len() == 1 + receipt_groups(receipts, max).len()
        &&& plan[0].confirm_receipt@ == Seq::<u32>::empty()
        &&& forall|i: int| 1 <= i < plan.len() ==> {
            &&& (#[trigger] plan[i]).payload == SymmetricMessagePayload::NoOp
            &&& plan[i].confirm_receipt@ == receipt_groups(receipts, max)[i - 1]
        }
    }
}

/// Spreads a message and the receipts that go with it over packets. `fits` says whether one
/// packet has room for both, `max_num` how many receipts fit in a packet that carries nothing
/// else.
pub fn packet_sending(
    packet_id: u32,
    payload: SymmetricMessagePayload,
    confirm_receipt: Vec<u32>,
    fits: bool,
    max_num: usize,
) -> (plan: Vec<OutboundPacket>)
    ensures
        is_packet_plan(plan@, packet_id, payload, confirm_receipt@, fits, max_num as nat),
{
    let mut plan: Vec<OutboundPacket> = Vec::new();
    if fits {
        plan.push(OutboundPacket { packet_id, payload, confirm_receipt });
        return plan;
    }
    let ghost all = confirm_receipt@;
    let ghost groups = receipt_groups(all, max_num as nat);
    plan.push(OutboundPacket { packet_id, payload, confirm_receipt: Vec::new() });
    assert(plan@[0].confirm_receipt@ =~= Seq::<u32>::empty());
    if max_num > confirm_receipt.len() {
        plan.push(
            OutboundPacket { packet_id, payload: SymmetricMessagePayload::NoOp, confirm_receipt },
        );
        return plan;
    }
    let mut rest: Vec<u32> = confirm_receipt;
    while rest.len() > 0
        invariant
            !fits,
            all == confirm_receipt@,
            groups == receipt_groups(all, max_num as nat),
            max_num <= all.len(),
            plan@.len() == 1 || plan@.len() == 2,
            plan@.len() == 1 ==> rest@ == all,
            plan@.len() == 2 ==> groups.len() > 0 && plan@[1].confirm_receipt@ == groups[0]
                && plan@[1].payload == SymmetricMessagePayload::NoOp,
            plan@.len() == 2 ==> (if max_num == 0 {
                rest@.len() == 0
            } else {
                all.len() > max_num && rest@ == all.take(max_num as int)
            }),
            forall|i: int| 0 <= i < plan@.len() ==> (#[trigger] plan@[i]).packet_id == packet_id,
            plan@[0].payload == payload,
            plan@[0].confirm_receipt@ == Seq::<u32>::empty(),
        decreases rest@.len(),
    {
        let len: usize = rest.len();
        if len <= max_num {
            plan.push(
                OutboundPacket {
                    packet_id,
                    payload: SymmetricMessagePayload::NoOp,
                    confirm_receipt: rest,
                },
            );
            return plan;
        }
        let receipts: Vec<u32> = rest.split_off(max_num);
        plan.push(
            OutboundPacket {
                packet_id,
                payload: SymmetricMessagePayload::NoOp,
                confirm_receipt: receipts,
            },
        );
        assert(all.skip(0) =~= all);
        assert(all.subrange(max_num as int, all.len() as int) =~= all.skip(max_num as int));
        assert(all.subrange(0, max_num as int) =~= all.take(max_num as int));
    }
    plan
}

/// What became of the packets of one message.
pub struct PacketBatch {
    remote_addr: PeerAddr,
    packets: Vec<OutboundPacket>,
    sent: usize,
}

impl PacketBatch {
    #[verifier::type_invariant]
    spec fn inv(self) -> bool {
        self.sent <= self.packets@.len()
    }

    /// The peer that the packets are for.
    pub closed spec fn addressee(self) -> PeerAddr {
        self.remote_addr
    }

    /// All packets of the message.
    pub closed spec fn all(self) -> Seq<OutboundPacket> {
        self.packets@
    }

    /// How many of them were sent.
    pub closed spec fn sent_count(self) -> nat {
        self.sent as nat
    }

    /// The packets of a message, of which none is sent yet.
    pub fn new(remote_addr: PeerAddr, packets: Vec<OutboundPacket>) -> (r: Self)
        ensures
            r.addressee() == remote_addr,
            r.all() == packets@,
            r.sent_count() == 0,
    {
        PacketBatch { remote_addr, packets, sent: 0 }
    }

    /// The packet to send next, `None` when all are sent.
    pub fn current(&self) -> (r: Option<&OutboundPacket>)
        ensures
            self.sent_count() <= self.all().len(),
            match r {
                Some(p) => self.sent_count() < self.all().len() && *p
                    == self.all()[self.sent_count() as int],
                None => self.sent_count() == self.all().len(),
            },
    {
        proof {
            use_type_invariant(self);
        }
        if self.sent < self.packets.len() {
            Some(&self.packets[self.sent])
        } else {
            None
        }
    }

    /// Takes in whether the current packet could be handed to the socket. Where it could, the
    /// number under which it has to be tracked until its receipt is confirmed; where it could
    /// not, the connection is closed and nothing more is to be sent.
    pub fn on_sent(&mut self, delivered: bool) -> (r: Result<u32, TransportError>)
        requires
            old(self).sent_count() < old(self).all().len(),
        ensures
            final(self).addressee() == old(self).addressee(),
            final(self).all() == old(self).all(),
            match r {
                Ok(packet_id) => {
                    &&& delivered
                    &&& packet_id == old(self).all()[old(self).sent_count() as int].packet_id
                    &&& final(self).sent_count() == old(self).sent_count() + 1
                },
                Err(e) => {
                    &&& !delivered
                    &&& e == TransportError::ConnectionClosed(old(self).addressee())
                    &&& final(self).sent_count() == old(self).sent_count()
                },
            },
    {
        proof {
            use_type_invariant(&*self);
        }
        if !delivered {
            return Err(TransportError::ConnectionClosed(self.remote_addr));
        }
        let total: usize = self.packets.len();
        let packet_id: u32 = self.packets[self.sent].packet_id;
        assert(self.sent < total);
        self.sent = self.sent + 1;
        Ok(packet_id)
    }
}

/// All receipts of a plan, one packet after the other.
pub open spec fn receipts_of(plan: Seq<OutboundPacket>) -> Seq<u32>
    decreases plan.len(),
{
    if plan.len() == 0 {
        Seq::empty()
    } else {
        receipts_of(plan.drop_last()) + plan.last().confirm_receipt@
    }
}

/// Every receipt is sent exactly as often as it was to be confirmed, whatever fits in a packet.
pub proof fn law_every_receipt_is_sent(
    plan: Seq<OutboundPacket>,
    packet_id: u32,
    payload: SymmetricMessagePayload,
    receipts: Seq<u32>,
    fits: bool,
    max: nat,
)
    requires
        is_packet_plan(plan, packet_id, payload, receipts, fits, max),
    ensures
        receipts_of(plan).to_multiset() == receipts.to_multiset(),
{
    broadcast use vstd::seq_lib::group_to_multiset_ensures;

    reveal_with_fuel(receipts_of, 4);
    let groups = receipt_groups(receipts, max);
    if fits || groups.len() <= 1 {
        if plan.len() == 1 {
            assert(receipts_of(plan) =~= receipts);
        } else {
            assert(plan.drop_last()[0] == plan[0]);
            assert(plan[1].confirm_receipt@ == groups[0]);
            assert(receipts_of(plan) =~= receipts);
        }
    } else {
        let tail = receipts.skip(max as int);
        let head = receipts.take(max as int);
        assert(plan[1].confirm_receipt@ == groups[0]);
        assert(plan[2].confirm_receipt@ == groups[1]);
        assert(plan.drop_last().drop_last()[0] == plan[0]);
        assert(plan.drop_last()[1] == plan[1]);
        assert(receipts_of(plan) =~= tail + head);
        vstd::seq_lib::lemma_multiset_commutative(tail, head);
        vstd::seq_lib::lemma_multiset_commutative(head, tail);
        assert(head + tail =~= receipts);
        assert((tail + head).to_multiset() =~= (head + tail).to_multiset());
    }
}

/// No packet that carries receipts alone has more than fit in, as long as there are at most twice
/// as many receipts as that.
pub proof fn law_receipt_packets_fit(
    plan: Seq<OutboundPacket>,
    packet_id: u32,
    payload: SymmetricMessagePayload,
    receipts: Seq<u32>,
    max: nat,
    i: int,
)
    requires
        is_packet_plan(plan, packet_id, payload, receipts, false, max),
        receipts.len() <= 2 * max,
        1 <= i < plan.len(),
    ensures
        plan[i].confirm_receipt@.len() <= max,
{
    assert(plan[i].confirm_receipt@ == receipt_groups(receipts, max)[i - 1]);
}

} // verus!
