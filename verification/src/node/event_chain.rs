//! A chain of events, each for a peer chosen at random.
use vstd::prelude::*;

use crate::node::label::NodeLabel;
use crate::node::peer::TransportPublicKey;
use crate::node::random::draw;
use crate::node::random::start_generator;

verus! {

use crate::node::random::is_choice;
use crate::node::random::is_seeded;

/// The seed of the choices of a chain.
pub const SEED: u64 = 0xdeadbeef;

/// The directory that a simulated peer with this label leaves behind.
pub open spec fn tmp_dir_text(label: Seq<char>) -> Seq<char> {
    "freenet-executor-"@ + "sim"@ + "-"@ + label
}

/// The names of the directories that peers with these labels leave behind among the temporary
/// files.
pub fn clean_up_tmp_dirs<T>(labels: &Vec<(NodeLabel, T)>) -> (r: Vec<String>)
    ensures
        r@.len() == labels@.len(),
        forall|i: int| 0 <= i < r@.len() ==> (#[trigger] r@[i])@ == tmp_dir_text(labels@[i].0@),
{
    let mut dirs: Vec<String> = Vec::new();
    for i in 0..labels.len()
        invariant
            dirs@.len() == i,
            forall|k: int|
                0 <= k < i ==> (#[trigger] dirs@[k])@ == tmp_dir_text(labels@[k].0@),
    {
        let mut dir: String = "freenet-executor-".to_string();
        dir.append("sim");
        dir.append("-");
        dir.append(labels[i].0.as_str());
        dirs.push(dir);
    }
    dirs
}

/// Whether the controller of the peers took an event.
#[derive(Debug, Clone, Copy, PartialEq, Eq, Structural)]
pub enum Sending {
    /// It did, or it is gone.
    Done,
    /// It has no room for it yet.
    Pending,
}

/// What a chain gives when it is asked for the next event.
#[derive(Debug, Clone, Copy, PartialEq, Eq, Structural)]
pub enum NextEvent {
    /// Ask again later.
    Pending,
    /// The number of the event that was sent, counted from one.
    Sent(u32),
}

/// How far a chain has come.
pub ghost struct ChainProgress {
    /// How many events were sent.
    pub count: nat,
    /// How many events there are.
    pub total: nat,
    /// The peer for which the next event is, where it was chosen already.
    pub choice: Option<TransportPublicKey>,
}

/// A chain of `total_events` events for peers that are chosen at random. `S` is the controller
/// that takes the events.
pub struct EventChain<S> {
    labels: Vec<(NodeLabel, TransportPublicKey)>,
    user_ev_controller: S,
    total_events: u32,
    count: u32,
    rng: rand::rngs::SmallRng,
    clean_up_tmp_dirs: bool,
    choice: Option<TransportPublicKey>,
}

/// Whether `id` is the key of one of these peers.
pub open spec fn is_key_of(
    peers: Seq<(NodeLabel, TransportPublicKey)>,
    id: TransportPublicKey,
) -> bool {
    exists|i: int| 0 <= i < peers.len() && (#[trigger] peers[i]).1 == id
}

/// Whether the next event of a chain that has come this far can be for `id`.
pub open spec fn is_next_peer(
    peers: Seq<(NodeLabel, TransportPublicKey)>,
    s: ChainProgress,
    id: TransportPublicKey,
) -> bool {
    match s.choice {
        Some(choice) => id == choice,
        None => is_key_of(peers, id),
    }
}

/// How far a chain has come once the event for `id` was offered to the controller.
pub open spec fn after_offering(
    s: ChainProgress,
    id: TransportPublicKey,
    outcome: Sending,
) -> ChainProgress {
    match outcome {
        Sending::Done => ChainProgress { count: s.count + 1, ..s },
        Sending::Pending => ChainProgress { choice: Some(id), ..s },
    }
}

impl<S> EventChain<S> {
    /// The peers from which one is chosen.
    pub closed spec fn peers(self) -> Seq<(NodeLabel, TransportPublicKey)> {
        self.labels@
    }

    /// The controller that takes the events.
    pub closed spec fn controller_of(self) -> S {
        self.user_ev_controller
    }

    /// Whether the files of the peers are removed at the end.
    pub closed spec fn cleans_up(self) -> bool {
        self.clean_up_tmp_dirs
    }

    /// The generator of the choices, in its current state.
    pub closed spec fn generator(self) -> rand::rngs::SmallRng {
        self.rng
    }

    /// How far the chain has come.
    pub closed spec fn progress(self) -> ChainProgress {
        ChainProgress {
            count: self.count as nat,
            total: self.total_events as nat,
            choice: self.choice,
        }
    }

    /// Whether there is a peer for the next event.
    pub open spec fn has_candidate(self) -> bool {
        self.progress().choice is Some || self.peers().len() > 0
    }

    /// Whether `self` and `other` differ in nothing but how far they have come.
    pub open spec fn same_chain(self, other: Self) -> bool {
        &&& self.peers() == other.peers()
        &&& self.controller_of() == other.controller_of()
        &&& self.cleans_up() == other.cleans_up()
    }

    /// A chain of which no event was sent yet.
    pub fn new(
        labels: Vec<(NodeLabel, TransportPublicKey)>,
        user_ev_controller: S,
        total_events: u32,
        clean_up_tmp_dirs: bool,
    ) -> (r: Self)
        ensures
            r.peers() == labels@,
            r.controller_of() == user_ev_controller,
            r.cleans_up() == clean_up_tmp_dirs,
            r.progress() == (ChainProgress { count: 0, total: total_events as nat, choice: None }),
            is_seeded(0xdeadbeef, r.generator()),
    {
        EventChain {
            labels,
            user_ev_controller,
            total_events,
            count: 0,
            rng: start_generator(SEED),
            clean_up_tmp_dirs,
            choice: None,
        }
    }

    /// The controller that takes the events.
    pub fn controller(&self) -> (r: &S)
        ensures
            *r == self.controller_of(),
    {
        &self.user_ev_controller
    }

    /// Whether there is another event but no peer that it could be for.
    pub fn is_stuck(&self) -> (r: bool)
        ensures
            r == (self.progress().count < self.progress().total && !self.has_candidate()),
    {
        self.count < self.total_events && self.choice.is_none() && self.labels.len() == 0
    }

    /// The peer for the next event: the one that was chosen already, one at random otherwise.
    pub fn choose_peer(&mut self) -> (id: TransportPublicKey)
        requires
            old(self).has_candidate(),
        ensures
            final(self).same_chain(*old(self)),
            final(self).progress() == (ChainProgress { choice: None, ..old(self).progress() }),
            is_next_peer(old(self).peers(), old(self).progress(), id),
            match old(self).progress().choice {
                Some(choice) => id == choice && final(self).generator() == old(self).generator(),
                None => exists|label: NodeLabel| #[trigger]
                    is_choice(
                        old(self).peers(),
                        old(self).generator(),
                        (label, id),
                        final(self).generator(),
                    ),
            },
    {
        if let Some(id) = self.choice.take() {
            return id;
        }
        let chosen: &(NodeLabel, TransportPublicKey) = draw(&self.labels, &mut self.rng);
        let id: TransportPublicKey = chosen.1;
        proof {
            let label = chosen.0;
            assert(*chosen == (label, id));
            assert(is_choice(
                old(self).peers(),
                old(self).generator(),
                (label, id),
                self.generator(),
            ));
            let i = choose|i: int| 0 <= i < self.labels@.len() && self.labels@[i] == *chosen;
            assert(old(self).peers()[i].1 == id);
        }
        id
    }

    /// The next event and the peer that it is for, `None` after the last one.
    pub fn next_event(&mut self) -> (r: Option<(u32, TransportPublicKey)>)
        requires
            old(self).progress().count < old(self).progress().total ==> old(
                self,
            ).has_candidate(),
        ensures
            final(self).same_chain(*old(self)),
            match r {
                Some((event, id)) => {
                    &&& old(self).progress().count < old(self).progress().total
                    &&& event == old(self).progress().count
                    &&& is_next_peer(old(self).peers(), old(self).progress(), id)
                    &&& match old(self).progress().choice {
                        Some(choice) => id == choice && final(self).generator() == old(
                            self,
                        ).generator(),
                        None => exists|label: NodeLabel| #[trigger]
                            is_choice(
                                old(self).peers(),
                                old(self).generator(),
                                (label, id),
                                final(self).generator(),
                            ),
                    }
                    &&& final(self).progress() == (ChainProgress {
                        choice: None,
                        ..old(self).progress()
                    })
                },
                None => {
                    &&& old(self).progress().count >= old(self).progress().total
                    &&& final(self).progress() == old(self).progress()
                    &&& final(self).generator() == old(self).generator()
                },
            },
    {
        if self.count < self.total_events {
            let event: u32 = self.count;
            let id: TransportPublicKey = self.choose_peer();
            Some((event, id))
        } else {
            None
        }
    }

    /// Takes in whether the controller took the event for the peer `id`. Where it had no room,
    /// the event stays the next one and is for the same peer.
    pub fn on_offered(&mut self, id: TransportPublicKey, outcome: Sending) -> (r: NextEvent)
        requires
            old(self).progress().count < old(self).progress().total,
        ensures
            final(self).same_chain(*old(self)),
            final(self).progress() == after_offering(old(self).progress(), id, outcome),
            final(self).generator() == old(self).generator(),
            match outcome {
                Sending::Done => r matches NextEvent::Sent(n) && n == old(self).progress().count + 1,
                Sending::Pending => r == NextEvent::Pending,
            },
    {
        match outcome {
            Sending::Pending => {
                self.choice = Some(id);
                NextEvent::Pending
            },
            Sending::Done => {
                self.count = self.count + 1;
                NextEvent::Sent(self.count)
            },
        }
    }

    /// The directories to remove when the chain is dropped.
    pub fn leftovers(&self) -> (r: Vec<String>)
        ensures
            if self.cleans_up() {
                &&& r@.len() == self.peers().len()
                &&& forall|i: int|
                    0 <= i < r@.len() ==> (#[trigger] r@[i])@ == tmp_dir_text(self.peers()[i].0@)
            } else {
                r@.len() == 0
            },
    {
        if self.clean_up_tmp_dirs {
            clean_up_tmp_dirs(&self.labels)
        } else {
            Vec::new()
        }
    }
}

/// How far a chain has come after these offers, each with the peer that the event was for.
pub open spec fn after_offers(
    s: ChainProgress,
    offers: Seq<(TransportPublicKey, Sending)>,
) -> ChainProgress
    decreases offers.len(),
{
    if offers.len() == 0 {
        s
    } else {
        let before = after_offers(s, offers.drop_last());
        after_offering(
            ChainProgress { choice: None, ..before },
            offers.last().0,
            offers.last().1,
        )
    }
}

/// How many of these offers the controller took.
pub open spec fn taken(offers: Seq<(TransportPublicKey, Sending)>) -> nat
    decreases offers.len(),
{
    if offers.len() == 0 {
        0
    } else {
        taken(offers.drop_last()) + if offers.last().1 == Sending::Done {
            1nat
        } else {
            0nat
        }
    }
}

/// Every event that the controller takes is counted once, and those for which it has no room are
/// not counted: a chain ends when the controller took as many events as the chain has.
pub proof fn law_chain_counts_what_was_taken(
    s: ChainProgress,
    offers: Seq<(TransportPublicKey, Sending)>,
)
    ensures
        after_offers(s, offers).count == s.count + taken(offers),
        after_offers(s, offers).total == s.total,
    decreases offers.len(),
{
    if offers.len() > 0 {
        law_chain_counts_what_was_taken(s, offers.drop_last());
    }
}

/// Whether each of these offers is for a peer that `next_event` can give, where the chain had come
/// as far as `s` before.
pub open spec fn are_offers(
    peers: Seq<(NodeLabel, TransportPublicKey)>,
    s: ChainProgress,
    offers: Seq<(TransportPublicKey, Sending)>,
) -> bool
    decreases offers.len(),
{
    offers.len() > 0 ==> {
        &&& are_offers(peers, s, offers.drop_last())
        &&& is_next_peer(peers, after_offers(s, offers.drop_last()), offers.last().0)
    }
}

/// The events of a chain are for its peers alone: whatever was offered, each offer was for one of
/// the peers, and so is the event that is still to be taken.
pub proof fn law_events_are_for_peers(
    peers: Seq<(NodeLabel, TransportPublicKey)>,
    s: ChainProgress,
    offers: Seq<(TransportPublicKey, Sending)>,
)
    requires
        s.choice is None,
        are_offers(peers, s, offers),
    ensures
        match after_offers(s, offers).choice {
            Some(id) => is_key_of(peers, id),
            None => true,
        },
        forall|i: int| 0 <= i < offers.len() ==> is_key_of(peers, (#[trigger] offers[i]).0),
    decreases offers.len(),
{
    if offers.len() > 0 {
        let front = offers.drop_last();
        law_events_are_for_peers(peers, s, front);
        assert forall|i: int| 0 <= i < offers.len() implies is_key_of(
            peers,
            (#[trigger] offers[i]).0,
        ) by {
            if i < front.len() {
                assert(offers[i] == front[i]);
            }
        }
    }
}

/// An event for which the controller has no room is offered again, for the same peer and under
/// the same number.
pub proof fn law_pending_event_is_offered_again(s: ChainProgress, id: TransportPublicKey)
    ensures
        after_offering(s, id, Sending::Pending).choice == Some(id),
        after_offering(s, id, Sending::Pending).count == s.count,
        after_offering(s, id, Sending::Done).choice == s.choice,
{
}

/// An event that was taken is counted once, and the number of events and a pending choice stay. One
/// for which there is no room is not counted, and its peer is the next one.
pub proof fn law_offers_count_once(s: ChainProgress, id: TransportPublicKey)
    ensures
        after_offering(s, id, Sending::Done).count == s.count + 1,
        after_offering(s, id, Sending::Done).total == s.total,
        after_offering(s, id, Sending::Done).choice == s.choice,
        after_offering(s, id, Sending::Pending).count == s.count,
        after_offering(s, id, Sending::Pending).total == s.total,
        after_offering(s, id, Sending::Pending).choice == Some(id),
{
}

/// The next event is for the peer that was chosen already, where there is one, and for the key of
/// one of the peers otherwise.
pub proof fn law_next_peer_is_pending_or_listed(
    peers: Seq<(NodeLabel, TransportPublicKey)>,
    s: ChainProgress,
    id: TransportPublicKey,
)
    requires
        is_next_peer(peers, s, id),
    ensures
        s.choice is Some ==> s.choice == Some(id),
        s.choice is None ==> exists|i: int|
            0 <= i < peers.len() && (#[trigger] peers[i]).1 == id,
{
}

/// Two states of one chain have the same peers, controller and way to end, and there is somebody
/// for the next event exactly where one was chosen already or there are peers.
pub proof fn law_chain_keeps_what_it_was_made_of<S>(a: EventChain<S>, b: EventChain<S>)
    ensures
        a.same_chain(b) <==> a.peers() == b.peers() && a.controller_of() == b.controller_of()
            && a.cleans_up() == b.cleans_up(),
        a.has_candidate() <==> a.progress().choice is Some || a.peers().len() > 0,
{
}

/// A peer leaves one directory behind, under a fixed beginning and its label.
pub proof fn law_directories_are_named_by_label(label: Seq<char>)
    ensures
        tmp_dir_text(label) == "freenet-executor-sim-"@ + label,
{
    reveal_strlit("freenet-executor-");
    reveal_strlit("sim");
    reveal_strlit("-");
    reveal_strlit("freenet-executor-sim-");
    assert("freenet-executor-"@ + "sim"@ + "-"@ =~= "freenet-executor-sim-"@);
}

} // verus!
