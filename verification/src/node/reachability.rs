//! Which peers of a simulated network are connected.
use std::collections::HashSet;

use vstd::prelude::*;

use crate::node::label::NodeLabel;
use crate::node::order::find_label;
use crate::node::order::sort_by_label;
use crate::node::sim_network::SimNetwork;

verus! {

use crate::node::connectivity::is_listed;
use crate::node::label::node_text;
use crate::node::order::law_sorting_keeps_everything;
use crate::text::text_le;

broadcast use vstd::std_specs::hash::group_hash_axioms;

/// All nodes, as a share in millionths.
pub const WHOLE: u32 = 1_000_000;

/// Some nodes have no connection.
pub struct DisconnectedNodes {
    /// The labels of these nodes, in order.
    pub missing: Vec<NodeLabel>,
}

/// Whether `peer` is listed with a key that is reported as connected, or not, as `connected`
/// says.
pub open spec fn reported_as<T>(
    labels: Seq<(NodeLabel, T)>,
    reported: Seq<bool>,
    peer: Seq<char>,
    connected: bool,
) -> bool {
    exists|i: int|
        0 <= i < labels.len() && (#[trigger] labels[i]).0@ == peer && reported[i] == connected
}

/// How many of the numbers from `first` on, `n` in all, are not in `connected`.
pub open spec fn missing_count(connected: Set<usize>, first: nat, n: nat) -> nat
    decreases n,
{
    if n == 0 {
        0
    } else {
        missing_count(connected, first, (n - 1) as nat) + if connected.contains(
            (first + n - 1) as usize,
        ) {
            0nat
        } else {
            1nat
        }
    }
}

impl<S, ER> SimNetwork<S, ER> {
    /// Whether `n` is the number of a regular node.
    pub open spec fn is_node_number(self, n: int) -> bool {
        self.number_of_gateways <= n < self.number_of_gateways + self.number_of_nodes
    }

    /// Whether `n` is the number of a regular node and not in `connected`.
    pub open spec fn is_missing(self, connected: Set<usize>, n: usize) -> bool {
        self.is_node_number(n as int) && !connected.contains(n)
    }

    /// Whether this is the label of a regular node that is not in `connected`.
    pub open spec fn is_missing_label(self, connected: Set<usize>, label: Seq<char>) -> bool {
        exists|n: usize| #[trigger] self.is_missing(connected, n) && label == node_text(n as nat)
    }

    /// How many regular nodes are not in `connected`.
    pub open spec fn missing_number(self, connected: Set<usize>) -> nat {
        missing_count(connected, self.number_of_gateways as nat, self.number_of_nodes as nat)
    }

    /// How many regular nodes are in `connected`.
    pub open spec fn connected_number(self, connected: Set<usize>) -> int {
        self.number_of_nodes - self.missing_number(connected)
    }

    /// Whether these are the labels of the regular nodes that are not in `connected`, in order.
    pub open spec fn are_missing(self, connected: Set<usize>, labels: Seq<NodeLabel>) -> bool {
        &&& labels.len() == self.missing_number(connected)
        &&& forall|i: int, j: int| #![trigger labels[i], labels[j]]
            0 <= i <= j < labels.len() ==> text_le(labels[i]@, labels[j]@)
        &&& forall|i: int| #![trigger labels[i]]
            0 <= i < labels.len() ==> self.is_missing_label(connected, labels[i]@)
        &&& forall|n: usize| #[trigger]
            self.is_missing(connected, n) ==> exists|i: int|
                0 <= i < labels.len() && (#[trigger] labels[i])@ == node_text(n as nat)
    }

    /// Whether a peer is connected, by what the listener reports of every listed peer.
    pub fn connected(&self, peer: &NodeLabel, reported: &Vec<bool>) -> (r: bool)
        requires
            self.wf(),
            is_listed(self.labels@, peer@),
            reported@.len() == self.labels@.len(),
        ensures
            reported_as(self.labels@, reported@, peer@, r),
    {
        match find_label(&self.labels, peer) {
            Some(pos) => {
                assert(self.labels@[pos as int].0@ == peer@);
                reported[pos]
            },
            None => vstd::pervasive::unreached(),
        }
    }

    /// Whether to wait for more connections: `elapsed` is less than `time_out`, and fewer than
    /// `share` of the regular nodes, in millionths, are connected.
    pub fn is_waiting(
        &self,
        connected: &HashSet<usize>,
        share: u32,
        elapsed: u128,
        time_out: u128,
    ) -> (r: bool)
        ensures
            r == (elapsed < time_out && connected@.len() * WHOLE < self.number_of_nodes * share),
    {
        let count: usize = connected.len();
        proof {
            lemma_share_fits(count, WHOLE as u64);
            lemma_share_fits(self.number_of_nodes, share as u64);
        }
        elapsed < time_out && (count as u128) * (WHOLE as u128) < (self.number_of_nodes as u128) * (
        share as u128)
    }

    /// Adds to `connected` the numbers of the regular nodes that are connected by now, by what the
    /// listener reports of every listed peer.
    pub fn collect_connected(&self, connected: &mut HashSet<usize>, reported: &Vec<bool>)
        requires
            self.wf(),
            reported@.len() == self.labels@.len(),
            forall|n: usize|
                self.is_node_number(n as int) && !old(connected)@.contains(n) ==> is_listed(
                    self.labels@,
                    #[trigger] node_text(n as nat),
                ),
        ensures
            forall|n: usize|
                old(connected)@.contains(n) ==> #[trigger] final(connected)@.contains(n),
            forall|n: usize|
                #[trigger] final(connected)@.contains(n) ==> old(connected)@.contains(n) || (
                self.is_node_number(n as int) && reported_as(
                    self.labels@,
                    reported@,
                    node_text(n as nat),
                    true,
                )),
            forall|n: usize|
                self.is_node_number(n as int) && !(#[trigger] final(connected)@.contains(n))
                    ==> reported_as(self.labels@, reported@, node_text(n as nat), false),
    {
        let first: usize = self.number_of_gateways;
        let end: usize = self.number_of_gateways + self.number_of_nodes;
        for node in first..end
            invariant
                self.wf(),
                reported@.len() == self.labels@.len(),
                first == self.number_of_gateways,
                end == self.number_of_gateways + self.number_of_nodes,
                forall|n: usize|
                    self.is_node_number(n as int) && !old(connected)@.contains(n) ==> is_listed(
                        self.labels@,
                        #[trigger] node_text(n as nat),
                    ),
                forall|n: usize|
                    old(connected)@.contains(n) ==> #[trigger] connected@.contains(n),
                forall|n: usize|
                    #[trigger] connected@.contains(n) ==> old(connected)@.contains(n) || (
                    self.is_node_number(n as int) && n < node && reported_as(
                        self.labels@,
                        reported@,
                        node_text(n as nat),
                        true,
                    )),
                forall|n: usize|
                    first <= n < node && !(#[trigger] connected@.contains(n)) ==> reported_as(
                        self.labels@,
                        reported@,
                        node_text(n as nat),
                        false,
                    ),
        {
            if !connected.contains(&node) {
                assert(is_listed(self.labels@, node_text(node as nat)));
                if self.connected(&NodeLabel::node(node), reported) {
                    connected.insert(node);
                }
            }
        }
    }

    /// The labels of the regular nodes whose numbers are not in `connected`, in order.
    pub fn missing_nodes(&self, connected: &HashSet<usize>) -> (r: Vec<NodeLabel>)
        requires
            self.wf(),
        ensures
            self.are_missing(connected@, r@),
    {
        let first: usize = self.number_of_gateways;
        let end: usize = self.number_of_gateways + self.number_of_nodes;
        let mut missing: Vec<(NodeLabel, usize)> = Vec::new();
        for node in first..end
            invariant
                first == self.number_of_gateways,
                end == self.number_of_gateways + self.number_of_nodes,
                missing@.len() == missing_count(connected@, first as nat, (node - first) as nat),
                forall|i: int| #![trigger missing@[i]]
                    0 <= i < missing@.len() ==> {
                        &&& self.is_missing(connected@, missing@[i].1)
                        &&& missing@[i].0@ == node_text(missing@[i].1 as nat)
                    },
                forall|n: usize| #[trigger]
                    self.is_missing(connected@, n) && n < node ==> exists|i: int|
                        0 <= i < missing@.len() && (#[trigger] missing@[i]).1 == n,
        {
            let ghost before = missing@;
            if !connected.contains(&node) {
                missing.push((NodeLabel::node(node), node));
            }
            proof {
                assert forall|n: usize| #[trigger]
                    self.is_missing(connected@, n) && n < node + 1 implies exists|i: int|
                    0 <= i < missing@.len() && (#[trigger] missing@[i]).1 == n by {
                    if n < node {
                        let i = choose|i: int|
                            0 <= i < before.len() && (#[trigger] before[i]).1 == n;
                        assert(missing@[i].1 == n);
                    } else {
                        assert(missing@[before.len() as int].1 == n);
                    }
                }
            }
        }
        let ghost unsorted = missing@;
        let sorted: Vec<(NodeLabel, usize)> = sort_by_label(missing);
        let mut labels: Vec<NodeLabel> = Vec::new();
        for i in 0..sorted.len()
            invariant
                labels@.len() == i,
                forall|k: int| #![trigger labels@[k]]
                    0 <= k < i ==> labels@[k]@ == sorted@[k].0@,
        {
            labels.push(sorted[i].0.clone());
        }
        proof {
            assert forall|i: int, j: int| #![trigger labels@[i], labels@[j]]
                0 <= i <= j < labels@.len() implies text_le(labels@[i]@, labels@[j]@) by {
                assert(text_le(sorted@[i].0@, sorted@[j].0@));
            }
            assert forall|i: int| #![trigger labels@[i]]
                0 <= i < labels@.len() implies self.is_missing_label(
                connected@,
                labels@[i]@,
            ) by {
                let e = sorted@[i];
                law_sorting_keeps_everything(unsorted, sorted@, e);
                let k = choose|k: int| 0 <= k < unsorted.len() && unsorted[k] == e;
                assert(self.is_missing(connected@, unsorted[k].1));
            }
            assert forall|n: usize| #[trigger] self.is_missing(connected@, n) implies exists|
                i: int,
            |
                0 <= i < labels@.len() && (#[trigger] labels@[i])@ == node_text(n as nat) by {
                let k = choose|k: int| 0 <= k < unsorted.len() && (#[trigger] unsorted[k]).1 == n;
                let e = unsorted[k];
                assert(unsorted.contains(e));
                law_sorting_keeps_everything(unsorted, sorted@, e);
                let i = choose|i: int| 0 <= i < sorted@.len() && sorted@[i] == e;
                assert(labels@[i]@ == node_text(n as nat));
            }
        }
        labels
    }

    /// Checks that `share` of the regular nodes, in millionths, are connected. Otherwise says which
    /// ones are missing.
    pub fn connectivity(
        &self,
        connected: &HashSet<usize>,
        share: u32,
    ) -> (r: Result<(), DisconnectedNodes>)
        requires
            self.wf(),
            share <= WHOLE,
        ensures
            r is Err <==> self.connected_number(connected@) * WHOLE < self.number_of_nodes * share,
            match r {
                Ok(_) => true,
                Err(nodes) => self.are_missing(connected@, nodes.missing@),
            },
    {
        let missing: Vec<NodeLabel> = self.missing_nodes(connected);
        proof {
            lemma_missing_count(
                connected@,
                self.number_of_gateways as nat,
                self.number_of_nodes as nat,
            );
        }
        let there: usize = self.number_of_nodes - missing.len();
        proof {
            lemma_share_fits(there, WHOLE as u64);
            lemma_share_fits(self.number_of_nodes, share as u64);
        }
        if (there as u128) * (WHOLE as u128) < (self.number_of_nodes as u128) * (share as u128) {
            Err(DisconnectedNodes { missing })
        } else {
            Ok(())
        }
    }

    /// Checks that all peers in the network have acquired at least one connection to any other
    /// peers.
    pub fn check_connectivity(&self, connected: &HashSet<usize>) -> (r: Result<
        (),
        DisconnectedNodes,
    >)
        requires
            self.wf(),
        ensures
            r is Ok <==> forall|n: usize| !(#[trigger] self.is_missing(connected@, n)),
            r is Ok <==> self.missing_number(connected@) == 0,
            match r {
                Ok(_) => true,
                Err(nodes) => self.are_missing(connected@, nodes.missing@),
            },
    {
        proof {
            lemma_missing_count(
                connected@,
                self.number_of_gateways as nat,
                self.number_of_nodes as nat,
            );
            lemma_missing_number(*self, connected@);
        }
        self.connectivity(connected, WHOLE)
    }

    /// Checks that a percentage of the nodes, given as a share in millionths, has at least one
    /// connection to any other peers.
    pub fn check_partial_connectivity(
        &self,
        connected: &HashSet<usize>,
        share: u32,
    ) -> (r: Result<(), DisconnectedNodes>)
        requires
            self.wf(),
            share <= WHOLE,
        ensures
            r is Err <==> self.connected_number(connected@) * WHOLE < self.number_of_nodes * share,
            match r {
                Ok(_) => true,
                Err(nodes) => self.are_missing(connected@, nodes.missing@),
            },
    {
        self.connectivity(connected, share)
    }
}

proof fn lemma_share_fits(number: usize, share: u64)
    ensures
        0 <= number * share <= u128::MAX,
{
    assert(0 <= number * share <= u64::MAX * u64::MAX) by (nonlinear_arith)
        requires
            0 <= number <= u64::MAX,
            0 <= share <= u64::MAX,
    ;
}

/// A count of missing numbers is zero where none is missing, and only there.
proof fn lemma_missing_count(connected: Set<usize>, first: nat, n: nat)
    requires
        first + n <= usize::MAX,
    ensures
        missing_count(connected, first, n) <= n,
        missing_count(connected, first, n) == 0 <==> forall|k: usize|
            first <= k < first + n ==> #[trigger] connected.contains(k),
    decreases n,
{
    if n > 0 {
        let m = (n - 1) as nat;
        lemma_missing_count(connected, first, m);
        let last = (first + m) as usize;
        if missing_count(connected, first, n) == 0 {
            assert forall|k: usize| first <= k < first + n implies #[trigger] connected.contains(
                k,
            ) by {
                if k == last {
                    assert(connected.contains(last));
                }
            }
        }
        if forall|k: usize| first <= k < first + n ==> #[trigger] connected.contains(k) {
            assert(connected.contains(last));
        }
    }
}

proof fn lemma_missing_number<S, ER>(net: SimNetwork<S, ER>, connected: Set<usize>)
    requires
        net.number_of_gateways + net.number_of_nodes <= usize::MAX,
    ensures
        net.missing_number(connected) == 0 <==> forall|n: usize|
            !(#[trigger] net.is_missing(connected, n)),
{
    let first = net.number_of_gateways as nat;
    let n = net.number_of_nodes as nat;
    lemma_missing_count(connected, first, n);
    if net.missing_number(connected) == 0 {
        assert forall|k: usize| !(#[trigger] net.is_missing(connected, k)) by {
            if net.is_node_number(k as int) {
                assert(connected.contains(k));
            }
        }
    }
    if forall|k: usize| !(#[trigger] net.is_missing(connected, k)) {
        assert forall|k: usize| first <= k < first + n implies #[trigger] connected.contains(k) by {
            assert(!net.is_missing(connected, k));
        }
    }
}

/// The numbers from `first` on, `n` in all, that are in `connected`.
spec fn counted(connected: Set<usize>, first: nat, n: nat) -> Set<usize> {
    connected.filter(|k: usize| first <= k < first + n)
}

proof fn lemma_counted(connected: Set<usize>, first: nat, n: nat)
    requires
        connected.finite(),
        first + n <= usize::MAX,
    ensures
        counted(connected, first, n).finite(),
        counted(connected, first, n).len() + missing_count(connected, first, n) == n,
    decreases n,
{
    let all = counted(connected, first, n);
    connected.lemma_len_filter(|k: usize| first <= k < first + n);
    if n == 0 {
        assert(all =~= Set::empty());
    } else {
        let m = (n - 1) as nat;
        lemma_counted(connected, first, m);
        let last = (first + m) as usize;
        if connected.contains(last) {
            assert(all =~= counted(connected, first, m).insert(last));
        } else {
            assert(all =~= counted(connected, first, m));
        }
    }
}

/// The check of a share succeeds exactly where enough connections were collected for it: before
/// the time is out, a network is waited for exactly while its check would fail.
pub proof fn law_enough_connections_pass<S, ER>(
    net: SimNetwork<S, ER>,
    connected: Set<usize>,
    share: u32,
)
    requires
        net.wf(),
        connected.finite(),
        forall|n: usize| #[trigger] connected.contains(n) ==> net.is_node_number(n as int),
    ensures
        net.connected_number(connected) == connected.len(),
        net.connected_number(connected) * WHOLE < net.number_of_nodes * share <==> connected.len()
            * WHOLE < net.number_of_nodes * share,
{
    let first = net.number_of_gateways as nat;
    let n = net.number_of_nodes as nat;
    lemma_counted(connected, first, n);
    assert(counted(connected, first, n) =~= connected);
}

/// Where no node has a connection, the check fails for every share above zero.
pub proof fn law_nobody_connected_fails<S, ER>(net: SimNetwork<S, ER>, share: u32)
    requires
        net.wf(),
        net.number_of_nodes > 0,
        share > 0,
    ensures
        net.connected_number(Set::empty()) * WHOLE < net.number_of_nodes * share,
{
    let none: Set<usize> = Set::empty();
    law_enough_connections_pass(net, none, share);
    let n = net.number_of_nodes;
    assert(0 < n * share) by (nonlinear_arith)
        requires
            n > 0,
            share > 0,
    ;
}

/// The connected nodes are those of the collected numbers that belong to regular nodes, that is
/// those from the number of gateways on, one for each regular node. All other ones are missing.
pub proof fn law_missing_are_all_but_the_connected<S, ER>(
    net: SimNetwork<S, ER>,
    connected: Set<usize>,
    n: usize,
)
    requires
        net.wf(),
        connected.finite(),
    ensures
        ({
            let first = net.number_of_gateways;
            let nodes = net.number_of_nodes;
            &&& net.is_node_number(n as int) <==> first <= n < first + nodes
            &&& net.is_missing(connected, n) <==> first <= n < first + nodes && !connected.contains(
                n,
            )
            &&& net.connected_number(connected) == connected.filter(
                |k: usize| first <= k < first + nodes,
            ).len()
            &&& net.missing_number(connected) == nodes - connected.filter(
                |k: usize| first <= k < first + nodes,
            ).len()
        }),
{
    let first = net.number_of_gateways;
    let nodes = net.number_of_nodes;
    lemma_counted(connected, first as nat, nodes as nat);
    assert(counted(connected, first as nat, nodes as nat) =~= connected.filter(
        |k: usize| first <= k < first + nodes,
    ));
}

/// The missing nodes are listed under their labels, all of them and nobody else, as many as there
/// are, in the order of the labels.
pub proof fn law_missing_nodes_are_listed<S, ER>(
    net: SimNetwork<S, ER>,
    connected: Set<usize>,
    labels: Seq<NodeLabel>,
)
    requires
        net.wf(),
        connected.finite(),
        net.are_missing(connected, labels),
    ensures
        labels.len() == net.number_of_nodes - connected.filter(
            |k: usize| net.number_of_gateways <= k < net.number_of_gateways + net.number_of_nodes,
        ).len(),
        forall|i: int, j: int| #![trigger labels[i], labels[j]]
            0 <= i <= j < labels.len() ==> text_le(labels[i]@, labels[j]@),
        forall|i: int|
            0 <= i < labels.len() ==> exists|n: usize|
                net.number_of_gateways <= n < net.number_of_gateways + net.number_of_nodes
                    && !connected.contains(n) && (#[trigger] labels[i])@ == #[trigger] node_text(
                    n as nat,
                ),
        forall|n: usize|
            net.number_of_gateways <= n < net.number_of_gateways + net.number_of_nodes && !(
            #[trigger] connected.contains(n)) ==> exists|i: int|
                0 <= i < labels.len() && (#[trigger] labels[i])@ == node_text(n as nat),
{
    law_missing_are_all_but_the_connected(net, connected, 0);
    assert forall|i: int| 0 <= i < labels.len() implies exists|n: usize|
        net.number_of_gateways <= n < net.number_of_gateways + net.number_of_nodes
            && !connected.contains(n) && (#[trigger] labels[i])@ == #[trigger] node_text(
            n as nat,
        ) by {
        assert(net.is_missing_label(connected, labels[i]@));
        let n = choose|n: usize| #[trigger]
            net.is_missing(connected, n) && labels[i]@ == node_text(n as nat);
        assert(labels[i]@ == node_text(n as nat));
    }
    assert forall|n: usize|
        net.number_of_gateways <= n < net.number_of_gateways + net.number_of_nodes && !(
        #[trigger] connected.contains(n)) implies exists|i: int|
        0 <= i < labels.len() && (#[trigger] labels[i])@ == node_text(n as nat) by {
        assert(net.is_missing(connected, n));
    }
}

/// What is reported of a peer is what is reported at its place in the list, where no other peer
/// has its label.
pub proof fn law_a_peer_is_reported_at_its_place<T>(
    labels: Seq<(NodeLabel, T)>,
    reported: Seq<bool>,
    i: int,
    connected: bool,
)
    requires
        0 <= i < labels.len(),
        forall|j: int|
            0 <= j < labels.len() && j != i ==> (#[trigger] labels[j]).0@ != labels[i].0@,
    ensures
        reported_as(labels, reported, labels[i].0@, connected) <==> reported[i] == connected,
{
}

/// A share of all nodes is a million millionths.
pub proof fn law_the_whole_is_a_million_millionths(count: nat, nodes: nat)
    ensures
        count * WHOLE < nodes * WHOLE <==> count < nodes,
        WHOLE == 1_000_000,
{
    assert(count * 1_000_000 < nodes * 1_000_000 <==> count < nodes);
}

} // verus!
