//! How well the peers of a simulated network are connected.
use vstd::prelude::*;

use crate::node::label::NodeLabel;
use crate::node::label_map::LabelMap;
use crate::node::peer::Distance;
use crate::node::peer::PeerId;
use crate::node::peer::TransportPublicKey;
use crate::node::sim_network::SimNetwork;

verus! {

use crate::text::has_prefix;

/// What a listener knows of one peer: the peers that it has a connection to, and how far away
/// they are.
pub type Links = Vec<(PeerId, Distance)>;

/// Whether `key` is the key of one of the listed peers.
pub open spec fn is_known_key(
    labels: Seq<(NodeLabel, TransportPublicKey)>,
    key: TransportPublicKey,
) -> bool {
    exists|i: int| 0 <= i < labels.len() && (#[trigger] labels[i]).1 == key
}

/// Whether a peer with this label is listed.
pub open spec fn is_listed<T>(labels: Seq<(NodeLabel, T)>, label: Seq<char>) -> bool {
    exists|i: int| 0 <= i < labels.len() && (#[trigger] labels[i]).0@ == label
}

/// The label of the peer with this key, the last one where there are several.
pub open spec fn label_of(
    labels: Seq<(NodeLabel, TransportPublicKey)>,
    key: TransportPublicKey,
) -> Seq<char>
    decreases labels.len(),
{
    if labels.len() == 0 {
        Seq::empty()
    } else if labels.last().1 == key {
        labels.last().0@
    } else {
        label_of(labels.drop_last(), key)
    }
}

/// The peers that these links lead to, under their labels, each with its distance. Of several
/// links to one peer the last one counts.
pub open spec fn link_map(
    labels: Seq<(NodeLabel, TransportPublicKey)>,
    links: Seq<(PeerId, Distance)>,
) -> Map<Seq<char>, Distance>
    decreases links.len(),
{
    if links.len() == 0 {
        Map::empty()
    } else {
        link_map(labels, links.drop_last()).insert(
            label_of(labels, links.last().0.pub_key),
            links.last().1,
        )
    }
}

/// Whether no peer behind position `i` has the same label.
pub open spec fn is_last_of_label<T>(labels: Seq<(NodeLabel, T)>, i: int) -> bool {
    forall|j: int| i < j < labels.len() ==> (#[trigger] labels[j]).0@ != labels[i].0@
}

/// Whether `found` has an entry for the label of each of the first `n` peers and no other one:
/// the key of the peer and the peers that its links lead to. Of several peers with one label the
/// last one counts.
pub open spec fn is_connectivity(
    labels: Seq<(NodeLabel, TransportPublicKey)>,
    reported: Seq<Links>,
    n: int,
    found: Map<Seq<char>, (TransportPublicKey, LabelMap<Distance>)>,
) -> bool {
    &&& has_listed_labels(labels.take(n), found.dom())
    &&& forall|i: int| #![trigger labels[i]]
        0 <= i < n && is_last_of_label(labels.take(n), i) ==> is_entry_of(
            labels,
            reported,
            i,
            found[labels[i].0@],
        )
}

/// Whether these are the labels of the listed peers.
pub open spec fn has_listed_labels<T>(labels: Seq<(NodeLabel, T)>, texts: Set<Seq<char>>) -> bool {
    forall|t: Seq<char>| #[trigger] texts.contains(t) <==> is_listed(labels, t)
}

/// Whether `entry` has the key of peer `i` and the peers that its links lead to.
pub open spec fn is_entry_of(
    labels: Seq<(NodeLabel, TransportPublicKey)>,
    reported: Seq<Links>,
    i: int,
    entry: (TransportPublicKey, LabelMap<Distance>),
) -> bool {
    &&& entry.0 == labels[i].1
    &&& entry.1@ == link_map(labels, reported[i]@)
}

proof fn lemma_labels_grow<T>(labels: Seq<(NodeLabel, T)>, n: int, texts: Set<Seq<char>>)
    requires
        0 <= n < labels.len(),
        has_listed_labels(labels.take(n), texts),
    ensures
        has_listed_labels(labels.take(n + 1), texts.insert(labels[n].0@)),
{
    let front = labels.take(n);
    let next = labels.take(n + 1);
    let text = labels[n].0@;
    assert forall|t: Seq<char>| #[trigger] texts.insert(text).contains(t) <==> is_listed(
        next,
        t,
    ) by {
        assert(texts.contains(t) <==> is_listed(front, t));
        if t == text {
            assert(next[n].0@ == t);
        }
        if is_listed(front, t) {
            let k = choose|k: int| 0 <= k < front.len() && (#[trigger] front[k]).0@ == t;
            assert(next[k].0@ == t);
        }
        if is_listed(next, t) && t != text {
            let k = choose|k: int| 0 <= k < next.len() && (#[trigger] next[k]).0@ == t;
            assert(front[k].0@ == t);
        }
    }
}

proof fn lemma_connectivity_grows(
    labels: Seq<(NodeLabel, TransportPublicKey)>,
    reported: Seq<Links>,
    n: int,
    found: Map<Seq<char>, (TransportPublicKey, LabelMap<Distance>)>,
    entry: (TransportPublicKey, LabelMap<Distance>),
)
    requires
        0 <= n < labels.len(),
        is_connectivity(labels, reported, n, found),
        is_entry_of(labels, reported, n, entry),
    ensures
        is_connectivity(labels, reported, n + 1, found.insert(labels[n].0@, entry)),
{
    let text = labels[n].0@;
    let after = found.insert(text, entry);
    lemma_labels_grow(labels, n, found.dom());
    assert(after.dom() =~= found.dom().insert(text));
    assert forall|k: int| #![trigger labels[k]]
        0 <= k < n + 1 && is_last_of_label(labels.take(n + 1), k) implies is_entry_of(
        labels,
        reported,
        k,
        after[labels[k].0@],
    ) by {
        if k < n {
            lemma_last_before(labels, n, k);
        }
    }
}

/// What is the last one of a label among more peers is so among fewer, and another peer behind it
/// has another label.
proof fn lemma_last_before<T>(labels: Seq<(NodeLabel, T)>, n: int, k: int)
    requires
        0 <= k < n < labels.len(),
        is_last_of_label(labels.take(n + 1), k),
    ensures
        is_last_of_label(labels.take(n), k),
        labels[n].0@ != labels[k].0@,
{
    let front = labels.take(n);
    let next = labels.take(n + 1);
    assert(next[n].0@ != next[k].0@);
    assert forall|j: int| k < j < front.len() implies (#[trigger] front[j]).0@ != front[k].0@ by {
        assert(next[j].0@ != next[k].0@);
    }
}

/// Whether all links lead to listed peers.
pub open spec fn leads_to_known(
    labels: Seq<(NodeLabel, TransportPublicKey)>,
    links: Seq<(PeerId, Distance)>,
) -> bool {
    forall|i: int| 0 <= i < links.len() ==> is_known_key(labels, (#[trigger] links[i]).0.pub_key)
}

/// Whether `reported` says for every listed peer which links it has, and all of them lead to
/// listed peers.
pub open spec fn are_links_of(
    labels: Seq<(NodeLabel, TransportPublicKey)>,
    reported: Seq<Links>,
) -> bool {
    &&& reported.len() == labels.len()
    &&& forall|i: int| 0 <= i < reported.len() ==> leads_to_known(labels, (#[trigger] reported[i])@)
}

/// To how many peers each regular node has a connection, for the first `n` listed peers.
pub open spec fn degrees(
    labels: Seq<(NodeLabel, TransportPublicKey)>,
    reported: Seq<Links>,
    n: nat,
) -> Seq<nat>
    decreases n,
{
    if n == 0 {
        Seq::empty()
    } else {
        let before = degrees(labels, reported, (n - 1) as nat);
        if is_last_of_label(labels, n - 1) && !has_prefix(labels[n - 1].0@, "gateway"@) {
            before.push(link_map(labels, reported[n - 1]@).dom().len())
        } else {
            before
        }
    }
}

/// How many of these numbers are at most `bound`.
pub open spec fn count_up_to(numbers: Seq<nat>, bound: nat) -> nat
    decreases numbers.len(),
{
    if numbers.len() == 0 {
        0
    } else {
        count_up_to(numbers.drop_last(), bound) + if numbers.last() <= bound {
            1nat
        } else {
            0nat
        }
    }
}

/// These numbers without the bound of their type.
pub open spec fn as_nats(numbers: Seq<usize>) -> Seq<nat> {
    Seq::new(numbers.len(), |i: int| numbers[i] as nat)
}

/// The sum of these numbers.
pub open spec fn total(numbers: Seq<nat>) -> nat
    decreases numbers.len(),
{
    if numbers.len() == 0 {
        0
    } else {
        total(numbers.drop_last()) + numbers.last()
    }
}

/// How many connections peers have on average, and above how many that should be, for display: the
/// numbers are rounded.
#[derive(Debug, Clone, Copy, PartialEq, Eq, Structural)]
pub struct ConnectionAverage {
    /// The average number of connections of a node, rounded down.
    pub average: u128,
    /// The mean between the most and the fewest connections that a peer may have, rounded down.
    pub mean: usize,
}

/// Why the connectivity of a network is low.
#[derive(Debug, Clone, Copy, PartialEq, Eq, Structural)]
pub enum LowConnectivity {
    /// More than half of the nodes do not have more than the minimum connections.
    TooFewAboveMinimum,
    /// The average number of connections is not above the mean.
    LowAverage(ConnectionAverage),
}

/// The label of the peer with this key.
fn find_key(
    labels: &Vec<(NodeLabel, TransportPublicKey)>,
    key: TransportPublicKey,
) -> (r: NodeLabel)
    requires
        is_known_key(labels@, key),
    ensures
        r@ == label_of(labels@, key),
{
    let mut i: usize = labels.len();
    let ghost wanted = label_of(labels@, key);
    assert(labels@.take(i as int) =~= labels@);
    while i > 0
        invariant
            i <= labels@.len(),
            is_known_key(labels@.take(i as int), key),
            wanted == label_of(labels@, key),
            wanted == label_of(labels@.take(i as int), key),
        decreases i,
    {
        let ghost front = labels@.take(i as int);
        if labels[i - 1].1 == key {
            return labels[i - 1].0.clone();
        }
        proof {
            assert(front.drop_last() =~= labels@.take(i - 1));
            let k = choose|k: int| 0 <= k < front.len() && (#[trigger] front[k]).1 == key;
            assert(labels@.take(i - 1)[k] == front[k]);
        }
        i = i - 1;
    }
    vstd::pervasive::unreached()
}

/// The peers that these links lead to, under their labels.
fn links_by_label(
    labels: &Vec<(NodeLabel, TransportPublicKey)>,
    links: &Links,
) -> (r: LabelMap<Distance>)
    requires
        leads_to_known(labels@, links@),
    ensures
        r@ == link_map(labels@, links@),
{
    let mut map: LabelMap<Distance> = LabelMap::new();
    for i in 0..links.len()
        invariant
            leads_to_known(labels@, links@),
            map@ == link_map(labels@, links@.take(i as int)),
    {
        let (peer, distance) = links[i];
        assert(is_known_key(labels@, links@[i as int].0.pub_key));
        map.insert(find_key(labels, peer.pub_key), distance);
        assert(links@.take(i + 1).drop_last() =~= links@.take(i as int));
    }
    assert(links@.take(links@.len() as int) =~= links@);
    map
}

/// Whether no peer behind position `i` has the same label.
fn is_last(labels: &Vec<(NodeLabel, TransportPublicKey)>, i: usize) -> (r: bool)
    requires
        i < labels@.len(),
    ensures
        r == is_last_of_label(labels@, i as int),
{
    let n: usize = labels.len();
    let mut j: usize = i + 1;
    while j < n
        invariant
            i < j <= n == labels@.len(),
            forall|k: int| i < k < j ==> (#[trigger] labels@[k]).0@ != labels@[i as int].0@,
        decreases labels@.len() - j,
    {
        if labels[j].0 == labels[i].0 {
            return false;
        }
        j = j + 1;
    }
    true
}

impl<S, ER> SimNetwork<S, ER> {
    /// Returns the connectivity in the network per peer, that is all the connections this peer
    /// has registered. The listener is asked for the links of every listed peer beforehand.
    pub fn node_connectivity(&self, reported: &Vec<Links>) -> (r: LabelMap<
        (TransportPublicKey, LabelMap<Distance>),
    >)
        requires
            are_links_of(self.labels@, reported@),
        ensures
            is_connectivity(self.labels@, reported@, self.labels@.len() as int, r@),
    {
        let mut peers_connections: LabelMap<(TransportPublicKey, LabelMap<Distance>)> =
            LabelMap::new();
        for i in 0..self.labels.len()
            invariant
                are_links_of(self.labels@, reported@),
                is_connectivity(self.labels@, reported@, i as int, peers_connections@),
        {
            let ghost before = peers_connections@;
            let conns: LabelMap<Distance> = links_by_label(&self.labels, &reported[i]);
            let label: NodeLabel = self.labels[i].0.clone();
            let entry = (self.labels[i].1, conns);
            proof {
                lemma_connectivity_grows(self.labels@, reported@, i as int, before, entry);
            }
            peers_connections.insert(label, entry);
        }
        peers_connections
    }

    /// To how many peers each regular node has a connection.
    fn connections_per_peer(&self, reported: &Vec<Links>) -> (r: Vec<usize>)
        requires
            are_links_of(self.labels@, reported@),
        ensures
            as_nats(r@) == degrees(self.labels@, reported@, self.labels@.len()),
    {
        let mut connections: Vec<usize> = Vec::new();
        assert(as_nats(connections@) =~= degrees(self.labels@, reported@, 0));
        for i in 0..self.labels.len()
            invariant
                are_links_of(self.labels@, reported@),
                as_nats(connections@) == degrees(self.labels@, reported@, i as nat),
        {
            if is_last(&self.labels, i) && !self.labels[i].0.is_gateway() {
                let conns: LabelMap<Distance> = links_by_label(&self.labels, &reported[i]);
                let ghost before = connections@;
                connections.push(conns.len());
                assert(as_nats(connections@) =~= as_nats(before).push(conns@.dom().len()));
            }
        }
        connections
    }

    /// The connections of the regular nodes, by what the listener reports of every listed peer.
    pub open spec fn node_degrees(self, reported: Seq<Links>) -> Seq<nat> {
        degrees(self.labels@, reported, self.labels@.len())
    }

    /// Whether more than half of the nodes do not have more than the minimum connections.
    pub open spec fn too_few(self, reported: Seq<Links>) -> bool {
        count_up_to(self.node_degrees(reported), self.params.min_connections as nat)
            > self.number_of_nodes / 2
    }

    /// Whether the average number of connections of a node is above the mean between the most and
    /// the fewest connections that a peer may have. Both are compared as they are, not rounded.
    pub open spec fn average_above_mean(self, reported: Seq<Links>) -> bool {
        2 * total(self.node_degrees(reported)) > (self.params.min_connections
            + self.params.max_connections) * self.number_of_nodes
    }

    /// Whether at least half of the nodes have more than the minimum connections.
    pub fn has_enough_connections(&self, reported: &Vec<Links>) -> (r: bool)
        requires
            are_links_of(self.labels@, reported@),
        ensures
            r == !self.too_few(reported@),
    {
        let connections: Vec<usize> = self.connections_per_peer(reported);
        let ghost numbers = as_nats(connections@);
        let min: usize = self.params.min_connections;
        let mut weak: usize = 0;
        for i in 0..connections.len()
            invariant
                numbers == as_nats(connections@),
                weak <= i,
                weak == count_up_to(numbers.take(i as int), min as nat),
        {
            assert(numbers.take(i + 1).drop_last() =~= numbers.take(i as int));
            if connections[i] <= min {
                weak = weak + 1;
            }
        }
        assert(numbers.take(numbers.len() as int) =~= numbers);
        weak <= self.number_of_nodes / 2
    }

    /// Recommended to calling after `check_connectivity` to ensure enough time elapsed for all
    /// peers to become connected.
    ///
    /// Checks that there is a good connectivity over the simulated network, meaning that:
    ///
    /// - at least 50% of the peers have more than the minimum connections
    /// - the average number of connections per peer is above the mean between max and min
    ///   connections
    pub fn network_connectivity_quality(&self, reported: &Vec<Links>) -> (r: Result<
        (),
        LowConnectivity,
    >)
        requires
            are_links_of(self.labels@, reported@),
            self.number_of_nodes > 0,
            self.number_of_nodes / 2 < self.node_degrees(reported@).len(),
            !self.too_few(reported@) ==> self.params.min_connections
                <= self.params.max_connections,
        ensures
            match r {
                Err(LowConnectivity::TooFewAboveMinimum) => self.too_few(reported@),
                Err(LowConnectivity::LowAverage(low)) => {
                    &&& !self.too_few(reported@)
                    &&& !self.average_above_mean(reported@)
                    &&& low.average == total(self.node_degrees(reported@))
                        / self.number_of_nodes as nat
                    &&& low.mean == (self.params.min_connections + self.params.max_connections) / 2
                },
                Ok(_) => !self.too_few(reported@) && self.average_above_mean(reported@),
            },
    {
        if !self.has_enough_connections(reported) {
            return Err(LowConnectivity::TooFewAboveMinimum);
        }
        let connections: Vec<usize> = self.connections_per_peer(reported);
        let ghost numbers = as_nats(connections@);
        let mut sum: u128 = 0;
        for i in 0..connections.len()
            invariant
                numbers == as_nats(connections@),
                sum == total(numbers.take(i as int)),
                sum <= i * usize::MAX,
        {
            let number: usize = connections[i];
            assert(numbers.take(i + 1).drop_last() =~= numbers.take(i as int));
            assert(numbers.take(i + 1).last() == number);
            assert((i + 1) * usize::MAX == i * usize::MAX + usize::MAX) by (nonlinear_arith);
            assert((i + 1) * usize::MAX <= usize::MAX * usize::MAX) by (nonlinear_arith)
                requires
                    i + 1 <= usize::MAX,
            ;
            assert(usize::MAX * usize::MAX <= u64::MAX * u64::MAX) by (nonlinear_arith)
                requires
                    usize::MAX <= u64::MAX,
            ;
            sum = sum + number as u128;
        }
        assert(numbers.take(numbers.len() as int) =~= numbers);
        let min: usize = self.params.min_connections;
        let spread: usize = self.params.max_connections - min;
        let mean: usize = spread / 2 + min;
        let nodes: u128 = self.number_of_nodes as u128;
        let average: u128 = sum / nodes;
        let rest: u128 = sum % nodes;
        proof {
            lemma_average_is_low(
                sum as int,
                nodes as int,
                min as int,
                self.params.max_connections as int,
            );
        }
        if average < mean as u128 || (average == mean as u128 && (if spread % 2 == 0 {
            rest == 0
        } else {
            2 * rest <= nodes
        })) {
            Err(LowConnectivity::LowAverage(ConnectionAverage { average, mean }))
        } else {
            Ok(())
        }
    }
}

/// An average that is at most the mean of two bounds, by its whole part and its rest.
proof fn lemma_average_is_low(sum: int, n: int, min: int, max: int)
    requires
        sum >= 0,
        n > 0,
        0 <= min <= max,
    ensures
        ({
            let mean = (max - min) / 2 + min;
            &&& mean == (min + max) / 2
            &&& 2 * sum <= (min + max) * n <==> {
                ||| sum / n < mean
                ||| sum / n == mean && if (max - min) % 2 == 0 {
                    sum % n == 0
                } else {
                    2 * (sum % n) <= n
                }
            }
        }),
{
    let mean = (max - min) / 2 + min;
    let half = (max - min) % 2;
    let q = sum / n;
    let r = sum % n;
    assert(sum == q * n + r && 0 <= r < n) by (nonlinear_arith)
        requires
            n > 0,
            q == sum / n,
            r == sum % n,
    ;
    assert((min + max) * n == 2 * (mean * n) + half * n) by (nonlinear_arith)
        requires
            min + max == 2 * mean + half,
    ;
    assert(half * n == if half == 0 {
        0
    } else {
        n
    }) by (nonlinear_arith)
        requires
            half == 0 || half == 1,
    ;
    if q < mean {
        assert(q * n + n <= mean * n) by (nonlinear_arith)
            requires
                q + 1 <= mean,
                n > 0,
        ;
    } else if q > mean {
        assert(mean * n + n <= q * n) by (nonlinear_arith)
            requires
                mean + 1 <= q,
                n > 0,
        ;
    }
}

/// How many of these numbers are above `bound`.
pub open spec fn count_above(numbers: Seq<nat>, bound: nat) -> nat
    decreases numbers.len(),
{
    if numbers.len() == 0 {
        0
    } else {
        count_above(numbers.drop_last(), bound) + if numbers.last() > bound {
            1nat
        } else {
            0nat
        }
    }
}

proof fn lemma_counts_add_up(numbers: Seq<nat>, bound: nat)
    ensures
        count_up_to(numbers, bound) + count_above(numbers, bound) == numbers.len(),
    decreases numbers.len(),
{
    if numbers.len() > 0 {
        lemma_counts_add_up(numbers.drop_last(), bound);
    }
}

/// The connectivity is high enough exactly where at least half of the nodes have more than the
/// minimum of connections.
pub proof fn law_half_have_more_than_minimum(connections: Seq<nat>, min_connections: nat)
    ensures
        count_up_to(connections, min_connections) <= connections.len() / 2 <==> 2 * count_above(
            connections,
            min_connections,
        ) >= connections.len(),
{
    lemma_counts_add_up(connections, min_connections);
}

proof fn lemma_degree_bound(
    labels: Seq<(NodeLabel, TransportPublicKey)>,
    links: Seq<(PeerId, Distance)>,
)
    ensures
        link_map(labels, links).dom().finite(),
        link_map(labels, links).dom().len() <= links.len(),
    decreases links.len(),
{
    if links.len() > 0 {
        lemma_degree_bound(labels, links.drop_last());
    }
}

/// A node has at most as many connections as the listener knows links of it: several links to one
/// peer count once.
pub proof fn law_links_to_one_peer_count_once(
    labels: Seq<(NodeLabel, TransportPublicKey)>,
    links: Seq<(PeerId, Distance)>,
    link: (PeerId, Distance),
)
    ensures
        link_map(labels, links).dom().len() <= links.len(),
        link_map(labels, links.push(link).push(link)) == link_map(labels, links.push(link)),
{
    lemma_degree_bound(labels, links);
    let once = links.push(link);
    let twice = once.push(link);
    assert(once.drop_last() =~= links);
    assert(twice.drop_last() =~= once);
    let label = label_of(labels, link.0.pub_key);
    assert(link_map(labels, once) =~= link_map(labels, links).insert(label, link.1));
    assert(link_map(labels, twice) =~= link_map(labels, once).insert(label, link.1));
    assert(link_map(labels, twice) =~= link_map(labels, once));
}

} // verus!
