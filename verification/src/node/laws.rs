//! What holds of a simulated network, stated over its peers and their links.
use std::collections::HashSet;

use vstd::prelude::*;

use crate::node::config::config_args;
use crate::node::config::Builder;
use crate::node::config::ConfigArgs;
use crate::node::config::GatewayConfig;
use crate::node::config::GatewayDraw;
use crate::node::config::InitPeerNode;
use crate::node::config::ListenerIp;
use crate::node::config::NodeDraw;
use crate::node::config::OperationMode;
use crate::node::config::RingParams;
use crate::node::connectivity::Links;
use crate::node::connectivity::LowConnectivity;
use crate::node::label::NodeLabel;
use crate::node::label_map::LabelMap;
use crate::node::peer::Distance;
use crate::node::peer::PeerId;
use crate::node::peer::TransportPublicKey;
use crate::node::reachability::DisconnectedNodes;
use crate::node::sim_network::PeerStart;
use crate::node::sim_network::RandomEvents;
use crate::node::sim_network::SimNetwork;
use crate::node::sim_network::START_BACKOFF;
use crate::transport::message::PeerAddr;

verus! {

use crate::node::config::gateway_id;
use crate::node::config::gateway_info;
use crate::node::config::gateway_infos;
use crate::node::config::handler_name;
use crate::node::config::known_gateways;
use crate::node::config::local_addr;
use crate::node::config::without;
use crate::node::connectivity::as_nats;
use crate::node::connectivity::count_above;
use crate::node::connectivity::count_up_to;
use crate::node::connectivity::degrees;
use crate::node::connectivity::is_connectivity;
use crate::node::connectivity::is_entry_of;
use crate::node::connectivity::is_last_of_label;
use crate::node::connectivity::is_listed;
use crate::node::connectivity::label_of;
use crate::node::connectivity::link_map;
use crate::node::connectivity::total;
use crate::node::label::gateway_text;
use crate::node::label::law_gateway_label_reads_back;
use crate::node::label::law_node_label_reads_back;
use crate::node::label::node_text;
use crate::node::order::is_stable_sort;
use crate::node::order::law_sorting_is_stable_and_keeps_numbers;
use crate::node::reachability::law_missing_are_all_but_the_connected;
use crate::node::sim_network::are_keys_of;
use crate::node::sim_network::configs_of;
use crate::node::sim_network::is_gateway_entry;
use crate::node::sim_network::is_listing;
use crate::node::sim_network::is_node_entry;
use crate::node::sim_network::waiting_gateways;
use crate::node::sim_network::with_noise_added;
use crate::text::has_prefix;
use crate::text::text_le;

/// The label of a key is that of the last listed peer that has it.
pub proof fn law_label_is_that_of_the_last_peer_with_the_key(
    labels: Seq<(NodeLabel, TransportPublicKey)>,
    i: int,
)
    requires
        0 <= i < labels.len(),
        forall|j: int| i < j < labels.len() ==> (#[trigger] labels[j]).1 != labels[i].1,
    ensures
        label_of(labels, labels[i].1) == labels[i].0@,
    decreases labels.len(),
{
    if i < labels.len() - 1 {
        let front = labels.drop_last();
        assert(labels.last().1 != labels[i].1);
        assert forall|j: int| i < j < front.len() implies (#[trigger] front[j]).1 != front[i].1 by {
            assert(front[j] == labels[j]);
        }
        law_label_is_that_of_the_last_peer_with_the_key(front, i);
    }
}

/// The peers that links lead to are just those that have the key of one of them, gateways and
/// regular nodes alike, and each has the distance of the last link to it.
pub proof fn law_links_lead_to_every_peer_they_name(
    labels: Seq<(NodeLabel, TransportPublicKey)>,
    links: Seq<(PeerId, Distance)>,
)
    ensures
        forall|k: int|
            0 <= k < links.len() ==> link_map(labels, links).contains_key(
                label_of(labels, (#[trigger] links[k]).0.pub_key),
            ),
        forall|text: Seq<char>| #[trigger]
            link_map(labels, links).contains_key(text) ==> exists|k: int|
                0 <= k < links.len() && label_of(labels, (#[trigger] links[k]).0.pub_key) == text,
        forall|k: int|
            0 <= k < links.len() && (forall|l: int|
                k < l < links.len() ==> label_of(labels, (#[trigger] links[l]).0.pub_key)
                    != label_of(labels, links[k].0.pub_key)) ==> link_map(labels, links)[label_of(
                labels,
                (#[trigger] links[k]).0.pub_key,
            )] == links[k].1,
    decreases links.len(),
{
    if links.len() > 0 {
        let front = links.drop_last();
        let last = label_of(labels, links.last().0.pub_key);
        let map = link_map(labels, links);
        law_links_lead_to_every_peer_they_name(labels, front);
        assert forall|k: int| 0 <= k < links.len() implies map.contains_key(
            label_of(labels, (#[trigger] links[k]).0.pub_key),
        ) by {
            if k < front.len() {
                assert(front[k] == links[k]);
            }
        }
        assert forall|text: Seq<char>| #[trigger] map.contains_key(text) implies exists|k: int|
            0 <= k < links.len() && label_of(labels, (#[trigger] links[k]).0.pub_key) == text by {
            if text == last {
                assert(label_of(labels, links[links.len() - 1].0.pub_key) == text);
            } else {
                assert(link_map(labels, front).contains_key(text));
                let k = choose|k: int|
                    0 <= k < front.len() && label_of(labels, (#[trigger] front[k]).0.pub_key)
                        == text;
                assert(links[k] == front[k]);
            }
        }
        assert forall|k: int|
            0 <= k < links.len() && (forall|l: int|
                k < l < links.len() ==> label_of(labels, (#[trigger] links[l]).0.pub_key)
                    != label_of(labels, links[k].0.pub_key)) implies map[label_of(
            labels,
            (#[trigger] links[k]).0.pub_key,
        )] == links[k].1 by {
            if k < front.len() {
                assert(links[links.len() - 1].0.pub_key == links.last().0.pub_key);
                assert(label_of(labels, links[links.len() - 1].0.pub_key) != label_of(
                    labels,
                    links[k].0.pub_key,
                ));
                assert forall|l: int| k < l < front.len() implies label_of(
                    labels,
                    (#[trigger] front[l]).0.pub_key,
                ) != label_of(labels, front[k].0.pub_key) by {
                    assert(front[l] == links[l]);
                }
                assert(front[k] == links[k]);
            }
        }
    }
}

/// The connectivity has one entry per label, that of the last peer with this label: its key and
/// the peers that the links reported of it lead to.
pub proof fn law_connectivity_has_what_was_reported(
    labels: Seq<(NodeLabel, TransportPublicKey)>,
    reported: Seq<Links>,
    found: Map<Seq<char>, (TransportPublicKey, LabelMap<Distance>)>,
)
    requires
        is_connectivity(labels, reported, labels.len() as int, found),
    ensures
        forall|i: int|
            0 <= i < labels.len() ==> found.contains_key((#[trigger] labels[i]).0@),
        forall|text: Seq<char>| #[trigger]
            found.contains_key(text) ==> exists|i: int|
                0 <= i < labels.len() && (#[trigger] labels[i]).0@ == text,
        forall|i: int| #![trigger labels[i]]
            0 <= i < labels.len() && (forall|j: int|
                i < j < labels.len() ==> (#[trigger] labels[j]).0@ != labels[i].0@) ==> {
                &&& found[labels[i].0@].0 == labels[i].1
                &&& found[labels[i].0@].1@ == link_map(labels, reported[i]@)
            },
{
    let all = labels.take(labels.len() as int);
    assert(all =~= labels);
    assert forall|i: int| 0 <= i < labels.len() implies found.contains_key(
        (#[trigger] labels[i]).0@,
    ) by {
        assert(is_listed(all, labels[i].0@));
        assert(found.dom().contains(labels[i].0@));
    }
    assert forall|text: Seq<char>| #[trigger] found.contains_key(text) implies exists|i: int|
        0 <= i < labels.len() && (#[trigger] labels[i]).0@ == text by {
        assert(found.dom().contains(text));
        assert(is_listed(all, text));
    }
    assert forall|i: int| #![trigger labels[i]]
        0 <= i < labels.len() && (forall|j: int|
            i < j < labels.len() ==> (#[trigger] labels[j]).0@ != labels[i].0@) implies {
        &&& found[labels[i].0@].0 == labels[i].1
        &&& found[labels[i].0@].1@ == link_map(labels, reported[i]@)
    } by {
        assert(is_last_of_label(all, i));
        assert(is_entry_of(labels, reported, i, found[labels[i].0@]));
    }
}

proof fn lemma_degrees(
    labels: Seq<(NodeLabel, TransportPublicKey)>,
    reported: Seq<Links>,
    n: nat,
) -> (nodes: Seq<int>)
    requires
        n <= labels.len(),
    ensures
        nodes.len() == degrees(labels, reported, n).len(),
        forall|k: int, l: int|
            0 <= k < l < nodes.len() ==> (#[trigger] nodes[k]) < (#[trigger] nodes[l]),
        forall|k: int| #![trigger nodes[k]]
            0 <= k < nodes.len() ==> {
                &&& 0 <= nodes[k] < n
                &&& is_last_of_label(labels, nodes[k])
                &&& !has_prefix(labels[nodes[k]].0@, "gateway"@)
                &&& degrees(labels, reported, n)[k] == link_map(
                    labels,
                    reported[nodes[k]]@,
                ).dom().len()
            },
        forall|i: int|
            0 <= i < n && is_last_of_label(labels, i) && !has_prefix(
                (#[trigger] labels[i]).0@,
                "gateway"@,
            ) ==> nodes.contains(i),
    decreases n,
{
    if n == 0 {
        Seq::empty()
    } else {
        let before = lemma_degrees(labels, reported, (n - 1) as nat);
        if is_last_of_label(labels, n - 1) && !has_prefix(labels[n - 1].0@, "gateway"@) {
            let nodes = before.push(n - 1);
            assert forall|i: int|
                0 <= i < n && is_last_of_label(labels, i) && !has_prefix(
                    (#[trigger] labels[i]).0@,
                    "gateway"@,
                ) implies nodes.contains(i) by {
                if i < n - 1 {
                    assert(before.contains(i));
                    let k = choose|k: int| 0 <= k < before.len() && before[k] == i;
                    assert(nodes[k] == i);
                } else {
                    assert(nodes[before.len() as int] == i);
                }
            }
            nodes
        } else {
            before
        }
    }
}

/// The connections that the quality check counts: one number for each regular node in the order
/// in which the peers are listed, and this number is how many different peers, gateways and
/// regular nodes alike, the entry of the node in the connectivity has. The result lists the
/// positions of these nodes.
pub proof fn law_degrees_are_the_sizes_of_the_entries<S, ER>(
    network: SimNetwork<S, ER>,
    reported: Seq<Links>,
    found: Map<Seq<char>, (TransportPublicKey, LabelMap<Distance>)>,
) -> (nodes: Seq<int>)
    requires
        is_connectivity(network.labels@, reported, network.labels@.len() as int, found),
    ensures
        ({
            let labels = network.labels@;
            let numbers = network.node_degrees(reported);
            &&& numbers == degrees(labels, reported, labels.len())
            &&& nodes.len() == numbers.len()
            &&& forall|k: int, l: int|
                0 <= k < l < nodes.len() ==> (#[trigger] nodes[k]) < (#[trigger] nodes[l])
            &&& forall|k: int| #![trigger nodes[k]]
                0 <= k < nodes.len() ==> {
                    &&& 0 <= nodes[k] < labels.len()
                    &&& forall|j: int|
                        nodes[k] < j < labels.len() ==> (#[trigger] labels[j]).0@
                            != labels[nodes[k]].0@
                    &&& !has_prefix(labels[nodes[k]].0@, "gateway"@)
                    &&& numbers[k] == found[labels[nodes[k]].0@].1@.dom().len()
                }
            &&& forall|i: int| #![trigger labels[i]]
                0 <= i < labels.len() && (forall|j: int|
                    i < j < labels.len() ==> (#[trigger] labels[j]).0@ != labels[i].0@)
                    && !has_prefix(labels[i].0@, "gateway"@) ==> nodes.contains(i)
        }),
{
    let labels = network.labels@;
    law_connectivity_has_what_was_reported(labels, reported, found);
    let nodes = lemma_degrees(labels, reported, labels.len());
    assert forall|k: int| #![trigger nodes[k]] 0 <= k < nodes.len() implies network.node_degrees(
        reported,
    )[k] == found[labels[nodes[k]].0@].1@.dom().len() by {
        let i = nodes[k];
        assert(is_last_of_label(labels, i));
        assert(found[labels[i].0@].1@ == link_map(labels, reported[i]@));
    }
    assert forall|i: int| #![trigger labels[i]]
        0 <= i < labels.len() && (forall|j: int|
            i < j < labels.len() ==> (#[trigger] labels[j]).0@ != labels[i].0@) && !has_prefix(
            labels[i].0@,
            "gateway"@,
        ) implies nodes.contains(i) by {
        assert(is_last_of_label(labels, i));
    }
    nodes
}

/// Numbers are counted one by one: each adds one to the number of those up to the bound or to that
/// of those above it, and itself to the sum.
pub proof fn law_counts_and_sums_add_up(left: Seq<nat>, right: Seq<nat>, number: nat, bound: nat)
    ensures
        total(left + right) == total(left) + total(right),
        total(seq![number]) == number,
        count_up_to(left + right, bound) == count_up_to(left, bound) + count_up_to(right, bound),
        count_up_to(seq![number], bound) == if number <= bound {
            1nat
        } else {
            0nat
        },
        count_above(left + right, bound) == count_above(left, bound) + count_above(right, bound),
        count_above(seq![number], bound) == if number > bound {
            1nat
        } else {
            0nat
        },
    decreases right.len(),
{
    reveal_with_fuel(total, 2);
    reveal_with_fuel(count_up_to, 2);
    reveal_with_fuel(count_above, 2);
    let one = seq![number];
    assert(one.drop_last() =~= Seq::<nat>::empty());
    assert(one.last() == number);
    if right.len() == 0 {
        assert(left + right =~= left);
    } else {
        law_counts_and_sums_add_up(left, right.drop_last(), number, bound);
        assert((left + right).drop_last() =~= left + right.drop_last());
        assert((left + right).last() == right.last());
    }
}

/// A network is badly connected exactly where more than half of its nodes have no more than the
/// minimum of connections, and well connected on average exactly where twice the sum of all
/// connections is above what the minimum and the maximum together make for every node.
pub proof fn law_what_good_connectivity_is<S, ER>(network: SimNetwork<S, ER>, reported: Seq<Links>)
    ensures
        ({
            let numbers = degrees(network.labels@, reported, network.labels@.len());
            let min = network.params.min_connections as nat;
            let max = network.params.max_connections as nat;
            let nodes = network.number_of_nodes as nat;
            &&& network.too_few(reported) <==> 2 * numbers.filter(|n: nat| n <= min).len() > nodes
            &&& network.average_above_mean(reported) <==> 2 * total(numbers) > (min + max) * nodes
        }),
{
    lemma_count_is_filter(
        degrees(network.labels@, reported, network.labels@.len()),
        network.params.min_connections as nat,
    );
}

proof fn lemma_count_is_filter(numbers: Seq<nat>, bound: nat)
    ensures
        count_up_to(numbers, bound) == numbers.filter(|n: nat| n <= bound).len(),
    decreases numbers.len(),
{
    reveal(Seq::filter);
    if numbers.len() > 0 {
        lemma_count_is_filter(numbers.drop_last(), bound);
    }
}

/// Numbers stay the same numbers without the bound of their type.
pub proof fn law_numbers_stay_the_same(numbers: Seq<usize>, i: int)
    ensures
        as_nats(numbers).len() == numbers.len(),
        0 <= i < numbers.len() ==> as_nats(numbers)[i] == numbers[i],
{
}

/// A configuration has the identity, the ports, the keys and the numbers that were found out for a
/// gateway or fixed for the network, and the first gateway waits for others to connect.
pub proof fn law_configuration_of_a_gateway<ER>(
    e: (Builder<ER>, GatewayConfig),
    draws: Seq<GatewayDraw<ER>>,
    i: int,
    name: Seq<char>,
    add_noise: bool,
    params: RingParams,
)
    requires
        0 <= i < draws.len(),
        is_gateway_entry(e, draws, i, name, add_noise, params),
    ensures
        ({
            let d = draws[i];
            let id = PeerId {
                addr: PeerAddr::V6 { ipv6: 1, port: d.port, flowinfo: 0, scope_id: 0 },
                pub_key: d.key_pair.public,
            };
            &&& e.1.label@ == gateway_text(i as nat)
            &&& e.1.id == id
            &&& e.1.location == d.location
            &&& e.0.contract_handler_name@ == name + "-"@ + gateway_text(i as nat)
            &&& e.0.add_noise == add_noise
            &&& e.0.event_register == d.register
            &&& e.0.contracts@.len() == 0
            &&& e.0.contract_subscribers@.len() == 0
            &&& e.0.config.should_connect == (i > 0 && d.config.should_connect)
            &&& e.0.config.is_gateway
            &&& e.0.config.key_pair == d.key_pair
            &&& e.0.config.network_listener_ip == ListenerIp::V6(1)
            &&& e.0.config.network_listener_port == d.port
            &&& e.0.config.peer_id == Some(id)
            &&& e.0.config.location == Some(d.location)
            &&& e.0.config.max_hops_to_live == Some(params.ring_max_htl)
            &&& e.0.config.rnd_if_htl_above == Some(params.rnd_if_htl_above)
            &&& e.0.config.max_number_conn == Some(params.max_connections)
            &&& e.0.config.min_number_conn == Some(params.min_connections)
        }),
{
}

/// A gateway knows the gateways that it knew of before and behind them all other ones of the
/// network, in their order.
pub proof fn law_gateways_that_a_gateway_knows<ER>(
    e: (Builder<ER>, GatewayConfig),
    draws: Seq<GatewayDraw<ER>>,
    i: int,
    name: Seq<char>,
    add_noise: bool,
    params: RingParams,
)
    requires
        0 <= i < draws.len(),
        is_gateway_entry(e, draws, i, name, add_noise, params),
    ensures
        ({
            let known = e.0.config.gateways@;
            let before = draws[i].config.gateways@;
            &&& known.len() == before.len() + draws.len() - 1
            &&& forall|k: int| 0 <= k < before.len() ==> #[trigger] known[k] == before[k]
            &&& forall|j: int| #![trigger draws[j]]
                0 <= j < draws.len() && j != i ==> known[before.len() + if j < i {
                    j
                } else {
                    j - 1
                }] == (InitPeerNode {
                    peer: PeerId {
                        addr: PeerAddr::V6 {
                            ipv6: 1,
                            port: draws[j].port,
                            flowinfo: 0,
                            scope_id: 0,
                        },
                        pub_key: draws[j].key_pair.public,
                    },
                    location: draws[j].location,
                })
        }),
{
    let infos = gateway_infos(draws);
    let others = without(infos, i);
    assert forall|j: int| #![trigger draws[j]] 0 <= j < draws.len() && j != i implies others[if j
        < i {
        j
    } else {
        j - 1
    }] == gateway_info(draws[j]) by {}
}

/// A regular node has the port, the keys and the numbers that were found out for it or fixed for
/// the network, and knows the gateways that it knew of before and behind them all of the network.
/// Whether it is a gateway, connects by itself, who it is, where it is and how many connections it
/// tries to have stay as they were.
pub proof fn law_configuration_of_a_node<ER>(
    e: (Builder<ER>, NodeLabel),
    d: NodeDraw<ER>,
    number: nat,
    gateways: Seq<InitPeerNode>,
    name: Seq<char>,
    add_noise: bool,
    params: RingParams,
)
    requires
        is_node_entry(e, d, number, gateways, name, add_noise, params),
    ensures
        e.1@ == node_text(number),
        e.0.contract_handler_name@ == name + "-"@ + node_text(number),
        e.0.add_noise == add_noise,
        e.0.event_register == d.register,
        e.0.contracts@.len() == 0,
        e.0.contract_subscribers@.len() == 0,
        e.0.config.should_connect == d.config.should_connect,
        e.0.config.is_gateway == d.config.is_gateway,
        e.0.config.key_pair == d.key_pair,
        e.0.config.network_listener_ip == ListenerIp::V6(1),
        e.0.config.network_listener_port == d.port,
        e.0.config.peer_id == d.config.peer_id,
        e.0.config.location == d.config.location,
        e.0.config.max_hops_to_live == Some(params.ring_max_htl),
        e.0.config.rnd_if_htl_above == Some(params.rnd_if_htl_above),
        e.0.config.max_number_conn == Some(params.max_connections),
        e.0.config.min_number_conn == d.config.min_number_conn,
        e.0.config.gateways@.len() == d.config.gateways@.len() + gateways.len(),
        forall|k: int|
            0 <= k < d.config.gateways@.len() ==> #[trigger] e.0.config.gateways@[k]
                == d.config.gateways@[k],
        forall|k: int|
            0 <= k < gateways.len() ==> e.0.config.gateways@[d.config.gateways@.len() + k]
                == #[trigger] gateways[k],
{
}

/// What is known of gateways is the identity and the place of each of them, in their order.
pub proof fn law_what_is_known_of_gateways<ER>(
    waiting: Seq<(Builder<ER>, GatewayConfig)>,
    gateways: Seq<GatewayConfig>,
    draws: Seq<GatewayDraw<ER>>,
    k: int,
)
    ensures
        waiting_gateways(waiting).len() == waiting.len(),
        0 <= k < waiting.len() ==> waiting_gateways(waiting)[k] == (InitPeerNode {
            peer: waiting[k].1.id,
            location: waiting[k].1.location,
        }),
        known_gateways(gateways).len() == gateways.len(),
        0 <= k < gateways.len() ==> known_gateways(gateways)[k] == (InitPeerNode {
            peer: gateways[k].id,
            location: gateways[k].location,
        }),
        gateway_infos(draws).len() == draws.len(),
        0 <= k < draws.len() ==> gateway_infos(draws)[k] == (InitPeerNode {
            peer: PeerId {
                addr: PeerAddr::V6 { ipv6: 1, port: draws[k].port, flowinfo: 0, scope_id: 0 },
                pub_key: draws[k].key_pair.public,
            },
            location: draws[k].location,
        }),
{
}

/// The parts of which configurations are made: the address of this machine, all items but one,
/// and the name of a contract handler.
pub proof fn law_parts_of_configurations<ER, A>(
    port: u16,
    items: Seq<A>,
    i: int,
    name: Seq<char>,
    label: Seq<char>,
    d: GatewayDraw<ER>,
)
    ensures
        local_addr(port) == (PeerAddr::V6 { ipv6: 1, port, flowinfo: 0, scope_id: 0 }),
        gateway_id(d).addr == (PeerAddr::V6 { ipv6: 1, port: d.port, flowinfo: 0, scope_id: 0 }),
        gateway_id(d).pub_key == d.key_pair.public,
        handler_name(name, label) == name + "-"@ + label,
        0 <= i < items.len() ==> {
            &&& without(items, i).len() == items.len() - 1
            &&& forall|k: int|
                0 <= k < items.len() - 1 ==> #[trigger] without(items, i)[k] == items[if k < i {
                    k
                } else {
                    k + 1
                }]
        },
{
}

/// The peers that wait are all gateways and behind them all regular nodes, each with its label, in
/// the order in which they were configured; what is built of them has their labels and
/// configurations in the same order.
pub proof fn law_gateways_wait_before_nodes<S, ER>(
    network: SimNetwork<S, ER>,
    peers: Seq<(NodeLabel, Builder<ER>)>,
    k: int,
)
    ensures
        ({
            let gateways = network.gateways@;
            let nodes = network.nodes@;
            &&& network.waiting().len() == gateways.len() + nodes.len()
            &&& 0 <= k < gateways.len() ==> {
                &&& network.waiting()[k].0 == gateways[k].1.label
                &&& network.waiting()[k].1 == gateways[k].0
            }
            &&& gateways.len() <= k < gateways.len() + nodes.len() ==> {
                &&& network.waiting()[k].0 == nodes[k - gateways.len()].1
                &&& network.waiting()[k].1 == nodes[k - gateways.len()].0
            }
            &&& configs_of(peers).len() == peers.len()
            &&& 0 <= k < peers.len() ==> {
                &&& configs_of(peers)[k].0 == peers[k].0
                &&& configs_of(peers)[k].1 == peers[k].1.config
            }
        }),
{
}

/// A peer is started under its label and with its number, as the kind of peer that its label says,
/// together with all peers that are started, and with the random events that were asked for.
pub proof fn law_peers_are_started_as_what_they_are<ER>(
    start: PeerStart<ER>,
    peer: (NodeLabel, Builder<ER>),
    total: nat,
    random: RandomEvents,
    n: nat,
)
    requires
        start.is_start_of(peer, total, random),
        n <= usize::MAX,
    ensures
        start.label == peer.0,
        start.builder == peer.1,
        start.total_peer_num == total,
        start.random.seed == random.seed,
        start.random.max_contract_num == random.max_contract_num,
        start.random.iterations == random.iterations,
        peer.0@ == gateway_text(n) ==> start.is_gateway && start.number == n,
        peer.0@ == node_text(n) ==> !start.is_gateway && start.number == n,
{
    law_gateway_label_reads_back(n);
    law_node_label_reads_back(n);
}

/// Noise changes nothing of a peer but whether messages to it are delayed and reordered.
pub proof fn law_noise_changes_nothing_else<ER>(builder: Builder<ER>)
    ensures
        ({
            let noisy = with_noise_added(builder);
            &&& noisy.add_noise
            &&& noisy.config == builder.config
            &&& noisy.contract_handler_name == builder.contract_handler_name
            &&& noisy.event_register == builder.event_register
            &&& noisy.contracts == builder.contracts
            &&& noisy.contract_subscribers == builder.contract_subscribers
        }),
{
}

/// Networks with the same settings agree in everything but their peers.
pub proof fn law_settings_are_all_but_the_peers<S, ER>(
    network: SimNetwork<S, ER>,
    other: SimNetwork<S, ER>,
)
    requires
        network.same_settings(other),
    ensures
        network == (SimNetwork {
            labels: network.labels,
            announced: network.announced,
            gateways: network.gateways,
            nodes: network.nodes,
            ..other
        }),
        START_BACKOFF == 1_000_000,
{
}

/// Listing peers adds each of them once, under its label and with its key, to what was listed and
/// keeps all of it, in the order of the labels. What has the same label stays in order, what was
/// listed before first. The result is what is added.
pub proof fn law_listing_adds_every_peer<ER>(
    before: Seq<(NodeLabel, TransportPublicKey)>,
    peers: Seq<(NodeLabel, Builder<ER>)>,
    after: Seq<(NodeLabel, TransportPublicKey)>,
    label: Seq<char>,
) -> (added: Seq<(NodeLabel, TransportPublicKey)>)
    requires
        is_listing(before, peers, after),
    ensures
        added.len() == peers.len(),
        forall|i: int| #![trigger added[i]]
            0 <= i < peers.len() ==> added[i].0@ == peers[i].0@ && added[i].1
                == peers[i].1.config.key_pair.public,
        after.len() == before.len() + peers.len(),
        after.to_multiset() == (before + added).to_multiset(),
        after.filter(|e: (NodeLabel, TransportPublicKey)| e.0@ == label) == (before + added).filter(
            |e: (NodeLabel, TransportPublicKey)| e.0@ == label,
        ),
        forall|i: int, j: int| #![trigger after[i], after[j]]
            0 <= i <= j < after.len() ==> text_le(after[i].0@, after[j].0@),
{
    let added = choose|added: Seq<(NodeLabel, TransportPublicKey)>| #[trigger]
        are_keys_of(added, peers) && is_stable_sort(before + added, after);
    law_sorting_is_stable_and_keeps_numbers(before + added, after, label);
    added
}

/// More connections are waited for exactly while there is time left and fewer than the share of
/// the regular nodes, in millionths, are connected.
pub proof fn law_when_connections_are_waited_for<S, ER>(
    network: SimNetwork<S, ER>,
    connected: HashSet<usize>,
    share: u32,
    elapsed: u128,
    time_out: u128,
    r: bool,
)
    requires
        call_ensures(
            SimNetwork::<S, ER>::is_waiting,
            (&network, &connected, share, elapsed, time_out),
            r,
        ),
    ensures
        r <==> elapsed < time_out && connected@.len() * 1_000_000 < network.number_of_nodes * share,
{
}

/// The check of a share fails exactly where fewer than that of the regular nodes, in millionths,
/// are connected, and the check of all nodes where one is missing. Both name the missing nodes.
pub proof fn law_checks_fail_for_want_of_connections<S, ER>(
    network: SimNetwork<S, ER>,
    connected: HashSet<usize>,
    share: u32,
    part: Result<(), DisconnectedNodes>,
    all: Result<(), DisconnectedNodes>,
)
    requires
        network.wf(),
        connected@.finite(),
        call_ensures(
            SimNetwork::<S, ER>::check_partial_connectivity,
            (&network, &connected, share),
            part,
        ) || call_ensures(
            SimNetwork::<S, ER>::connectivity,
            (&network, &connected, share),
            part,
        ),
        call_ensures(SimNetwork::<S, ER>::check_connectivity, (&network, &connected), all),
    ensures
        ({
            let first = network.number_of_gateways;
            let nodes = network.number_of_nodes;
            &&& part is Err <==> connected@.filter(|k: usize| first <= k < first + nodes).len()
                * 1_000_000 < nodes * share
            &&& all is Ok <==> connected@.filter(|k: usize| first <= k < first + nodes).len()
                == nodes
            &&& part is Err ==> network.are_missing(connected@, part->Err_0.missing@)
            &&& all is Err ==> network.are_missing(connected@, all->Err_0.missing@)
        }),
{
    law_missing_are_all_but_the_connected(network, connected@, 0);
}

/// The quality of the connectivity is good exactly where not more than half of the nodes have no
/// more than the minimum of connections and the average number of connections of a node is above
/// the mean between minimum and maximum. Otherwise the first that fails is named, with the average
/// and the mean, both rounded down.
pub proof fn law_quality_is_what_was_counted<S, ER>(
    network: SimNetwork<S, ER>,
    reported: Vec<Links>,
    r: Result<(), LowConnectivity>,
    enough: bool,
)
    requires
        call_ensures(SimNetwork::<S, ER>::network_connectivity_quality, (&network, &reported), r),
        call_ensures(SimNetwork::<S, ER>::has_enough_connections, (&network, &reported), enough),
    ensures
        ({
            let numbers = degrees(network.labels@, reported@, network.labels@.len());
            let min = network.params.min_connections as nat;
            let max = network.params.max_connections as nat;
            let nodes = network.number_of_nodes as nat;
            let few = 2 * numbers.filter(|n: nat| n <= min).len() > nodes;
            &&& enough == !few
            &&& few <==> r == Err::<(), LowConnectivity>(LowConnectivity::TooFewAboveMinimum)
            &&& r is Ok <==> !few && 2 * total(numbers) > (min + max) * nodes
            &&& r matches Err(LowConnectivity::LowAverage(low)) ==> low.average == total(numbers)
                / nodes && low.mean == (min + max) / 2
        }),
{
    law_what_good_connectivity_is(network, reported@);
}

/// A configuration is asked for under the label of the peer, for a node that stays on its own.
pub proof fn law_configurations_are_asked_for_by_label(label: NodeLabel, r: ConfigArgs)
    requires
        call_ensures(config_args, (&label,), r),
    ensures
        r.id is Some,
        r.id->0@ == label@,
        r.mode == Some(OperationMode::Local),
{
}

/// What is asked of a label: its number, its kind, and its text.
pub proof fn law_what_labels_say(
    label: NodeLabel,
    id: usize,
    gateway: bool,
    node: bool,
    number: usize,
)
    requires
        call_ensures(NodeLabel::gateway, (id,), label) || call_ensures(NodeLabel::node, (id,), label),
        call_ensures(NodeLabel::is_gateway, (&label,), gateway),
        call_ensures(NodeLabel::is_node, (&label,), node),
        call_ensures(NodeLabel::number, (&label,), number),
    ensures
        number == id,
        gateway != node,
        gateway ==> label@ == gateway_text(id as nat),
        node ==> label@ == node_text(id as nat),
{
    law_gateway_label_reads_back(id as nat);
    law_node_label_reads_back(id as nat);
}

} // verus!
