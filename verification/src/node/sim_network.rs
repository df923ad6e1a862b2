//! A simulated network in memory: how its peers are configured, started and listed.
use vstd::prelude::*;

use crate::node::config::add_other_gateways;
use crate::node::config::configure_gateway;
use crate::node::config::configure_node;
use crate::node::config::Builder;
use crate::node::config::GatewayConfig;
use crate::node::config::GatewayDraw;
use crate::node::config::InitPeerNode;
use crate::node::config::NodeConfig;
use crate::node::config::NodeDraw;
use crate::node::config::RingParams;
use crate::node::event_chain::clean_up_tmp_dirs;
use crate::node::event_chain::EventChain;
use crate::node::label::NodeLabel;
use crate::node::order::sort_by_label;
use crate::node::peer::Location;
use crate::node::peer::TransportPublicKey;

verus! {

use crate::node::config::gateway_id;
use crate::node::config::gateway_info;
use crate::node::config::gateway_infos;
use crate::node::config::handler_name;
use crate::node::config::is_builder;
use crate::node::config::is_gateway_base;
use crate::node::config::is_gateway_config;
use crate::node::config::is_node_config;
use crate::node::config::known_gateways;
use crate::node::connectivity::is_listed;
use crate::node::event_chain::tmp_dir_text;
use crate::node::event_chain::ChainProgress;
use crate::node::label::gateway_text;
use crate::node::label::law_labels_distinct;
use crate::node::label::node_text;
use crate::node::label::number_part;
use crate::node::order::is_sorted;
use crate::node::order::is_stable_sort;
use crate::node::order::law_sorting_keeps_everything;
use crate::node::random::is_seeded;
use crate::text::has_prefix;
use crate::text::parsed;

/// How long to wait between the starts of two peers where nothing else is asked for: one
/// millisecond, in nanoseconds.
pub const START_BACKOFF: u128 = 1_000_000;

/// A simulated in-memory network topology. `S` is the controller that tells peers of events, and
/// `ER` is where peers register theirs.
pub struct SimNetwork<S, ER> {
    /// The name of the simulation.
    pub name: String,
    /// Whether the files of the peers are removed at the end.
    pub clean_up_tmp_dirs: bool,
    /// The peers that were started or built, in the order of their labels.
    pub labels: Vec<(NodeLabel, TransportPublicKey)>,
    /// The peers of which the listener was told, in this order.
    pub announced: Vec<(NodeLabel, TransportPublicKey)>,
    /// The controller, until it is taken.
    pub user_ev_controller: Option<S>,
    /// How many gateways the network has.
    pub number_of_gateways: usize,
    /// The gateways that wait to be started or built.
    pub gateways: Vec<(Builder<ER>, GatewayConfig)>,
    /// How many regular nodes the network has.
    pub number_of_nodes: usize,
    /// The regular nodes that wait to be started or built.
    pub nodes: Vec<(Builder<ER>, NodeLabel)>,
    /// How peers behave on the ring.
    pub params: RingParams,
    /// How long to wait between the starts of two peers, in nanoseconds.
    pub start_backoff: u128,
    /// Whether messages are delayed and reordered.
    pub add_noise: bool,
}

/// Whether `e` is gateway `i`, ready to be started.
pub open spec fn is_gateway_entry<ER>(
    e: (Builder<ER>, GatewayConfig),
    draws: Seq<GatewayDraw<ER>>,
    i: int,
    name: Seq<char>,
    add_noise: bool,
    params: RingParams,
) -> bool {
    &&& is_builder(e.0, name, gateway_text(i as nat), add_noise, draws[i].register)
    &&& is_gateway_config(e.0.config, draws, i, params)
    &&& e.1.label@ == gateway_text(i as nat)
    &&& e.1.id == gateway_id(draws[i])
    &&& e.1.location == draws[i].location
}

/// Whether `e` is the regular node `number`, ready to be started.
pub open spec fn is_node_entry<ER>(
    e: (Builder<ER>, NodeLabel),
    d: NodeDraw<ER>,
    number: nat,
    gateways: Seq<InitPeerNode>,
    name: Seq<char>,
    add_noise: bool,
    params: RingParams,
) -> bool {
    &&& is_builder(e.0, name, node_text(number), add_noise, d.register)
    &&& is_node_config(e.0.config, d, gateways, params)
    &&& e.1@ == node_text(number)
}

/// What other peers know of the gateways that wait to be started.
pub open spec fn waiting_gateways<ER>(gateways: Seq<(Builder<ER>, GatewayConfig)>) -> Seq<
    InitPeerNode,
> {
    known_gateways(Seq::new(gateways.len(), |i: int| gateways[i].1))
}

/// Whether `entries` are the labels and the keys of these peers.
pub open spec fn are_keys_of<ER>(
    entries: Seq<(NodeLabel, TransportPublicKey)>,
    peers: Seq<(NodeLabel, Builder<ER>)>,
) -> bool {
    &&& entries.len() == peers.len()
    &&& forall|i: int| #![trigger entries[i]]
        0 <= i < entries.len() ==> {
            &&& entries[i].0@ == peers[i].0@
            &&& entries[i].1 == peers[i].1.config.key_pair.public
        }
}

/// Whether `after` lists, in the order of the labels, what `before` lists and these peers.
pub open spec fn is_listing<ER>(
    before: Seq<(NodeLabel, TransportPublicKey)>,
    peers: Seq<(NodeLabel, Builder<ER>)>,
    after: Seq<(NodeLabel, TransportPublicKey)>,
) -> bool {
    exists|added: Seq<(NodeLabel, TransportPublicKey)>| #[trigger]
        are_keys_of(added, peers) && is_stable_sort(before + added, after)
}

/// The labels and the configurations of these peers.
pub open spec fn configs_of<ER>(peers: Seq<(NodeLabel, Builder<ER>)>) -> Seq<
    (NodeLabel, NodeConfig),
> {
    Seq::new(peers.len(), |i: int| (peers[i].0, peers[i].1.config))
}

/// What it takes to start a peer.
pub struct PeerStart<ER> {
    /// The label of the peer.
    pub label: NodeLabel,
    /// The peer.
    pub builder: Builder<ER>,
    /// The number of the peer, which tells its events from those of others.
    pub number: usize,
    /// How many peers are started together.
    pub total_peer_num: usize,
    /// Whether the peer is a gateway.
    pub is_gateway: bool,
    /// What the random events of the peer are made from.
    pub random: RandomEvents,
}

/// What the random events of peers are made from.
#[derive(Debug, Clone, Copy, PartialEq, Eq, Structural)]
pub struct RandomEvents {
    /// The seed.
    pub seed: u64,
    /// How many contracts there are at most.
    pub max_contract_num: usize,
    /// How many events are made.
    pub iterations: usize,
}

impl<ER> PeerStart<ER> {
    /// Whether this is the start of `peer`, which is started together with `total` peers in all.
    pub open spec fn is_start_of(
        self,
        peer: (NodeLabel, Builder<ER>),
        total: nat,
        random: RandomEvents,
    ) -> bool {
        &&& self.label == peer.0
        &&& self.builder == peer.1
        &&& parsed(number_part(peer.0@), usize::MAX as nat) == Some(self.number as nat)
        &&& self.total_peer_num == total
        &&& self.is_gateway == has_prefix(peer.0@, "gateway"@)
        &&& self.random == random
    }
}

/// The same peer, with messages to it delayed and reordered.
pub open spec fn with_noise_added<ER>(builder: Builder<ER>) -> Builder<ER> {
    Builder { add_noise: true, ..builder }
}

/// Has the messages to all of these peers delayed and reordered.
fn add_noise_to<ER, T>(peers: &mut Vec<(Builder<ER>, T)>)
    ensures
        final(peers)@.len() == old(peers)@.len(),
        forall|i: int| #![trigger final(peers)@[i]]
            0 <= i < old(peers)@.len() ==> final(peers)@[i] == (
                with_noise_added(old(peers)@[i].0),
                old(peers)@[i].1,
            ),
{
    let total: usize = peers.len();
    let mut i: usize = 0;
    while i < total
        invariant
            i <= total == peers@.len() == old(peers)@.len(),
            forall|k: int| #![trigger peers@[k]]
                0 <= k < i ==> peers@[k] == (
                    with_noise_added(old(peers)@[k].0),
                    old(peers)@[k].1,
                ),
            forall|k: int| i <= k < total ==> #[trigger] peers@[k] == old(peers)@[k],
        decreases total - i,
    {
        peers[i].0.add_noise = true;
        i = i + 1;
    }
}

/// The name of the contract handler of a peer.
fn contract_handler_name(name: &String, label: &NodeLabel) -> (r: String)
    ensures
        r@ == handler_name(name@, label@),
{
    let mut text: String = name.clone();
    text.append("-");
    text.append(label.as_str());
    text
}

impl<S, ER> SimNetwork<S, ER> {
    /// Whether the list of peers is in order and every peer can have a number.
    pub open spec fn wf(self) -> bool {
        &&& is_sorted(self.labels@)
        &&& self.number_of_gateways + self.number_of_nodes <= usize::MAX
    }

    /// Whether `self` and `other` agree on everything but the peers.
    pub open spec fn same_settings(self, other: Self) -> bool {
        &&& self.name == other.name
        &&& self.clean_up_tmp_dirs == other.clean_up_tmp_dirs
        &&& self.user_ev_controller == other.user_ev_controller
        &&& self.number_of_gateways == other.number_of_gateways
        &&& self.number_of_nodes == other.number_of_nodes
        &&& self.params == other.params
        &&& self.start_backoff == other.start_backoff
        &&& self.add_noise == other.add_noise
    }

    /// Sets how long to wait between the starts of two peers.
    pub fn with_start_backoff(&mut self, value: u128)
        ensures
            *final(self) == (SimNetwork { start_backoff: value, ..*old(self) }),
    {
        self.start_backoff = value;
    }

    /// Simulates network random behaviour, like messages arriving delayed or out of order,
    /// throttling etc., for the peers that wait to be started and for those that are configured
    /// later.
    pub fn with_noise(&mut self)
        ensures
            *final(self) == (SimNetwork {
                add_noise: true,
                gateways: final(self).gateways,
                nodes: final(self).nodes,
                ..*old(self)
            }),
            final(self).gateways@.len() == old(self).gateways@.len(),
            forall|i: int| #![trigger final(self).gateways@[i]]
                0 <= i < old(self).gateways@.len() ==> final(self).gateways@[i] == (
                    with_noise_added(old(self).gateways@[i].0),
                    old(self).gateways@[i].1,
                ),
            final(self).nodes@.len() == old(self).nodes@.len(),
            forall|i: int| #![trigger final(self).nodes@[i]]
                0 <= i < old(self).nodes@.len() ==> final(self).nodes@[i] == (
                    with_noise_added(old(self).nodes@[i].0),
                    old(self).nodes@[i].1,
                ),
    {
        self.add_noise = true;
        add_noise_to(&mut self.gateways);
        add_noise_to(&mut self.nodes);
    }

    /// Leaves the files of the peers in place at the end.
    pub fn debug(&mut self)
        ensures
            *final(self) == (SimNetwork { clean_up_tmp_dirs: false, ..*old(self) }),
    {
        self.clean_up_tmp_dirs = false;
    }

    /// Configures one gateway for each of `draws`. Every gateway knows all others, and the first
    /// one waits for others to connect.
    pub fn config_gateways(&mut self, draws: Vec<GatewayDraw<ER>>)
        requires
            draws@.len() > 0,
        ensures
            final(self).same_settings(*old(self)),
            final(self).labels == old(self).labels,
            final(self).nodes == old(self).nodes,
            final(self).gateways@.len() == old(self).gateways@.len() + draws@.len(),
            forall|i: int|
                0 <= i < old(self).gateways@.len() ==> #[trigger] final(self).gateways@[i]
                    == old(self).gateways@[i],
            forall|i: int|
                0 <= i < draws@.len() ==> is_gateway_entry(
                    #[trigger] final(self).gateways@[old(self).gateways@.len() + i],
                    draws@,
                    i,
                    old(self).name@,
                    old(self).add_noise,
                    old(self).params,
                ),
            final(self).announced@.len() == old(self).announced@.len() + draws@.len(),
            forall|i: int|
                0 <= i < old(self).announced@.len() ==> #[trigger] final(self).announced@[i]
                    == old(self).announced@[i],
            forall|i: int| #![trigger final(self).announced@[old(self).announced@.len() + i]]
                0 <= i < draws@.len() ==> {
                    let told = final(self).announced@[old(self).announced@.len() + i];
                    told.0@ == gateway_text(i as nat) && told.1 == draws@[i].key_pair.public
                },
    {
        let ghost all = draws@;
        let ghost announced_before = self.announced@;
        let ghost gateways_before = self.gateways@;
        let total: usize = draws.len();
        let mut rest: Vec<GatewayDraw<ER>> = draws;
        let mut configs: Vec<(NodeConfig, ER)> = Vec::new();
        let mut gateways: Vec<GatewayConfig> = Vec::new();
        let mut node_no: usize = 0;
        assert(all.skip(0) =~= all);
        while node_no < total
            invariant
                node_no <= total == all.len(),
                rest@ == all.skip(node_no as int),
                self.same_settings(*old(self)),
                self.labels == old(self).labels,
                self.nodes == old(self).nodes,
                self.gateways == old(self).gateways,
                configs@.len() == node_no,
                forall|k: int| #![trigger configs@[k]]
                    0 <= k < node_no ==> {
                        &&& is_gateway_base(configs@[k].0, all[k], k == 0, self.params)
                        &&& configs@[k].0.gateways == all[k].config.gateways
                        &&& configs@[k].1 == all[k].register
                    },
                gateways@.len() == node_no,
                forall|k: int| #![trigger gateways@[k]]
                    0 <= k < node_no ==> {
                        &&& gateways@[k].label@ == gateway_text(k as nat)
                        &&& gateways@[k].id == gateway_id(all[k])
                        &&& gateways@[k].location == all[k].location
                    },
                self.announced@.len() == announced_before.len() + node_no,
                forall|k: int|
                    0 <= k < announced_before.len() ==> #[trigger] self.announced@[k]
                        == announced_before[k],
                forall|k: int| #![trigger self.announced@[announced_before.len() + k]]
                    0 <= k < node_no ==> {
                        let told = self.announced@[announced_before.len() + k];
                        told.0@ == gateway_text(k as nat) && told.1 == all[k].key_pair.public
                    },
            decreases total - node_no,
        {
            let d: GatewayDraw<ER> = rest.remove(0);
            assert(rest@ =~= all.skip(node_no + 1));
            let label: NodeLabel = NodeLabel::gateway(node_no);
            let location: Location = d.location;
            let (config, id, register) = configure_gateway(d, node_no == 0, self.params);
            let ghost told_before = self.announced@;
            self.announced.push((label.clone(), config.key_pair.public));
            proof {
                assert forall|k: int| 0 <= k < node_no implies #[trigger] self.announced@[
                announced_before.len() + k] == told_before[announced_before.len() + k] by {}
            }
            configs.push((config, register));
            gateways.push(GatewayConfig { label, id, location });
            node_no = node_no + 1;
        }
        proof {
            assert forall|j: int, k: int| #![trigger gateways@[j], gateways@[k]]
                0 <= j < total && 0 <= k < total && j != k implies gateways@[j].label@
                != gateways@[k].label@ by {
                law_labels_distinct(j as nat, k as nat);
            }
            assert(known_gateways(gateways@) =~= gateway_infos(all));
        }
        let ghost ready = configs@;
        let ghost announced_after = self.announced;
        let mut at: usize = 0;
        assert(ready.skip(0) =~= ready);
        while at < total
            invariant
                at <= total == all.len(),
                ready.len() == total,
                configs@ == ready.skip(at as int),
                forall|k: int| #![trigger ready[k]]
                    0 <= k < total ==> {
                        &&& is_gateway_base(ready[k].0, all[k], k == 0, self.params)
                        &&& ready[k].0.gateways == all[k].config.gateways
                        &&& ready[k].1 == all[k].register
                    },
                gateways@.len() == total,
                forall|k: int| #![trigger gateways@[k]]
                    0 <= k < total ==> {
                        &&& gateways@[k].label@ == gateway_text(k as nat)
                        &&& gateways@[k].id == gateway_id(all[k])
                        &&& gateways@[k].location == all[k].location
                    },
                forall|j: int, k: int| #![trigger gateways@[j], gateways@[k]]
                    0 <= j < total && 0 <= k < total && j != k ==> gateways@[j].label@
                        != gateways@[k].label@,
                known_gateways(gateways@) == gateway_infos(all),
                self.same_settings(*old(self)),
                self.labels == old(self).labels,
                self.nodes == old(self).nodes,
                self.announced == announced_after,
                self.gateways@.len() == gateways_before.len() + at,
                forall|k: int|
                    0 <= k < gateways_before.len() ==> #[trigger] self.gateways@[k]
                        == gateways_before[k],
                forall|k: int|
                    0 <= k < at ==> is_gateway_entry(
                        #[trigger] self.gateways@[gateways_before.len() + k],
                        all,
                        k,
                        old(self).name@,
                        old(self).add_noise,
                        old(self).params,
                    ),
            decreases total - at,
        {
            let (config, register) = configs.remove(0);
            assert(ready.skip(at as int)[0] == ready[at as int]);
            assert(configs@ =~= ready.skip(at + 1));
            let this_node: NodeConfig = add_other_gateways(config, &gateways, at);
            let this_config: GatewayConfig = gateways[at].clone();
            let name: String = contract_handler_name(&self.name, &this_config.label);
            let gateway = Builder::build(this_node, register, name, self.add_noise);
            let ghost filled = self.gateways@;
            self.gateways.push((gateway, this_config));
            proof {
                assert forall|k: int| 0 <= k < at + 1 implies is_gateway_entry(
                    #[trigger] self.gateways@[gateways_before.len() + k],
                    all,
                    k,
                    old(self).name@,
                    old(self).add_noise,
                    old(self).params,
                ) by {
                    if k < at {
                        assert(self.gateways@[gateways_before.len() + k]
                            == filled[gateways_before.len() + k]);
                    }
                }
            }
            at = at + 1;
        }
    }

    /// Configures one regular node for each of `draws`. Their numbers follow those of the
    /// gateways, and every node knows all gateways.
    pub fn config_nodes(&mut self, draws: Vec<NodeDraw<ER>>)
        requires
            old(self).number_of_gateways + draws@.len() <= usize::MAX,
        ensures
            final(self).same_settings(*old(self)),
            final(self).labels == old(self).labels,
            final(self).gateways == old(self).gateways,
            final(self).nodes@.len() == old(self).nodes@.len() + draws@.len(),
            forall|i: int|
                0 <= i < old(self).nodes@.len() ==> #[trigger] final(self).nodes@[i]
                    == old(self).nodes@[i],
            forall|i: int|
                0 <= i < draws@.len() ==> is_node_entry(
                    #[trigger] final(self).nodes@[old(self).nodes@.len() + i],
                    draws@[i],
                    (old(self).number_of_gateways + i) as nat,
                    waiting_gateways(old(self).gateways@),
                    old(self).name@,
                    old(self).add_noise,
                    old(self).params,
                ),
            final(self).announced@.len() == old(self).announced@.len() + draws@.len(),
            forall|i: int|
                0 <= i < old(self).announced@.len() ==> #[trigger] final(self).announced@[i]
                    == old(self).announced@[i],
            forall|i: int| #![trigger final(self).announced@[old(self).announced@.len() + i]]
                0 <= i < draws@.len() ==> {
                    let told = final(self).announced@[old(self).announced@.len() + i];
                    &&& told.0@ == node_text((old(self).number_of_gateways + i) as nat)
                    &&& told.1 == draws@[i].key_pair.public
                },
    {
        let ghost all = draws@;
        let ghost announced_before = self.announced@;
        let ghost nodes_before = self.nodes@;
        let total: usize = draws.len();
        let mut gateways: Vec<InitPeerNode> = Vec::new();
        for i in 0..self.gateways.len()
            invariant
                gateways@ == waiting_gateways(self.gateways@).take(i as int),
        {
            let config: &GatewayConfig = &self.gateways[i].1;
            gateways.push(InitPeerNode { peer: config.id, location: config.location });
            assert(gateways@ =~= waiting_gateways(self.gateways@).take(i + 1));
        }
        assert(gateways@ =~= waiting_gateways(self.gateways@));
        let mut rest: Vec<NodeDraw<ER>> = draws;
        let mut i: usize = 0;
        assert(all.skip(0) =~= all);
        while i < total
            invariant
                i <= total == all.len(),
                rest@ == all.skip(i as int),
                self.number_of_gateways + total <= usize::MAX,
                self.same_settings(*old(self)),
                self.labels == old(self).labels,
                self.gateways == old(self).gateways,
                gateways@ == waiting_gateways(old(self).gateways@),
                self.nodes@.len() == nodes_before.len() + i,
                forall|k: int|
                    0 <= k < nodes_before.len() ==> #[trigger] self.nodes@[k] == nodes_before[k],
                forall|k: int|
                    0 <= k < i ==> is_node_entry(
                        #[trigger] self.nodes@[nodes_before.len() + k],
                        all[k],
                        (old(self).number_of_gateways + k) as nat,
                        waiting_gateways(old(self).gateways@),
                        old(self).name@,
                        old(self).add_noise,
                        old(self).params,
                    ),
                self.announced@.len() == announced_before.len() + i,
                forall|k: int|
                    0 <= k < announced_before.len() ==> #[trigger] self.announced@[k]
                        == announced_before[k],
                forall|k: int| #![trigger self.announced@[announced_before.len() + k]]
                    0 <= k < i ==> {
                        let told = self.announced@[announced_before.len() + k];
                        &&& told.0@ == node_text((old(self).number_of_gateways + k) as nat)
                        &&& told.1 == all[k].key_pair.public
                    },
            decreases total - i,
        {
            let label: NodeLabel = NodeLabel::node(self.number_of_gateways + i);
            let d: NodeDraw<ER> = rest.remove(0);
            assert(rest@ =~= all.skip(i + 1));
            let (config, register) = configure_node(d, &gateways, self.params);
            let ghost told_before = self.announced@;
            let ghost filled = self.nodes@;
            self.announced.push((label.clone(), config.key_pair.public));
            let name: String = contract_handler_name(&self.name, &label);
            let node = Builder::build(config, register, name, self.add_noise);
            self.nodes.push((node, label));
            proof {
                assert forall|k: int| 0 <= k < i implies #[trigger] self.announced@[
                announced_before.len() + k] == told_before[announced_before.len() + k] by {}
                assert forall|k: int| 0 <= k < i + 1 implies is_node_entry(
                    #[trigger] self.nodes@[nodes_before.len() + k],
                    all[k],
                    (old(self).number_of_gateways + k) as nat,
                    waiting_gateways(old(self).gateways@),
                    old(self).name@,
                    old(self).add_noise,
                    old(self).params,
                ) by {
                    if k < i {
                        assert(self.nodes@[nodes_before.len() + k]
                            == filled[nodes_before.len() + k]);
                    }
                }
            }
            i = i + 1;
        }
    }

    /// A network of which no peer was started yet. What had to be found out for its peers
    /// beforehand is handed in, as is the controller that tells them of events.
    pub fn new(
        name: &str,
        gateways: Vec<GatewayDraw<ER>>,
        nodes: Vec<NodeDraw<ER>>,
        params: RingParams,
        user_ev_controller: S,
    ) -> (r: Self)
        requires
            gateways@.len() > 0,
            nodes@.len() > 0,
            gateways@.len() + nodes@.len() <= usize::MAX,
        ensures
            r.wf(),
            r.name@ == name@,
            r.clean_up_tmp_dirs,
            r.labels@.len() == 0,
            r.user_ev_controller == Some(user_ev_controller),
            r.number_of_gateways == gateways@.len(),
            r.number_of_nodes == nodes@.len(),
            r.params == params,
            r.start_backoff == START_BACKOFF,
            !r.add_noise,
            r.gateways@.len() == gateways@.len(),
            forall|i: int|
                0 <= i < gateways@.len() ==> is_gateway_entry(
                    #[trigger] r.gateways@[i],
                    gateways@,
                    i,
                    name@,
                    false,
                    params,
                ),
            r.nodes@.len() == nodes@.len(),
            forall|i: int|
                0 <= i < nodes@.len() ==> is_node_entry(
                    #[trigger] r.nodes@[i],
                    nodes@[i],
                    (gateways@.len() + i) as nat,
                    gateway_infos(gateways@),
                    name@,
                    false,
                    params,
                ),
            r.announced@.len() == gateways@.len() + nodes@.len(),
            forall|i: int| #![trigger r.announced@[i]]
                0 <= i < r.announced@.len() ==> if i < gateways@.len() {
                    &&& r.announced@[i].0@ == gateway_text(i as nat)
                    &&& r.announced@[i].1 == gateways@[i].key_pair.public
                } else {
                    &&& r.announced@[i].0@ == node_text(i as nat)
                    &&& r.announced@[i].1 == nodes@[i - gateways@.len()].key_pair.public
                },
    {
        let mut net: SimNetwork<S, ER> = SimNetwork {
            name: name.to_string(),
            clean_up_tmp_dirs: true,
            labels: Vec::new(),
            announced: Vec::new(),
            user_ev_controller: Some(user_ev_controller),
            number_of_gateways: gateways.len(),
            gateways: Vec::new(),
            number_of_nodes: nodes.len(),
            nodes: Vec::new(),
            params,
            start_backoff: START_BACKOFF,
            add_noise: false,
        };
        let ghost gw = gateways@;
        let ghost nd = nodes@;
        net.config_gateways(gateways);
        let ghost first = net;
        proof {
            assert forall|i: int| 0 <= i < gw.len() implies is_gateway_entry(
                #[trigger] first.gateways@[i],
                gw,
                i,
                name@,
                false,
                params,
            ) by {
                assert(first.gateways@[0 + i] == first.gateways@[i]);
            }
            assert(waiting_gateways(first.gateways@) =~= gateway_infos(gw));
            assert forall|i: int| 0 <= i < gw.len() implies {
                &&& (#[trigger] first.announced@[i]).0@ == gateway_text(i as nat)
                &&& first.announced@[i].1 == gw[i].key_pair.public
            } by {
                assert(first.announced@[0 + i] == first.announced@[i]);
            }
        }
        net.config_nodes(nodes);
        proof {
            assert forall|i: int| 0 <= i < nd.len() implies is_node_entry(
                #[trigger] net.nodes@[i],
                nd[i],
                (gw.len() + i) as nat,
                gateway_infos(gw),
                name@,
                false,
                params,
            ) by {
                assert(net.nodes@[0 + i] == net.nodes@[i]);
            }
            assert forall|i: int| #![trigger net.announced@[i]]
                0 <= i < net.announced@.len() implies if i < gw.len() {
                &&& net.announced@[i].0@ == gateway_text(i as nat)
                &&& net.announced@[i].1 == gw[i].key_pair.public
            } else {
                &&& net.announced@[i].0@ == node_text(i as nat)
                &&& net.announced@[i].1 == nd[i - gw.len()].key_pair.public
            } by {
                if i < gw.len() {
                    assert(net.announced@[i] == first.announced@[i]);
                } else {
                    assert(net.announced@[gw.len() + (i - gw.len())] == net.announced@[i]);
                }
            }
        }
        net
    }

    /// The peers that wait to be started or built: first the gateways, then the regular nodes.
    pub open spec fn waiting(self) -> Seq<(NodeLabel, Builder<ER>)> {
        Seq::new(self.gateways@.len(), |i: int| (self.gateways@[i].1.label, self.gateways@[i].0))
            + Seq::new(self.nodes@.len(), |i: int| (self.nodes@[i].1, self.nodes@[i].0))
    }

    /// Takes out the peers that wait to be started or built.
    fn take_waiting(&mut self) -> (r: Vec<(NodeLabel, Builder<ER>)>)
        ensures
            r@ == old(self).waiting(),
            final(self).same_settings(*old(self)),
            final(self).labels == old(self).labels,
            final(self).announced == old(self).announced,
            final(self).gateways@.len() == 0,
            final(self).nodes@.len() == 0,
    {
        let ghost all = self.waiting();
        let mut peers: Vec<(NodeLabel, Builder<ER>)> = Vec::new();
        let mut gateways: Vec<(Builder<ER>, GatewayConfig)> = Vec::new();
        let mut nodes: Vec<(Builder<ER>, NodeLabel)> = Vec::new();
        std::mem::swap(&mut gateways, &mut self.gateways);
        std::mem::swap(&mut nodes, &mut self.nodes);
        let ghost gw = gateways@;
        let ghost nd = nodes@;
        let first: usize = gateways.len();
        let second: usize = nodes.len();
        let mut i: usize = 0;
        assert(gw.skip(0) =~= gw);
        assert(nd.skip(0) =~= nd);
        assert(peers@ =~= all.take(0));
        while i < first
            invariant
                i <= first == gw.len(),
                gateways@ == gw.skip(i as int),
                all.len() == gw.len() + nd.len(),
                forall|k: int| #![trigger gw[k]]
                    0 <= k < gw.len() ==> all[k] == (gw[k].1.label, gw[k].0),
                peers@ == all.take(i as int),
            decreases first - i,
        {
            let (builder, config) = gateways.remove(0);
            assert(gw.skip(i as int)[0] == gw[i as int]);
            assert(gateways@ =~= gw.skip(i + 1));
            peers.push((config.label, builder));
            assert(peers@ =~= all.take(i + 1));
            i = i + 1;
        }
        let mut j: usize = 0;
        while j < second
            invariant
                j <= second == nd.len(),
                nodes@ == nd.skip(j as int),
                all.len() == gw.len() + nd.len(),
                forall|k: int| #![trigger nd[k]]
                    0 <= k < nd.len() ==> all[gw.len() + k] == (nd[k].1, nd[k].0),
                peers@ == all.take(gw.len() + j),
            decreases second - j,
        {
            let (builder, label) = nodes.remove(0);
            assert(nd.skip(j as int)[0] == nd[j as int]);
            assert(nodes@ =~= nd.skip(j + 1));
            peers.push((label, builder));
            assert(peers@ =~= all.take(gw.len() + j + 1));
            j = j + 1;
        }
        assert(all.take(all.len() as int) =~= all);
        peers
    }

    /// Lists peers under their labels and keeps the list in order.
    fn list_peers(&mut self, peers: &Vec<(NodeLabel, Builder<ER>)>)
        ensures
            final(self).same_settings(*old(self)),
            final(self).announced == old(self).announced,
            final(self).gateways == old(self).gateways,
            final(self).nodes == old(self).nodes,
            is_listing(old(self).labels@, peers@, final(self).labels@),
            is_sorted(final(self).labels@),
    {
        let mut labels: Vec<(NodeLabel, TransportPublicKey)> = Vec::new();
        std::mem::swap(&mut labels, &mut self.labels);
        let ghost before = labels@;
        let ghost added = Seq::<(NodeLabel, TransportPublicKey)>::empty();
        assert(labels@ =~= before + added);
        for i in 0..peers.len()
            invariant
                labels@ == before + added,
                added.len() == i,
                forall|k: int| #![trigger added[k]]
                    0 <= k < i ==> added[k].0@ == peers@[k].0@ && added[k].1
                        == peers@[k].1.config.key_pair.public,
        {
            let entry = (peers[i].0.clone(), peers[i].1.config.key_pair.public);
            proof {
                added = added.push(entry);
            }
            labels.push(entry);
            assert(labels@ =~= before + added);
        }
        self.labels = sort_by_label(labels);
        proof {
            assert(are_keys_of(added, peers@));
            law_listing_keeps_everything(before, peers@, self.labels@);
        }
    }

    /// Prepares the start of all peers that wait for it: first the gateways, then the regular
    /// nodes, in the order in which they were configured. All are listed under their labels, and
    /// all make their random events from the same seed, contracts and number of iterations.
    pub fn start_with_rand_gen(
        &mut self,
        seed: u64,
        max_contract_num: usize,
        iterations: usize,
    ) -> (r: Vec<PeerStart<ER>>)
        ensures
            old(self).wf() ==> final(self).wf(),
            final(self).same_settings(*old(self)),
            final(self).announced == old(self).announced,
            final(self).gateways@.len() == 0,
            final(self).nodes@.len() == 0,
            is_listing(old(self).labels@, old(self).waiting(), final(self).labels@),
            r@.len() == old(self).waiting().len(),
            forall|i: int|
                0 <= i < r@.len() ==> (#[trigger] r@[i]).is_start_of(
                    old(self).waiting()[i],
                    r@.len(),
                    RandomEvents { seed, max_contract_num, iterations },
                ),
    {
        let random = RandomEvents { seed, max_contract_num, iterations };
        let peers: Vec<(NodeLabel, Builder<ER>)> = self.take_waiting();
        let ghost all = peers@;
        self.list_peers(&peers);
        let total: usize = peers.len();
        let mut rest: Vec<(NodeLabel, Builder<ER>)> = peers;
        let mut starts: Vec<PeerStart<ER>> = Vec::new();
        let mut i: usize = 0;
        assert(all.skip(0) =~= all);
        while i < total
            invariant
                i <= total == all.len(),
                rest@ == all.skip(i as int),
                starts@.len() == i,
                forall|k: int|
                    0 <= k < i ==> (#[trigger] starts@[k]).is_start_of(
                        all[k],
                        total as nat,
                        random,
                    ),
            decreases total - i,
        {
            let (label, builder) = rest.remove(0);
            assert(all.skip(i as int)[0] == all[i as int]);
            assert(rest@ =~= all.skip(i + 1));
            let number: usize = label.number();
            let is_gateway: bool = label.is_gateway();
            starts.push(
                PeerStart { label, builder, number, total_peer_num: total, is_gateway, random },
            );
            i = i + 1;
        }
        starts
    }

    /// Builds peer nodes, in the order of their labels, and returns the controller to trigger
    /// events, which stays with the network.
    pub fn build_peers(&mut self) -> (r: (Vec<(NodeLabel, NodeConfig)>, Option<&S>))
        ensures
            old(self).wf() ==> final(self).wf(),
            final(self).same_settings(*old(self)),
            final(self).announced == old(self).announced,
            final(self).gateways@.len() == 0,
            final(self).nodes@.len() == 0,
            is_listing(old(self).labels@, old(self).waiting(), final(self).labels@),
            is_stable_sort(configs_of(old(self).waiting()), r.0@),
            match r.1 {
                Some(controller) => old(self).user_ev_controller == Some(*controller),
                None => old(self).user_ev_controller is None,
            },
    {
        let peers: Vec<(NodeLabel, Builder<ER>)> = self.take_waiting();
        let ghost all = peers@;
        self.list_peers(&peers);
        let total: usize = peers.len();
        let mut rest: Vec<(NodeLabel, Builder<ER>)> = peers;
        let mut configs: Vec<(NodeLabel, NodeConfig)> = Vec::new();
        let mut i: usize = 0;
        assert(all.skip(0) =~= all);
        assert(configs@ =~= configs_of(all).take(0));
        while i < total
            invariant
                i <= total == all.len(),
                rest@ == all.skip(i as int),
                configs@ == configs_of(all).take(i as int),
            decreases total - i,
        {
            let (label, builder) = rest.remove(0);
            assert(all.skip(i as int)[0] == all[i as int]);
            assert(rest@ =~= all.skip(i + 1));
            configs.push((label, builder.config));
            assert(configs@ =~= configs_of(all).take(i + 1));
            i = i + 1;
        }
        assert(configs_of(all).take(total as int) =~= configs_of(all));
        (sort_by_label(configs), self.user_ev_controller.as_ref())
    }

    /// Starts an event chain for this simulation. Allows passing a different controller for the
    /// peers; with none, the one of the network is used. The chain removes the files of the
    /// peers where the network would have.
    pub fn event_chain(self, total_events: u32, controller: Option<S>) -> (r: EventChain<S>)
        requires
            controller is Some || self.user_ev_controller is Some,
        ensures
            r.peers() == self.labels@,
            r.controller_of() == match controller {
                Some(c) => c,
                None => self.user_ev_controller->0,
            },
            r.cleans_up() == self.clean_up_tmp_dirs,
            r.progress() == (ChainProgress { count: 0, total: total_events as nat, choice: None }),
            is_seeded(0xdeadbeef, r.generator()),
    {
        let user_ev_controller: S = match controller {
            Some(c) => c,
            None => match self.user_ev_controller {
                Some(c) => c,
                None => vstd::pervasive::unreached(),
            },
        };
        EventChain::new(self.labels, user_ev_controller, total_events, self.clean_up_tmp_dirs)
    }

    /// The directories to remove when the network is dropped.
    pub fn leftovers(&self) -> (r: Vec<String>)
        ensures
            if self.clean_up_tmp_dirs {
                &&& r@.len() == self.labels@.len()
                &&& forall|i: int|
                    0 <= i < r@.len() ==> (#[trigger] r@[i])@ == tmp_dir_text(self.labels@[i].0@)
            } else {
                r@.len() == 0
            },
    {
        if self.clean_up_tmp_dirs {
            clean_up_tmp_dirs(&self.labels)
        } else {
            Vec::new()
        }
    }
}

/// Every gateway knows all others, and the first one does not connect by itself. A gateway does
/// not know itself where no two gateways have the same identity and it knew of none before.
pub proof fn law_gateways_know_each_other<ER>(
    config: NodeConfig,
    draws: Seq<GatewayDraw<ER>>,
    i: int,
    params: RingParams,
)
    requires
        0 <= i < draws.len(),
        is_gateway_config(config, draws, i, params),
    ensures
        i == 0 ==> !config.should_connect,
        config.gateways@.len() == draws[i].config.gateways@.len() + draws.len() - 1,
        forall|j: int|
            0 <= j < draws.len() && j != i ==> config.gateways@.contains(
                #[trigger] gateway_info(draws[j]),
            ),
        draws[i].config.gateways@.len() == 0 && (forall|j: int|
            0 <= j < draws.len() && j != i ==> #[trigger] gateway_id(draws[j]) != gateway_id(
                draws[i],
            )) ==> forall|k: int|
            0 <= k < config.gateways@.len() ==> (#[trigger] config.gateways@[k]).peer
                != gateway_id(draws[i]),
{
    let base = draws[i].config.gateways@;
    let infos = gateway_infos(draws);
    assert forall|j: int| 0 <= j < draws.len() && j != i implies config.gateways@.contains(
        #[trigger] gateway_info(draws[j]),
    ) by {
        let at = base.len() + if j < i {
            j
        } else {
            j - 1
        };
        assert(config.gateways@[at] == infos[j]);
    }
    if base.len() == 0 && (forall|j: int|
        0 <= j < draws.len() && j != i ==> #[trigger] gateway_id(draws[j]) != gateway_id(
            draws[i],
        )) {
        assert forall|k: int| 0 <= k < config.gateways@.len() implies (
        #[trigger] config.gateways@[k]).peer != gateway_id(draws[i]) by {
            let j = if k < i {
                k
            } else {
                k + 1
            };
            assert(config.gateways@[k] == infos[j]);
            assert(gateway_id(draws[j]) != gateway_id(draws[i]));
        }
    }
}

/// Every regular node knows all gateways.
pub proof fn law_nodes_know_all_gateways<ER>(
    config: NodeConfig,
    d: NodeDraw<ER>,
    gateways: Seq<InitPeerNode>,
    params: RingParams,
    j: int,
)
    requires
        is_node_config(config, d, gateways, params),
        0 <= j < gateways.len(),
    ensures
        config.gateways@.contains(gateways[j]),
{
    assert(config.gateways@[d.config.gateways@.len() + j] == gateways[j]);
}

/// Whether a peer is listed under this label with this key.
pub open spec fn is_listed_with(
    labels: Seq<(NodeLabel, TransportPublicKey)>,
    label: Seq<char>,
    key: TransportPublicKey,
) -> bool {
    exists|k: int|
        0 <= k < labels.len() && (#[trigger] labels[k]).0@ == label && labels[k].1 == key
}

/// Whether one of these peers has this label and this key.
pub open spec fn is_peer_with<ER>(
    peers: Seq<(NodeLabel, Builder<ER>)>,
    label: Seq<char>,
    key: TransportPublicKey,
) -> bool {
    exists|i: int|
        0 <= i < peers.len() && (#[trigger] peers[i]).0@ == label
            && peers[i].1.config.key_pair.public == key
}

/// What was listed stays listed, every peer that is started or built is listed under its label
/// with its key, and nothing else is.
pub proof fn law_listing_keeps_everything<ER>(
    before: Seq<(NodeLabel, TransportPublicKey)>,
    peers: Seq<(NodeLabel, Builder<ER>)>,
    after: Seq<(NodeLabel, TransportPublicKey)>,
)
    requires
        is_listing(before, peers, after),
    ensures
        is_sorted(after),
        after.len() == before.len() + peers.len(),
        forall|i: int| 0 <= i < before.len() ==> after.contains(#[trigger] before[i]),
        forall|i: int| #![trigger peers[i]]
            0 <= i < peers.len() ==> is_listed_with(
                after,
                peers[i].0@,
                peers[i].1.config.key_pair.public,
            ),
        forall|k: int| #![trigger after[k]]
            0 <= k < after.len() ==> before.contains(after[k]) || is_peer_with(
                peers,
                after[k].0@,
                after[k].1,
            ),
{
    let added = choose|added: Seq<(NodeLabel, TransportPublicKey)>| #[trigger]
        are_keys_of(added, peers) && is_stable_sort(before + added, after);
    let all = before + added;
    assert forall|i: int| 0 <= i < before.len() implies after.contains(#[trigger] before[i]) by {
        assert(all[i] == before[i]);
        law_sorting_keeps_everything(all, after, before[i]);
    }
    assert forall|i: int| #![trigger peers[i]] 0 <= i < peers.len() implies is_listed_with(
        after,
        peers[i].0@,
        peers[i].1.config.key_pair.public,
    ) by {
        let e = added[i];
        assert(all[before.len() + i] == e);
        law_sorting_keeps_everything(all, after, e);
        let k = choose|k: int| 0 <= k < after.len() && after[k] == e;
        assert(after[k].0@ == peers[i].0@);
    }
    assert forall|k: int| #![trigger after[k]] 0 <= k < after.len() implies before.contains(
        after[k],
    ) || is_peer_with(peers, after[k].0@, after[k].1) by {
        let e = after[k];
        law_sorting_keeps_everything(all, after, e);
        let i = choose|i: int| 0 <= i < all.len() && all[i] == e;
        if i < before.len() {
            assert(before[i] == e);
        } else {
            assert(added[i - before.len()] == e);
            assert(peers[i - before.len()].0@ == e.0@);
        }
    }
}

/// Once the peers of a new network are started or built, every regular node is listed under the
/// label with its number, so that it can be asked whether it is connected.
pub proof fn law_every_node_is_listed<S, ER>(
    net: SimNetwork<S, ER>,
    after: Seq<(NodeLabel, TransportPublicKey)>,
    n: nat,
)
    requires
        net.nodes@.len() == net.number_of_nodes,
        forall|i: int|
            0 <= i < net.nodes@.len() ==> (#[trigger] net.nodes@[i]).1@ == node_text(
                (net.number_of_gateways + i) as nat,
            ),
        is_listing(net.labels@, net.waiting(), after),
        net.number_of_gateways <= n < net.number_of_gateways + net.number_of_nodes,
    ensures
        is_sorted(after),
        is_listed(after, node_text(n)),
{
    law_listing_keeps_everything(net.labels@, net.waiting(), after);
    let i = n - net.number_of_gateways;
    let peer = net.waiting()[net.gateways@.len() + i];
    assert(peer == (net.nodes@[i].1, net.nodes@[i].0));
    assert(is_listed_with(after, peer.0@, peer.1.config.key_pair.public));
}

} // verus!
