//! The configuration of simulated peers.
use vstd::prelude::*;

use crate::contract::event::ContractContainer;
use crate::contract::event::ContractKey;
use crate::contract::event::WrappedState;
use crate::node::label::NodeLabel;
use crate::node::peer::Location;
use crate::node::peer::PeerId;
use crate::node::peer::PeerKeyLocation;
use crate::node::peer::TransportKeypair;
use crate::transport::message::PeerAddr;

verus! {

/// Whether a node stays on its own or joins a network.
#[derive(Debug, Clone, Copy, PartialEq, Eq, Structural)]
pub enum OperationMode {
    /// On its own.
    Local,
    /// In a network.
    Network,
}

/// What is asked for when a configuration is made; the rest is left to defaults.
#[derive(Debug)]
pub struct ConfigArgs {
    /// The name of the node.
    pub id: Option<String>,
    /// How it operates.
    pub mode: Option<OperationMode>,
}

/// What is asked for in the configuration of the peer with this label.
pub fn config_args(label: &NodeLabel) -> (r: ConfigArgs)
    ensures
        r.id matches Some(id) && id@ == label@,
        r.mode == Some(OperationMode::Local),
{
    ConfigArgs { id: Some(label.to_string()), mode: Some(OperationMode::Local) }
}

/// The address at which a node listens.
#[derive(Debug, Clone, Copy, PartialEq, Eq, Structural)]
pub enum ListenerIp {
    /// An IPv4 address, as the number that its four bytes make.
    V4(u32),
    /// An IPv6 address, as the number that its sixteen bytes make.
    V6(u128),
}

/// The IPv6 address of the machine itself.
pub const LOCALHOST: u128 = 1;

/// The address of this machine at a port.
pub open spec fn local_addr(port: u16) -> PeerAddr {
    PeerAddr::V6 { ipv6: LOCALHOST, port, flowinfo: 0, scope_id: 0 }
}

/// A gateway that a node knows of from the beginning.
#[derive(Debug, Clone, Copy, PartialEq, Eq, Structural)]
pub struct InitPeerNode {
    /// The gateway.
    pub peer: PeerId,
    /// Its place on the ring.
    pub location: Location,
}

/// The configuration of a node.
#[derive(Debug)]
pub struct NodeConfig {
    /// Whether the node connects to gateways when it starts.
    pub should_connect: bool,
    /// Whether the node is a gateway.
    pub is_gateway: bool,
    /// The keys of the node.
    pub key_pair: TransportKeypair,
    /// The address at which it listens.
    pub network_listener_ip: ListenerIp,
    /// The port at which it listens.
    pub network_listener_port: u16,
    /// Under which identity others know it.
    pub peer_id: Option<PeerId>,
    /// The gateways that it knows of.
    pub gateways: Vec<InitPeerNode>,
    /// Its place on the ring.
    pub location: Option<Location>,
    /// How many hops a message may make.
    pub max_hops_to_live: Option<usize>,
    /// Above how many remaining hops a message goes to a random peer.
    pub rnd_if_htl_above: Option<usize>,
    /// How many connections it has at most.
    pub max_number_conn: Option<usize>,
    /// How many connections it tries to have.
    pub min_number_conn: Option<usize>,
}

/// How peers behave on the ring.
#[derive(Debug, Clone, Copy, PartialEq, Eq, Structural)]
pub struct RingParams {
    /// How many hops a message may make.
    pub ring_max_htl: usize,
    /// Above how many remaining hops a message goes to a random peer.
    pub rnd_if_htl_above: usize,
    /// How many connections a peer has at most.
    pub max_connections: usize,
    /// How many connections a peer tries to have.
    pub min_connections: usize,
}

/// What other peers are told of a gateway.
pub struct GatewayConfig {
    /// The label of the gateway.
    pub label: NodeLabel,
    /// Its identity.
    pub id: PeerId,
    /// Its place on the ring.
    pub location: Location,
}

impl Clone for GatewayConfig {
    fn clone(&self) -> (r: Self)
        ensures
            r.label@ == self.label@,
            r.id == self.id,
            r.location == self.location,
    {
        GatewayConfig { label: self.label.clone(), id: self.id, location: self.location }
    }
}

/// What other peers know of these gateways from the beginning.
pub open spec fn known_gateways(gateways: Seq<GatewayConfig>) -> Seq<InitPeerNode> {
    Seq::new(
        gateways.len(),
        |i: int| InitPeerNode { peer: gateways[i].id, location: gateways[i].location },
    )
}

/// What was found out for a gateway before it is configured. `ER` is where its events are
/// registered.
pub struct GatewayDraw<ER> {
    /// The configuration that was made from the arguments.
    pub config: NodeConfig,
    /// A free port.
    pub port: u16,
    /// Fresh keys.
    pub key_pair: TransportKeypair,
    /// A random place on the ring.
    pub location: Location,
    /// Where its events are registered.
    pub register: ER,
}

/// What was found out for a regular node before it is configured.
pub struct NodeDraw<ER> {
    /// The configuration that was made from the arguments.
    pub config: NodeConfig,
    /// A free port.
    pub port: u16,
    /// Fresh keys.
    pub key_pair: TransportKeypair,
    /// Where its events are registered.
    pub register: ER,
}

/// A simulated node that is not started yet.
pub struct Builder<ER> {
    /// The configuration.
    pub config: NodeConfig,
    /// The name of its contract handler.
    pub contract_handler_name: String,
    /// Whether messages to it are delayed and reordered.
    pub add_noise: bool,
    /// Where its events are registered.
    pub event_register: ER,
    /// The contracts that it starts with.
    pub contracts: Vec<(ContractContainer, WrappedState, bool)>,
    /// Who is subscribed to these contracts.
    pub contract_subscribers: Vec<(ContractKey, Vec<PeerKeyLocation>)>,
}

impl<ER> Builder<ER> {
    /// Builds an in-memory node. Does nothing upon construction.
    pub fn build(
        builder: NodeConfig,
        event_register: ER,
        contract_handler_name: String,
        add_noise: bool,
    ) -> (r: Self)
        ensures
            r.config == builder,
            r.event_register == event_register,
            r.contract_handler_name == contract_handler_name,
            r.add_noise == add_noise,
            r.contracts@.len() == 0,
            r.contract_subscribers@.len() == 0,
    {
        Builder {
            config: builder,
            contract_handler_name,
            add_noise,
            event_register,
            contracts: Vec::new(),
            contract_subscribers: Vec::new(),
        }
    }
}

/// The identity of a gateway.
pub open spec fn gateway_id<ER>(d: GatewayDraw<ER>) -> PeerId {
    PeerId { addr: local_addr(d.port), pub_key: d.key_pair.public }
}

/// What other peers know of a gateway from the beginning.
pub open spec fn gateway_info<ER>(d: GatewayDraw<ER>) -> InitPeerNode {
    InitPeerNode { peer: gateway_id(d), location: d.location }
}

/// What other peers know of these gateways from the beginning.
pub open spec fn gateway_infos<ER>(draws: Seq<GatewayDraw<ER>>) -> Seq<InitPeerNode> {
    Seq::new(draws.len(), |i: int| gateway_info(draws[i]))
}

/// All items but the one at position `i`.
pub open spec fn without<A>(s: Seq<A>, i: int) -> Seq<A> {
    s.take(i) + s.skip(i + 1)
}

/// Whether `config` is, but for the gateways that it knows of, the configuration of a gateway: it
/// listens on this machine, and the first gateway waits for others to connect.
pub open spec fn is_gateway_base<ER>(
    config: NodeConfig,
    d: GatewayDraw<ER>,
    first: bool,
    params: RingParams,
) -> bool {
    &&& config.should_connect == (!first && d.config.should_connect)
    &&& config.is_gateway
    &&& config.key_pair == d.key_pair
    &&& config.network_listener_ip == ListenerIp::V6(LOCALHOST)
    &&& config.network_listener_port == d.port
    &&& config.peer_id == Some(gateway_id(d))
    &&& config.location == Some(d.location)
    &&& config.max_hops_to_live == Some(params.ring_max_htl)
    &&& config.rnd_if_htl_above == Some(params.rnd_if_htl_above)
    &&& config.max_number_conn == Some(params.max_connections)
    &&& config.min_number_conn == Some(params.min_connections)
}

/// Whether `config` is the configuration of gateway `i`, which knows all other gateways.
pub open spec fn is_gateway_config<ER>(
    config: NodeConfig,
    draws: Seq<GatewayDraw<ER>>,
    i: int,
    params: RingParams,
) -> bool {
    &&& is_gateway_base(config, draws[i], i == 0, params)
    &&& config.gateways@ == draws[i].config.gateways@ + without(gateway_infos(draws), i)
}

/// Whether `config` is the configuration of a regular node: it listens on this machine and knows
/// these gateways; its identity and its place on the ring stay open.
pub open spec fn is_node_config<ER>(
    config: NodeConfig,
    d: NodeDraw<ER>,
    gateways: Seq<InitPeerNode>,
    params: RingParams,
) -> bool {
    &&& config.should_connect == d.config.should_connect
    &&& config.is_gateway == d.config.is_gateway
    &&& config.key_pair == d.key_pair
    &&& config.network_listener_ip == ListenerIp::V6(LOCALHOST)
    &&& config.network_listener_port == d.port
    &&& config.peer_id == d.config.peer_id
    &&& config.gateways@ == d.config.gateways@ + gateways
    &&& config.location == d.config.location
    &&& config.max_hops_to_live == Some(params.ring_max_htl)
    &&& config.rnd_if_htl_above == Some(params.rnd_if_htl_above)
    &&& config.max_number_conn == Some(params.max_connections)
    &&& config.min_number_conn == d.config.min_number_conn
}

/// The name of the contract handler of a peer of the network `name`.
pub open spec fn handler_name(name: Seq<char>, label: Seq<char>) -> Seq<char> {
    name + "-"@ + label
}

/// Whether `b` is the node that was built for the peer with this label of the network `name`.
pub open spec fn is_builder<ER>(
    b: Builder<ER>,
    name: Seq<char>,
    label: Seq<char>,
    add_noise: bool,
    register: ER,
) -> bool {
    &&& b.contract_handler_name@ == handler_name(name, label)
    &&& b.add_noise == add_noise
    &&& b.event_register == register
    &&& b.contracts@.len() == 0
    &&& b.contract_subscribers@.len() == 0
}

/// The configuration of a gateway before it knows the other ones.
pub(crate) fn configure_gateway<ER>(d: GatewayDraw<ER>, first: bool, params: RingParams) -> (r: (
    NodeConfig,
    PeerId,
    ER,
))
    ensures
        is_gateway_base(r.0, d, first, params),
        r.0.gateways == d.config.gateways,
        r.1 == gateway_id(d),
        r.2 == d.register,
{
    let id = PeerId {
        addr: PeerAddr::V6 { ipv6: LOCALHOST, port: d.port, flowinfo: 0, scope_id: 0 },
        pub_key: d.key_pair.public,
    };
    let config = NodeConfig {
        should_connect: !first && d.config.should_connect,
        is_gateway: true,
        key_pair: d.key_pair,
        network_listener_ip: ListenerIp::V6(LOCALHOST),
        network_listener_port: d.port,
        peer_id: Some(id),
        gateways: d.config.gateways,
        location: Some(d.location),
        max_hops_to_live: Some(params.ring_max_htl),
        rnd_if_htl_above: Some(params.rnd_if_htl_above),
        max_number_conn: Some(params.max_connections),
        min_number_conn: Some(params.min_connections),
    };
    (config, id, d.register)
}

/// Adds all gateways but the one at position `at` to those that a node knows of.
pub(crate) fn add_other_gateways(
    config: NodeConfig,
    gateways: &Vec<GatewayConfig>,
    at: usize,
) -> (r: NodeConfig)
    requires
        at < gateways@.len(),
        forall|i: int|
            0 <= i < gateways@.len() && i != at ==> (#[trigger] gateways@[i]).label@
                != gateways@[at as int].label@,
    ensures
        r.gateways@ == config.gateways@ + without(known_gateways(gateways@), at as int),
        r == (NodeConfig { gateways: r.gateways, ..config }),
{
    let mut config: NodeConfig = config;
    let ghost start = config;
    let ghost known = known_gateways(gateways@);
    assert(start.gateways@ =~= start.gateways@ + known.take(0));
    for i in 0..gateways.len()
        invariant
            at < gateways@.len(),
            known == known_gateways(gateways@),
            forall|k: int|
                0 <= k < gateways@.len() && k != at ==> (#[trigger] gateways@[k]).label@
                    != gateways@[at as int].label@,
            config == (NodeConfig { gateways: config.gateways, ..start }),
            config.gateways@ == start.gateways@ + if i <= at {
                known.take(i as int)
            } else {
                known.take(at as int) + known.subrange(at + 1, i as int)
            },
    {
        if gateways[i].label != gateways[at].label {
            config.gateways.push(
                InitPeerNode { peer: gateways[i].id, location: gateways[i].location },
            );
            proof {
                if i < at {
                    assert(known.take(i + 1) =~= known.take(i as int).push(known[i as int]));
                } else {
                    assert(known.subrange(at + 1, i + 1) =~= known.subrange(
                        at + 1,
                        i as int,
                    ).push(known[i as int]));
                }
                assert(config.gateways@ =~= start.gateways@ + if i + 1 <= at {
                    known.take(i + 1)
                } else {
                    known.take(at as int) + known.subrange(at + 1, i + 1)
                });
            }
        } else {
            assert(i == at);
            assert(config.gateways@ =~= start.gateways@ + (known.take(at as int)
                + known.subrange(at + 1, i + 1)));
        }
    }
    assert(known.subrange(at + 1, gateways@.len() as int) =~= known.skip(at + 1));
    config
}

/// Adds gateways to those that a node knows of.
fn add_gateways(config: NodeConfig, gateways: &Vec<InitPeerNode>) -> (r: NodeConfig)
    ensures
        r.gateways@ == config.gateways@ + gateways@,
        r == (NodeConfig { gateways: r.gateways, ..config }),
{
    let mut config: NodeConfig = config;
    let ghost start = config;
    for i in 0..gateways.len()
        invariant
            config == (NodeConfig { gateways: config.gateways, ..start }),
            config.gateways@ == start.gateways@ + gateways@.take(i as int),
    {
        config.gateways.push(gateways[i]);
        assert(config.gateways@ =~= start.gateways@ + gateways@.take(i + 1));
    }
    assert(gateways@.take(gateways@.len() as int) =~= gateways@);
    config
}

/// The configuration of a regular node that knows these gateways.
pub(crate) fn configure_node<ER>(
    d: NodeDraw<ER>,
    gateways: &Vec<InitPeerNode>,
    params: RingParams,
) -> (r: (NodeConfig, ER))
    ensures
        is_node_config(r.0, d, gateways@, params),
        r.1 == d.register,
{
    let config: NodeConfig = add_gateways(d.config, gateways);
    let config = NodeConfig {
        should_connect: config.should_connect,
        is_gateway: config.is_gateway,
        key_pair: d.key_pair,
        network_listener_ip: ListenerIp::V6(LOCALHOST),
        network_listener_port: d.port,
        peer_id: config.peer_id,
        gateways: config.gateways,
        location: config.location,
        max_hops_to_live: Some(params.ring_max_htl),
        rnd_if_htl_above: Some(params.rnd_if_htl_above),
        max_number_conn: Some(params.max_connections),
        min_number_conn: config.min_number_conn,
    };
    (config, d.register)
}

} // verus!
