use std::collections::HashSet;

use freenet_core::node::config::config_args;
use freenet_core::node::config::GatewayDraw;
use freenet_core::node::config::ListenerIp;
use freenet_core::node::config::NodeConfig;
use freenet_core::node::config::NodeDraw;
use freenet_core::node::config::OperationMode;
use freenet_core::node::config::RingParams;
use freenet_core::node::connectivity::ConnectionAverage;
use freenet_core::node::connectivity::LowConnectivity;
use freenet_core::node::event_chain::NextEvent;
use freenet_core::node::event_chain::Sending;
use freenet_core::node::label::NodeLabel;
use freenet_core::node::peer::Distance;
use freenet_core::node::peer::Location;
use freenet_core::node::peer::PeerId;
use freenet_core::node::peer::TransportKeypair;
use freenet_core::node::peer::TransportPublicKey;
use freenet_core::node::sim_network::RandomEvents;
use freenet_core::node::sim_network::SimNetwork;
use freenet_core::transport::message::PeerAddr;

type Net = SimNetwork<&'static str, u16>;
type Links = Vec<(PeerId, Distance)>;

fn key(n: u128) -> TransportPublicKey {
    TransportPublicKey { high: n, low: 0 }
}

fn default_config() -> NodeConfig {
    NodeConfig {
        should_connect: true,
        is_gateway: false,
        key_pair: TransportKeypair { public: key(999) },
        network_listener_ip: ListenerIp::V4(0),
        network_listener_port: 0,
        peer_id: None,
        gateways: vec![],
        location: None,
        max_hops_to_live: None,
        rnd_if_htl_above: None,
        max_number_conn: None,
        min_number_conn: None,
    }
}

fn params() -> RingParams {
    RingParams { ring_max_htl: 10, rnd_if_htl_above: 7, max_connections: 6, min_connections: 2 }
}

fn gateway(n: u16) -> GatewayDraw<u16> {
    GatewayDraw {
        config: default_config(),
        port: 1000 + n,
        key_pair: TransportKeypair { public: key(n as u128) },
        location: Location { bits: n as u64 },
        register: n,
    }
}

fn node(n: u16) -> NodeDraw<u16> {
    NodeDraw {
        config: default_config(),
        port: 2000 + n,
        key_pair: TransportKeypair { public: key(100 + n as u128) },
        register: 100 + n,
    }
}

fn network(gateways: u16, nodes: u16) -> Net {
    let gateways = (0..gateways).map(gateway).collect();
    let nodes = (0..nodes).map(node).collect();
    SimNetwork::new("sim", gateways, nodes, params(), "controller")
}

fn addr(port: u16) -> PeerAddr {
    PeerAddr::V6 { ipv6: 1, port, flowinfo: 0, scope_id: 0 }
}

fn id(n: u16) -> PeerId {
    PeerId { addr: addr(1000 + n), pub_key: key(n as u128) }
}

/// Links to the peers with these keys.
fn links(keys: &[u128]) -> Links {
    keys.iter()
        .map(|k| (PeerId { addr: addr(1), pub_key: key(*k) }, Distance { bits: *k as u64 }))
        .collect()
}

fn labels(net: &Net) -> Vec<(String, u128)> {
    net.labels.iter().map(|(l, k)| (l.to_string(), k.high)).collect()
}

#[test]
fn configurations_are_made_for_a_label() {
    let args = config_args(&NodeLabel::gateway(3));
    assert_eq!(args.id.as_deref(), Some("gateway-3"));
    assert_eq!(args.mode, Some(OperationMode::Local));
}

#[test]
fn a_new_network() {
    let net = network(2, 3);
    assert_eq!(net.name, "sim");
    assert!(net.clean_up_tmp_dirs);
    assert!(net.labels.is_empty());
    assert_eq!(net.user_ev_controller, Some("controller"));
    assert_eq!((net.number_of_gateways, net.number_of_nodes), (2, 3));
    assert_eq!((net.gateways.len(), net.nodes.len()), (2, 3));
    assert_eq!(net.params, params());
    assert_eq!(net.start_backoff, 1_000_000);
    assert!(!net.add_noise);
    let told: Vec<(String, u128)> =
        net.announced.iter().map(|(l, k)| (l.to_string(), k.high)).collect();
    let expected = [("gateway-0", 0), ("gateway-1", 1), ("node-2", 100), ("node-3", 101), ("node-4", 102)];
    assert_eq!(told, expected.map(|(l, k)| (l.to_string(), k)));
}

#[test]
fn gateways_know_each_other() {
    let net = network(3, 1);
    for (i, (builder, config)) in net.gateways.iter().enumerate() {
        let n = i as u16;
        assert_eq!(config.label.as_str(), format!("gateway-{i}"));
        assert_eq!(config.id, id(n));
        assert_eq!(config.location, Location { bits: n as u64 });
        assert_eq!(builder.contract_handler_name, format!("sim-gateway-{i}"));
        assert_eq!(builder.event_register, n);
        assert!(!builder.add_noise);
        assert!(builder.contracts.is_empty());
        assert!(builder.contract_subscribers.is_empty());
        let c = &builder.config;
        assert_eq!(c.should_connect, i != 0);
        assert!(c.is_gateway);
        assert_eq!(c.key_pair.public, key(n as u128));
        assert_eq!(c.network_listener_ip, ListenerIp::V6(1));
        assert_eq!(c.network_listener_port, 1000 + n);
        assert_eq!(c.peer_id, Some(id(n)));
        assert_eq!(c.location, Some(Location { bits: n as u64 }));
        assert_eq!(c.max_hops_to_live, Some(10));
        assert_eq!(c.rnd_if_htl_above, Some(7));
        assert_eq!(c.max_number_conn, Some(6));
        assert_eq!(c.min_number_conn, Some(2));
        let known: Vec<PeerId> = c.gateways.iter().map(|g| g.peer).collect();
        let others: Vec<PeerId> = (0..3).filter(|k| *k != n).map(id).collect();
        assert_eq!(known, others);
    }
}

#[test]
fn nodes_know_all_gateways() {
    let net = network(2, 2);
    for (i, (builder, label)) in net.nodes.iter().enumerate() {
        let n = i as u16;
        assert_eq!(label.as_str(), format!("node-{}", i + 2));
        assert_eq!(builder.contract_handler_name, format!("sim-node-{}", i + 2));
        assert_eq!(builder.event_register, 100 + n);
        let c = &builder.config;
        assert!(c.should_connect);
        assert!(!c.is_gateway);
        assert_eq!(c.key_pair.public, key(100 + n as u128));
        assert_eq!(c.network_listener_ip, ListenerIp::V6(1));
        assert_eq!(c.network_listener_port, 2000 + n);
        assert_eq!(c.peer_id, None);
        assert_eq!(c.location, None);
        assert_eq!(c.max_hops_to_live, Some(10));
        assert_eq!(c.rnd_if_htl_above, Some(7));
        assert_eq!(c.max_number_conn, Some(6));
        assert_eq!(c.min_number_conn, None);
        let known: Vec<PeerId> = c.gateways.iter().map(|g| g.peer).collect();
        assert_eq!(known, vec![id(0), id(1)]);
    }
}

#[test]
fn settings_of_a_network() {
    let mut net = network(1, 1);
    net.with_start_backoff(5);
    net.with_noise();
    net.debug();
    assert_eq!(net.start_backoff, 5);
    assert!(net.add_noise);
    assert!(net.gateways[0].0.add_noise && net.nodes[0].0.add_noise);
    assert!(!net.clean_up_tmp_dirs);
    net.config_gateways(vec![gateway(5)]);
    assert_eq!(net.gateways.len(), 2);
    assert!(net.gateways[1].0.add_noise);
    assert_eq!(net.gateways[1].1.label.as_str(), "gateway-0");
    assert!(!net.gateways[1].0.config.should_connect);
    net.config_nodes(vec![node(6)]);
    assert_eq!(net.nodes.len(), 2);
    assert_eq!(net.nodes[1].1.as_str(), "node-1");
    assert_eq!(net.nodes[1].0.config.gateways.len(), 2);
}

#[test]
fn peers_are_started_in_turn() {
    let mut net = network(2, 9);
    let starts = net.start_with_rand_gen(11, 5, 20);
    assert_eq!(starts.len(), 11);
    for (i, start) in starts.iter().enumerate() {
        assert_eq!(start.number, i);
        assert_eq!(start.total_peer_num, 11);
        assert_eq!(
            start.random,
            RandomEvents { seed: 11, max_contract_num: 5, iterations: 20 }
        );
        assert!(!start.builder.add_noise);
        assert_eq!(start.is_gateway, i < 2);
        assert_eq!(start.label.is_gateway(), i < 2);
    }
    assert!(net.gateways.is_empty() && net.nodes.is_empty());
    let listed: Vec<String> = labels(&net).into_iter().map(|(l, _)| l).collect();
    let mut expected: Vec<String> = starts.iter().map(|s| s.label.to_string()).collect();
    expected.sort();
    assert_eq!(listed, expected);
    assert!(net.start_with_rand_gen(11, 5, 20).is_empty());
}

#[test]
fn built_peers_are_in_the_order_of_their_labels() {
    let mut net = network(1, 11);
    let (peers, controller) = net.build_peers();
    assert_eq!(controller, Some(&"controller"));
    let order: Vec<&str> = peers.iter().map(|(l, _)| l.as_str()).collect();
    assert_eq!(
        order,
        vec![
            "gateway-0", "node-1", "node-10", "node-11", "node-2", "node-3", "node-4", "node-5",
            "node-6", "node-7", "node-8", "node-9"
        ]
    );
    for ((label, config), (listed, k)) in peers.iter().zip(&net.labels) {
        assert!(label == listed);
        assert_eq!(config.key_pair.public, *k);
    }
}

#[test]
fn the_connections_of_every_peer() {
    let mut net = network(1, 2);
    net.build_peers();
    assert_eq!(
        labels(&net),
        vec![
            ("gateway-0".to_string(), 0),
            ("node-1".to_string(), 100),
            ("node-2".to_string(), 101)
        ]
    );
    let reported = vec![links(&[100, 101]), links(&[0, 0]), links(&[])];
    let found = net.node_connectivity(&reported);
    assert_eq!(found.len(), 3);
    let (k, conns) = found.get(&NodeLabel::gateway(0)).unwrap();
    assert_eq!(*k, key(0));
    assert_eq!(conns.len(), 2);
    assert_eq!(conns.get(&NodeLabel::node(2)), Some(&Distance { bits: 101 }));
    let (_, conns) = found.get(&NodeLabel::node(1)).unwrap();
    assert_eq!(conns.len(), 1);
    assert_eq!(conns.get(&NodeLabel::gateway(0)), Some(&Distance { bits: 0 }));
    let (k, conns) = found.get(&NodeLabel::node(2)).unwrap();
    assert_eq!(*k, key(101));
    assert_eq!(conns.len(), 0);
    assert!(found.get(&NodeLabel::node(3)).is_none());
}

#[test]
fn the_network_is_connected_when_every_node_is() {
    let mut net = network(1, 3);
    net.build_peers();
    let mut connected = HashSet::new();
    let reported = vec![false, true, false, true];
    assert!(net.connected(&NodeLabel::node(1), &reported));
    assert!(!net.connected(&NodeLabel::node(2), &reported));
    assert!(!net.connected(&NodeLabel::gateway(0), &reported));
    assert!(net.is_waiting(&connected, 1_000_000, 0, 1));
    net.collect_connected(&mut connected, &reported);
    assert_eq!(connected, HashSet::from([1, 3]));
    assert!(net.is_waiting(&connected, 1_000_000, 0, 1));
    let missing = net.check_connectivity(&connected).err().unwrap().missing;
    let missing: Vec<&str> = missing.iter().map(|l| l.as_str()).collect();
    assert_eq!(missing, vec!["node-2"]);
    net.collect_connected(&mut connected, &vec![false, false, true, false]);
    assert_eq!(connected, HashSet::from([1, 2, 3]));
    assert!(!net.is_waiting(&connected, 1_000_000, 0, 1));
    assert!(net.check_connectivity(&connected).is_ok());
}

#[test]
fn missing_nodes_are_listed_in_order() {
    let net = network(1, 11);
    let connected = HashSet::from([1, 3, 4, 5, 6, 7, 8]);
    let missing = net.missing_nodes(&connected);
    let missing: Vec<&str> = missing.iter().map(|l| l.as_str()).collect();
    assert_eq!(missing, vec!["node-10", "node-11", "node-2", "node-9"]);
    assert!(net.missing_nodes(&(1..12).collect()).is_empty());
}

#[test]
fn noise_reaches_the_peers_that_are_not_started_yet() {
    let mut quiet = network(2, 3);
    let mut noisy = network(2, 3);
    noisy.with_noise();
    let quiet = quiet.start_with_rand_gen(1, 2, 3);
    let noisy = noisy.start_with_rand_gen(1, 2, 3);
    assert_eq!((quiet.len(), noisy.len()), (5, 5));
    for (a, b) in quiet.iter().zip(&noisy) {
        assert!(!a.builder.add_noise && b.builder.add_noise);
        assert!(a.label == b.label);
        assert_eq!(a.builder.contract_handler_name, b.builder.contract_handler_name);
        assert_eq!(a.builder.event_register, b.builder.event_register);
        assert_eq!(a.builder.config.key_pair, b.builder.config.key_pair);
        assert_eq!(a.builder.config.gateways, b.builder.config.gateways);
    }
}

#[test]
fn a_share_of_the_nodes_can_be_enough() {
    let net = network(1, 10);
    let first = |n: usize| -> HashSet<usize> { (1..n + 1).collect() };
    assert!(net.check_partial_connectivity(&first(9), 900_000).is_ok());
    assert!(net.check_partial_connectivity(&first(8), 900_000).is_err());
    assert!(net.check_partial_connectivity(&first(9), 900_001).is_err());
    assert!(net.check_partial_connectivity(&first(10), 1_000_000).is_ok());
    assert!(net.connectivity(&first(9), 900_000).is_ok());
    assert!(net.connectivity(&first(9), 900_001).is_err());
}

#[test]
fn no_share_of_the_nodes_is_connected_where_nobody_is() {
    let net = network(1, 10);
    let nobody = HashSet::new();
    for share in [1, 9_999, 10_000, 10_001, 980_000, 1_000_000] {
        let missing = net.check_partial_connectivity(&nobody, share).err().unwrap().missing;
        assert_eq!(missing.len(), 10);
    }
    assert!(net.check_partial_connectivity(&nobody, 0).is_ok());
}

#[test]
fn connections_are_waited_for_until_the_time_is_out() {
    let net = network(1, 10);
    let first = |n: usize| -> HashSet<usize> { (1..n + 1).collect() };
    assert!(net.is_waiting(&first(8), 900_000, 0, 5));
    assert!(net.is_waiting(&first(8), 900_000, 4, 5));
    assert!(!net.is_waiting(&first(8), 900_000, 5, 5));
    assert!(!net.is_waiting(&first(9), 900_000, 0, 5));
}

/// A network of four nodes with these bounds on connections, and what each node has.
fn quality(min: usize, max: usize, connections: [usize; 4]) -> Result<(), LowConnectivity> {
    let mut net = network(12, 4);
    net.params.min_connections = min;
    net.params.max_connections = max;
    net.build_peers();
    let reported: Vec<Links> = net
        .labels
        .iter()
        .map(|(label, _)| {
            let n = if label.is_gateway() { 12 } else { connections[label.number() - 12] };
            links(&(0..n as u128).collect::<Vec<u128>>())
        })
        .collect();
    assert_eq!(
        net.has_enough_connections(&reported),
        connections.iter().filter(|n| **n > min).count() >= 2
    );
    net.network_connectivity_quality(&reported)
}

#[test]
fn enough_nodes_need_more_than_the_minimum_of_connections() {
    assert_eq!(quality(2, 2, [3, 3, 2, 2]), Ok(()));
    assert_eq!(quality(2, 2, [9, 9, 2, 2]), Ok(()));
    assert_eq!(quality(2, 2, [12, 2, 2, 2]), Err(LowConnectivity::TooFewAboveMinimum));
    assert_eq!(quality(2, 2, [12, 1, 0, 1]), Err(LowConnectivity::TooFewAboveMinimum));
    assert_eq!(quality(5, 1, [1, 1, 1, 6]), Err(LowConnectivity::TooFewAboveMinimum));
}

#[test]
fn the_average_has_to_be_above_the_mean() {
    let low = |average, mean| {
        Err(LowConnectivity::LowAverage(ConnectionAverage { average, mean }))
    };
    assert_eq!(quality(2, 10, [3, 3, 3, 3]), low(3, 6));
    assert_eq!(quality(2, 10, [6, 6, 6, 6]), low(6, 6));
    assert_eq!(quality(2, 10, [7, 7, 7, 6]), Ok(()));
    assert_eq!(quality(2, 10, [6, 6, 6, 7]), Ok(()));
    assert_eq!(quality(2, 10, [7, 7, 7, 7]), Ok(()));
    assert_eq!(quality(2, 11, [6, 6, 7, 7]), low(6, 6));
    assert_eq!(quality(2, 11, [6, 6, 7, 6]), low(6, 6));
    assert_eq!(quality(2, 11, [6, 7, 7, 7]), Ok(()));
    assert_eq!(quality(2, 11, [6, 7, 7, 8]), Ok(()));
}

#[test]
fn a_chain_takes_over_the_peers_and_their_files() {
    let mut net = network(1, 1);
    net.build_peers();
    let expected = vec!["freenet-executor-sim-gateway-0", "freenet-executor-sim-node-1"];
    assert_eq!(net.leftovers(), expected);
    let mut chain = net.event_chain(1, None);
    assert_eq!(*chain.controller(), "controller");
    assert_eq!(chain.leftovers(), expected);
    let (event, peer) = chain.next_event().unwrap();
    assert_eq!(event, 0);
    assert!(peer == key(0) || peer == key(100));
    assert_eq!(chain.on_offered(peer, Sending::Done), NextEvent::Sent(1));
    assert_eq!(chain.next_event(), None);
}

#[test]
fn a_chain_with_another_controller() {
    let mut net = network(1, 1);
    net.build_peers();
    net.debug();
    assert!(net.leftovers().is_empty());
    let chain = net.event_chain(1, Some("other"));
    assert_eq!(*chain.controller(), "other");
    assert!(chain.leftovers().is_empty());
}
