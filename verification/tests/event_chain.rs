use std::collections::HashSet;

use freenet_core::node::event_chain::clean_up_tmp_dirs;
use freenet_core::node::event_chain::EventChain;
use freenet_core::node::event_chain::NextEvent;
use freenet_core::node::event_chain::Sending;
use freenet_core::node::event_chain::SEED;
use freenet_core::node::label::NodeLabel;
use freenet_core::node::peer::TransportPublicKey;

fn key(n: u128) -> TransportPublicKey {
    TransportPublicKey { high: n, low: n + 1 }
}

fn peers(n: usize) -> Vec<(NodeLabel, TransportPublicKey)> {
    (0..n).map(|i| (NodeLabel::node(i), key(i as u128))).collect()
}

#[test]
fn a_chain_ends_after_its_events() {
    let mut chain = EventChain::new(peers(3), "controller", 2, false);
    assert_eq!(*chain.controller(), "controller");
    for n in 0..2 {
        let (event, id) = chain.next_event().unwrap();
        assert_eq!(event, n);
        assert!(id.high < 3);
        assert_eq!(chain.on_offered(id, Sending::Done), NextEvent::Sent(n + 1));
    }
    assert_eq!(chain.next_event(), None);
    assert_eq!(chain.next_event(), None);
}

#[test]
fn an_event_without_room_is_offered_again() {
    let mut chain = EventChain::new(peers(50), (), 5, false);
    let (event, id) = chain.next_event().unwrap();
    for _ in 0..10 {
        assert_eq!(chain.on_offered(id, Sending::Pending), NextEvent::Pending);
        assert_eq!(chain.next_event(), Some((event, id)));
    }
    assert_eq!(chain.on_offered(id, Sending::Done), NextEvent::Sent(1));
}

#[test]
fn events_are_for_different_peers() {
    let mut chain = EventChain::new(peers(10), (), 200, false);
    let mut seen = HashSet::new();
    while let Some((_, id)) = chain.next_event() {
        seen.insert(id.high);
        chain.on_offered(id, Sending::Done);
    }
    assert!(seen.len() > 1);
    assert!(seen.iter().all(|n| *n < 10));
}

#[test]
fn the_same_seed_leads_to_the_same_choices() {
    assert_eq!(SEED, 0xdeadbeef);
    let choices = || -> Vec<u128> {
        let mut chain = EventChain::new(peers(100), (), 30, false);
        let mut ids = Vec::new();
        while let Some((_, id)) = chain.next_event() {
            ids.push(id.high);
            chain.on_offered(id, Sending::Done);
        }
        ids
    };
    assert_eq!(choices(), choices());
}

#[test]
fn a_chain_without_events_needs_no_peers() {
    let mut chain = EventChain::new(Vec::new(), (), 0, true);
    assert!(!chain.is_stuck());
    assert_eq!(chain.next_event(), None);
    assert!(EventChain::new(Vec::new(), (), 1, true).is_stuck());
    assert!(!EventChain::new(peers(1), (), 1, true).is_stuck());
    assert!(chain.leftovers().is_empty());
}

#[test]
fn directories_of_the_peers_are_left_over() {
    let mut labels = peers(2);
    labels.push((NodeLabel::gateway(7), key(7)));
    let expected = vec![
        "freenet-executor-sim-node-0",
        "freenet-executor-sim-node-1",
        "freenet-executor-sim-gateway-7",
    ];
    assert_eq!(clean_up_tmp_dirs(&labels), expected);
    let chain = EventChain::new(labels, (), 1, true);
    assert_eq!(chain.leftovers(), expected);
    let chain = EventChain::new(peers(2), (), 1, false);
    assert!(chain.leftovers().is_empty());
}

#[test]
fn a_pending_choice_is_one_of_the_peers() {
    let mut chain = EventChain::new(peers(4), (), 20, false);
    let mut offers = 0;
    while let Some((_, id)) = chain.next_event() {
        assert!(id.high < 4 && id.low == id.high + 1);
        offers += 1;
        chain.on_offered(id, if offers % 3 == 0 { Sending::Done } else { Sending::Pending });
    }
    assert_eq!(offers, 60);
}
