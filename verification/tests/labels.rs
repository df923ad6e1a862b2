use freenet_core::node::label::NodeLabel;
use freenet_core::node::label_map::LabelMap;
use freenet_core::node::order::find_label;
use freenet_core::node::order::sort_by_label;
use freenet_core::text::chars_of;
use freenet_core::text::parse_number;
use freenet_core::text::text_no_later;

#[test]
fn gateway_label() {
    let l = NodeLabel::gateway(7);
    assert_eq!(l.as_str(), "gateway-7");
    assert!(l.is_gateway());
    assert!(!l.is_node());
    assert_eq!(l.number(), 7);
}

#[test]
fn node_label() {
    let l = NodeLabel::node(12);
    assert_eq!(l.to_string(), "node-12");
    assert!(l.is_node());
    assert!(!l.is_gateway());
    assert_eq!(l.number(), 12);
}

#[test]
fn labels_of_the_first_and_the_last_peer() {
    assert_eq!(NodeLabel::gateway(0).as_str(), "gateway-0");
    assert_eq!(NodeLabel::gateway(0).number(), 0);
    let last = NodeLabel::node(usize::MAX);
    assert_eq!(last.as_str(), format!("node-{}", usize::MAX));
    assert_eq!(last.number(), usize::MAX);
}

#[test]
fn labels_of_different_peers_differ() {
    assert!(NodeLabel::gateway(1) != NodeLabel::gateway(2));
    assert!(NodeLabel::gateway(1) != NodeLabel::node(1));
    assert!(NodeLabel::node(10) == NodeLabel::node(10));
    assert!(NodeLabel::node(10).clone() == NodeLabel::node(10));
}

#[test]
fn texts_that_are_labels() {
    for text in ["gateway-0", "node-1", "node-65535", "node-007", "gateway-+5"] {
        assert!(NodeLabel::accepts(text), "{text}");
        assert_eq!(NodeLabel::from(text).as_str(), text);
    }
    assert_eq!(NodeLabel::from("node-007").number(), 7);
    assert_eq!(NodeLabel::from("gateway-+5").number(), 5);
}

#[test]
fn texts_that_are_no_labels() {
    for text in [
        "",
        "node",
        "node-",
        "gateway-",
        "peer-1",
        "node1",
        "node-65536",
        "node--5",
        "node-5-6",
        "node-+",
        "node- 5",
        "node-5 ",
        "gateway-x",
        "Node-1",
    ] {
        assert!(!NodeLabel::accepts(text), "{text}");
    }
}

#[test]
fn numbers_are_read_up_to_a_bound() {
    let read = |s: &str, max: u64| parse_number(&chars_of(s), 0, max);
    assert_eq!(read("255", 255), Some(255));
    assert_eq!(read("256", 255), None);
    assert_eq!(read("0000000000000000000000256", 256), Some(256));
    assert_eq!(read("18446744073709551615", u64::MAX), Some(u64::MAX));
    assert_eq!(read("18446744073709551616", u64::MAX), None);
    assert_eq!(read("+", 9), None);
    assert_eq!(read("-1", 9), None);
    assert_eq!(read("", 9), None);
}

#[test]
fn the_order_of_labels_is_that_of_their_texts() {
    assert!(NodeLabel::node(10).no_later(&NodeLabel::node(2)));
    assert!(!NodeLabel::node(2).no_later(&NodeLabel::node(10)));
    assert!(NodeLabel::gateway(9).no_later(&NodeLabel::node(0)));
    assert!(NodeLabel::node(1).no_later(&NodeLabel::node(1)));
    assert!(text_no_later("node-1", "node-10"));
    assert!(!text_no_later("node-10", "node-1"));
    assert!(text_no_later("", "a"));
    assert!(text_no_later("z", "\u{e9}"));
}

#[test]
fn labels_are_ordered_and_hashed_by_their_texts() {
    let labels: Vec<NodeLabel> =
        (0..12).map(NodeLabel::node).chain((0..3).map(NodeLabel::gateway)).collect();
    for a in &labels {
        for b in &labels {
            assert_eq!(a <= b, a.no_later(b));
            assert_eq!(a.cmp(b), a.as_str().cmp(b.as_str()));
        }
    }
    let set: std::collections::HashSet<NodeLabel> =
        labels.iter().chain(&labels).cloned().collect();
    assert_eq!(set.len(), 15);
}

#[test]
fn sorting_is_stable() {
    let items = vec![
        (NodeLabel::node(2), 1),
        (NodeLabel::node(10), 2),
        (NodeLabel::gateway(0), 3),
        (NodeLabel::node(2), 4),
        (NodeLabel::gateway(0), 5),
    ];
    let sorted = sort_by_label(items);
    let seen: Vec<(&str, i32)> = sorted.iter().map(|(l, n)| (l.as_str(), *n)).collect();
    assert_eq!(
        seen,
        vec![("gateway-0", 3), ("gateway-0", 5), ("node-10", 2), ("node-2", 1), ("node-2", 4)]
    );
}

#[test]
fn labels_are_found_in_a_sorted_list() {
    let sorted = sort_by_label((0..20).map(|n| (NodeLabel::node(n), n)).collect());
    for n in 0..20 {
        let at = find_label(&sorted, &NodeLabel::node(n)).unwrap();
        assert_eq!(sorted[at].1, n);
    }
    assert_eq!(find_label(&sorted, &NodeLabel::node(20)), None);
    assert_eq!(find_label(&sorted, &NodeLabel::gateway(0)), None);
    let none: Vec<(NodeLabel, u8)> = Vec::new();
    assert_eq!(find_label(&none, &NodeLabel::node(0)), None);
}

#[test]
fn a_later_value_replaces_the_one_of_the_same_label() {
    let mut map: LabelMap<u8> = LabelMap::new();
    assert_eq!(map.len(), 0);
    map.insert(NodeLabel::node(1), 1);
    map.insert(NodeLabel::gateway(1), 2);
    map.insert(NodeLabel::node(1), 3);
    assert_eq!(map.len(), 2);
    assert_eq!(map.get(&NodeLabel::node(1)), Some(&3));
    assert_eq!(map.get(&NodeLabel::gateway(1)), Some(&2));
    assert_eq!(map.get(&NodeLabel::node(2)), None);
}
