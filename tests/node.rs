use pow_sim::node::node_id_from_digits;
use pow_sim::{Config, Node};

#[test]
fn test_node_creation() {
    let config = Config::default();
    let node = Node::new(config);
    assert!(node.id.starts_with("node-"));
    assert_eq!(node.id.len(), 9);
    assert_eq!(node.blockchain.len(), 1);
}

#[test]
fn test_generate_id_format() {
    let id = Node::generate_id();
    assert!(id.starts_with("node-"));
    assert_eq!(id.len(), 9);

    let hex_part = &id[5..];
    assert!(hex_part.chars().all(|c| c.is_ascii_hexdigit()));
}

#[test]
fn test_generate_id_uniqueness() {
    let id1 = Node::generate_id();
    let id2 = Node::generate_id();
    assert_ne!(id1, id2);
}

#[test]
fn remaining_delay_values() {
    let node = Node::new(Config::new(i32::MAX, 2));
    assert_eq!(node.remaining_delay(0), 2_000_000_000);
    assert_eq!(node.remaining_delay(500_000_000), 1_500_000_000);
    assert_eq!(node.remaining_delay(2_000_000_000), 0);
    assert_eq!(node.remaining_delay(9_000_000_000), 0);
    let idle = Node::new(Config::new(i32::MAX, 0));
    assert_eq!(idle.remaining_delay(0), 0);
}

#[test]
fn node_id_written_from_digits() {
    assert_eq!(node_id_from_digits(&vec![10, 3, 15, 2]), "node-a3f2");
    assert_eq!(node_id_from_digits(&vec![0, 0, 0, 9]), "node-0009");
}
