use std::collections::{BTreeMap, VecDeque};

use freenet2_node::message::{Message, Payload};
use freenet2_node::node::{Delivery, Handled, Node, Outcome, Start};
use freenet2_node::registry::Address;

fn link(a: &mut Node, b: u64) {
    a.registry.accept(b, Address { host: 9, port: b as u16 }, true, 0).unwrap();
}

/// Delivers messages until none is left; returns what reached each
/// transaction's originator.
fn run(nodes: &mut BTreeMap<u64, Node>, first: (u64, Message)) -> Vec<(u64, Delivery)> {
    let mut queue = VecDeque::new();
    queue.push_back(first);
    let mut results = Vec::new();
    while let Some((to, msg)) = queue.pop_front() {
        let node = nodes.get_mut(&to).unwrap();
        match node.handle(&msg, 0, 100) {
            Handled::Send { to: next, msg } => queue.push_back((next, msg)),
            Handled::Delivered { delivery: Delivery::Relay { to: back } } => {
                let relayed = Message {
                    tx: msg.tx,
                    origin: msg.origin,
                    sender: to,
                    hops: msg.hops,
                    visited: vec![],
                    payload: msg.payload,
                };
                queue.push_back((back, relayed));
            }
            Handled::Delivered { delivery } => results.push((to, delivery)),
            Handled::Absorbed => {}
        }
    }
    results
}

#[test]
fn join_through_the_dispatcher() {
    let mut nodes = BTreeMap::new();
    let mut a = Node::new(0, 1, 5);
    let mut b = Node::new(9, 4, 5);
    link(&mut a, 9);
    link(&mut b, 0);
    let mut c = Node::new(8, 4, 5);
    let first = c.start_join(1, 0, 0, 100).unwrap();
    nodes.insert(0, a);
    nodes.insert(9, b);
    nodes.insert(8, c);
    let results = run(&mut nodes, first);
    assert_eq!(results, vec![(8, Delivery::Done { outcome: Outcome::Joined { peer: 9 } })]);
}

#[test]
fn store_and_fetch_through_the_dispatcher() {
    let mut nodes = BTreeMap::new();
    let mut o = Node::new(0, 8, 5);
    let mut m = Node::new(64, 8, 5);
    let mut t = Node::new(65, 8, 5);
    link(&mut o, 64);
    link(&mut m, 0);
    link(&mut m, 65);
    link(&mut t, 64);
    let first = match o.start_put(1, 65, 42, 0, 100).unwrap() {
        Start::Send { to, msg } => (to, msg),
        Start::Done { .. } => panic!("the store should travel"),
    };
    nodes.insert(0, o);
    nodes.insert(64, m);
    nodes.insert(65, t);
    let results = run(&mut nodes, first);
    assert_eq!(results, vec![(0, Delivery::Done { outcome: Outcome::Stored })]);
    assert_eq!(nodes[&65].cache.resolve_locally(65), Some(42));

    let o = nodes.get_mut(&0).unwrap();
    let first = match o.start_get(2, 65, 0, 100).unwrap() {
        Start::Send { to, msg } => (to, msg),
        Start::Done { .. } => panic!("the fetch should travel"),
    };
    let results = run(&mut nodes, first);
    assert_eq!(results, vec![(0, Delivery::Done { outcome: Outcome::Value { state: 42 } })]);
}

#[test]
fn heartbeats_are_acked() {
    let mut n = Node::new(1, 8, 5);
    link(&mut n, 2);
    let hb = Message { tx: 0, origin: 2, sender: 2, hops: 0, visited: vec![], payload: Payload::Heartbeat };
    match n.handle(&hb, 5, 10) {
        Handled::Send { to, msg } => {
            assert_eq!(to, 2);
            assert_eq!(msg.payload, Payload::HeartbeatAck);
        }
        _ => panic!("a heartbeat is answered"),
    }
    let ack = Message { tx: 0, origin: 2, sender: 2, hops: 0, visited: vec![], payload: Payload::HeartbeatAck };
    assert!(matches!(n.handle(&ack, 30, 40), Handled::Absorbed));
    assert_eq!(n.registry.snapshot()[0].last_heartbeat, 30);
}
