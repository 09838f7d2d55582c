use freenet2_node::identity::location_of;
use freenet2_node::errors::NetworkError;
use freenet2_node::in_memory::{InMemory, InitPeerNode, NodeConfig, NO_GATEWAY};
use freenet2_node::link::Link;
use freenet2_node::message::{with_hop, Message, Payload};
use freenet2_node::registry::{Address, ConnState};

fn msg(tx: u64) -> Message {
    Message { tx, origin: 1, sender: 1, hops: 0, visited: vec![], payload: Payload::Heartbeat }
}

#[test]
fn build_needs_an_address_or_a_gateway() {
    assert!(InMemory::build(NodeConfig::new(1)).is_err());
    assert!(InMemory::build(NodeConfig::new(1).with_address(0x7f00_0001, 0)).is_err() == false);
    let gw = InitPeerNode { peer: 77, addr: Address { host: 1, port: 2 } };
    let node = InMemory::build(NodeConfig::new(1).with_gateway(gw)).unwrap();
    assert_eq!(node.peer, 1);
    assert!(node.listening);
    let snap = node.node.registry.snapshot();
    assert_eq!(snap.len(), 1);
    assert_eq!(snap[0].peer, 77);
    assert_eq!(snap[0].state, ConnState::Connecting);
}

#[test]
fn listen_on_refuses_a_closed_node() {
    let mut node = InMemory::build(NodeConfig::new(3).with_address(1, 8080)).unwrap();
    assert_eq!(node.listen_on(), Ok(()));
    node.listening = false;
    assert_eq!(node.listen_on(), Err(()));
}

#[test]
fn mailbox_pushes_back_when_full() {
    let mut l = Link::new(5, 2);
    assert_eq!(l.send(msg(1)), Err(NetworkError::TransportClosed));
    l.state = ConnState::Open;
    assert_eq!(l.send(msg(1)), Ok(()));
    assert_eq!(l.send(msg(2)), Ok(()));
    assert_eq!(l.send(msg(3)), Err(NetworkError::ResourceExhausted));
    let out = l.drain();
    assert_eq!(out.len(), 2);
    assert_eq!(out[0].tx, 1);
    assert_eq!(out[1].tx, 2);
    assert_eq!(l.send(msg(4)), Ok(()));
    l.state = ConnState::Closed;
    assert_eq!(l.send(msg(5)), Err(NetworkError::TransportClosed));
}

#[test]
fn hop_is_appended() {
    assert_eq!(with_hop(&vec![1, 2], 3), vec![1, 2, 3]);
    assert_eq!(with_hop(&vec![], 9), vec![9]);
}

#[test]
fn location_reads_the_last_eight_bytes() {
    assert_eq!(location_of(&vec![]), 0);
    assert_eq!(location_of(&vec![1, 2]), 258);
    assert_eq!(location_of(&vec![0xff, 0xff, 1, 2, 3, 4, 5, 6, 7, 8]), 0x0102_0304_0506_0708);
    assert_eq!(location_of(&vec![0xff; 8]), u64::MAX);
}

#[test]
fn refused_build_names_the_missing_gateway() {
    let e = InMemory::build(NodeConfig::new(0)).err();
    assert_eq!(e, Some(NO_GATEWAY));
    assert_eq!(
        e,
        Some("At least one remote gateway is required to join an existing network for non-gateway nodes.")
    );
    assert!(InMemory::build(NodeConfig::new(0).with_address(1, 0)).is_ok());
}

#[test]
fn built_node_is_fresh() {
    let a = InitPeerNode { peer: 5, addr: Address { host: 1, port: 1 } };
    let b = InitPeerNode { peer: 6, addr: Address { host: 1, port: 2 } };
    let mut m = InMemory::build(NodeConfig::new(9).with_gateway(a).with_gateway(b).with_gateway(a)).unwrap();
    let snap = m.node.registry.snapshot();
    assert_eq!(snap.len(), 2);
    assert!(snap.iter().all(|e| e.state == ConnState::Connecting));
    assert!(m.node.store.seen.is_empty());
    assert!(m.node.store.live.is_empty());
    m.listening = false;
    assert_eq!(m.listen_on(), Err(()));
    assert_eq!(m.node.registry.snapshot().len(), 2);
}
