use freenet2_node::errors::NetworkError;
use freenet2_node::registry::{
    can_transition, miss, Address, ConnState, HandshakeResult, HeartbeatConfig, PeerRegistry,
    UpdateError,
};
use freenet2_node::ring::closest_peers;

fn addr(port: u16) -> Address {
    Address { host: 0x0a00_0001, port }
}

#[test]
fn register_is_idempotent_and_refreshes_address() {
    let mut reg = PeerRegistry::new();
    reg.register(7, addr(1), 5);
    reg.register(7, addr(2), 9);
    let snap = reg.snapshot();
    assert_eq!(snap.len(), 1);
    assert_eq!(snap[0].addr, addr(2));
    assert_eq!(snap[0].state, ConnState::Connecting);
    assert_eq!(snap[0].last_heartbeat, 5);
}

#[test]
fn lifecycle_steps_and_removal() {
    let mut reg = PeerRegistry::new();
    reg.register(4, addr(1), 0);
    assert_eq!(reg.update_state(4, ConnState::Closed), Err(UpdateError::IllegalTransition));
    assert_eq!(reg.update_state(4, ConnState::Open), Ok(()));
    assert_eq!(reg.update_state(4, ConnState::Closing), Ok(()));
    assert_eq!(reg.update_state(4, ConnState::Open), Err(UpdateError::IllegalTransition));
    assert_eq!(reg.update_state(4, ConnState::Closed), Ok(()));
    assert_eq!(reg.snapshot().len(), 0);
    assert_eq!(reg.update_state(4, ConnState::Open), Err(UpdateError::UnknownPeer));
    assert!(can_transition(ConnState::Stale, ConnState::Open));
    assert!(!can_transition(ConnState::Connecting, ConnState::Stale));
}

#[test]
fn remove_and_abrupt_failure_forget_the_peer() {
    let mut reg = PeerRegistry::new();
    reg.accept(1, addr(1), true, 0).unwrap();
    reg.accept(2, addr(2), true, 0).unwrap();
    assert!(reg.fail(1));
    assert!(!reg.fail(1));
    assert!(reg.remove(2));
    assert!(!reg.remove(2));
    assert_eq!(reg.snapshot().len(), 0);
}

#[test]
fn handshake_with_bad_proof_fails() {
    let mut reg = PeerRegistry::new();
    assert_eq!(reg.accept(3, addr(3), false, 0), Err(NetworkError::HandshakeFailed));
    assert_eq!(reg.snapshot().len(), 0);
    reg.register(3, addr(3), 0);
    assert_eq!(reg.accept(3, addr(4), true, 1), Ok(()));
    let e = reg.snapshot()[0];
    assert_eq!(e.state, ConnState::Open);
    assert_eq!(e.addr, addr(4));
}

#[test]
fn missed_heartbeats_go_stale_then_closed() {
    let cfg = HeartbeatConfig { stale_after: 3, close_after: 2 };
    let mut reg = PeerRegistry::new();
    reg.accept(9, addr(9), true, 0).unwrap();
    reg.accept(12, addr(12), true, 0).unwrap();
    assert_eq!(reg.heartbeat_missed(9, cfg), Ok(ConnState::Open));
    assert_eq!(reg.heartbeat_missed(9, cfg), Ok(ConnState::Open));
    assert_eq!(reg.heartbeat_missed(9, cfg), Ok(ConnState::Stale));
    assert_eq!(closest_peers(&reg, 8, 4, &vec![]), vec![12]);
    assert_eq!(reg.heartbeat_missed(9, cfg), Ok(ConnState::Stale));
    assert_eq!(reg.heartbeat_missed(9, cfg), Ok(ConnState::Closed));
    assert_eq!(reg.snapshot().len(), 1);
    assert_eq!(closest_peers(&reg, 8, 4, &vec![]), vec![12]);
    assert_eq!(reg.heartbeat_missed(9, cfg), Err(UpdateError::UnknownPeer));
}

#[test]
fn ack_recovers_a_stale_link() {
    let cfg = HeartbeatConfig { stale_after: 1, close_after: 5 };
    let mut reg = PeerRegistry::new();
    reg.accept(9, addr(9), true, 0).unwrap();
    assert_eq!(reg.heartbeat_missed(9, cfg), Ok(ConnState::Stale));
    assert_eq!(reg.heartbeat_acked(9, 40), Ok(ConnState::Open));
    let e = reg.snapshot()[0];
    assert_eq!(e.missed_acks, 0);
    assert_eq!(e.last_heartbeat, 40);
    assert_eq!(miss(ConnState::Open, 0, cfg), (ConnState::Stale, 0));
    assert_eq!(miss(ConnState::Closing, 4, cfg), (ConnState::Closing, 4));
}

#[test]
fn outbound_connect_reports_each_failure() {
    let mut reg = PeerRegistry::new();
    assert_eq!(reg.connect(5, addr(5), HandshakeResult::TransportFailed, 0), Err(NetworkError::Unreachable));
    assert_eq!(reg.connect(5, addr(5), HandshakeResult::NoResponse, 0), Err(NetworkError::Timeout));
    assert_eq!(reg.connect(5, addr(5), HandshakeResult::BadProof, 0), Err(NetworkError::HandshakeFailed));
    assert_eq!(reg.snapshot().len(), 0);
    assert_eq!(reg.connect(5, addr(5), HandshakeResult::Verified, 3), Ok(()));
    let e = reg.snapshot()[0];
    assert_eq!(e.state, ConnState::Open);
    assert_eq!(e.last_heartbeat, 3);
}
