use freenet2_node::errors::{RoutingError, StateError};
use freenet2_node::message::Payload;
use freenet2_node::node::{Delivery, Node, Outcome, Start};
use freenet2_node::registry::Address;

fn addr(port: u16) -> Address {
    Address { host: 0x0a00_0002, port }
}

fn link(a: &mut Node, b: u64) {
    a.registry.accept(b, addr(b as u16), true, 0).unwrap();
}

#[test]
fn join_is_forwarded_to_a_closer_peer() {
    let (a_id, b_id, c_id) = (0u64, 9u64, 8u64);
    let mut a = Node::new(a_id, 1, 5);
    let mut b = Node::new(b_id, 4, 5);
    let mut c = Node::new(c_id, 4, 5);
    link(&mut a, b_id);
    link(&mut b, a_id);

    let (to, m) = c.start_join(1, a_id, 0, 100).unwrap();
    assert_eq!(to, a_id);
    assert_eq!(m.payload, Payload::JoinRequest { target: c_id });

    let (to, m) = a.on_join_request(m.tx, m.origin, c_id, m.hops, &m.visited);
    assert_eq!(to, b_id);
    assert_eq!(m.payload, Payload::JoinRequest { target: c_id });
    assert_eq!(m.hops, 1);
    assert_eq!(m.visited, vec![c_id, a_id]);

    let (to, m) = b.on_join_request(m.tx, m.origin, c_id, m.hops, &m.visited);
    assert_eq!(to, c_id);
    assert_eq!(m.payload, Payload::JoinAck { accepting: b_id });

    let d = c.on_reply(m.tx, m.payload);
    assert_eq!(d, Delivery::Done { outcome: Outcome::Joined { peer: b_id } });
    assert!(c.store.get(1).is_none());
    assert_eq!(c.start_join(1, a_id, 0, 100).err(), Some(StateError::AlreadyExists));
}

#[test]
fn join_fails_past_the_hop_budget() {
    let mut a = Node::new(0, 0, 2);
    link(&mut a, 9);
    let (to, m) = a.on_join_request(1, 8, 8, 2, &vec![8]);
    assert_eq!(to, 8);
    assert_eq!(m.payload, Payload::Nack { reason: RoutingError::MaxHopsExceeded });
    let (to, m) = a.on_join_request(1, 8, 8, 0, &vec![8, 9]);
    assert_eq!(to, 8);
    assert_eq!(m.payload, Payload::Nack { reason: RoutingError::NoCandidatePeers });
}

#[test]
fn put_then_get_round_trip() {
    let (a_id, b_id) = (100u64, 200u64);
    let mut a = Node::new(a_id, 8, 5);
    let mut b = Node::new(b_id, 8, 5);
    link(&mut a, b_id);
    link(&mut b, a_id);
    let key = 101u64;

    match a.start_put(1, key, 42, 0, 100).unwrap() {
        Start::Done { outcome } => assert_eq!(outcome, Outcome::Stored),
        Start::Send { .. } => panic!("the store should be applied at the nearest node"),
    }
    assert_eq!(a.cache.resolve_locally(key), Some(42));

    let (to, m) = match b.start_get(2, key, 0, 100).unwrap() {
        Start::Send { to, msg } => (to, msg),
        Start::Done { .. } => panic!("the fetch should be sent"),
    };
    assert_eq!(to, a_id);
    let (to, m) = a.on_get_request(m.tx, m.origin, key, m.hops, &m.visited);
    assert_eq!(to, b_id);
    assert_eq!(m.payload, Payload::GetResponse { state: 42 });
    let d = b.on_reply(m.tx, m.payload);
    assert_eq!(d, Delivery::Done { outcome: Outcome::Value { state: 42 } });
    assert!(b.store.get(2).is_none());

    let (to, m) = match b.start_get(3, 555, 0, 100).unwrap() {
        Start::Send { to, msg } => (to, msg),
        Start::Done { .. } => panic!("the fetch should be sent"),
    };
    assert_eq!(to, a_id);
    let (to, m) = a.on_get_request(m.tx, m.origin, 555, m.hops, &m.visited);
    assert_eq!(to, b_id);
    assert_eq!(m.payload, Payload::Nack { reason: RoutingError::NoCandidatePeers });
    let d = b.on_reply(m.tx, m.payload);
    assert_eq!(d, Delivery::Done { outcome: Outcome::Failed { error: RoutingError::NoCandidatePeers } });
}

#[test]
fn get_without_peers_is_not_found() {
    let mut lone = Node::new(5, 8, 5);
    match lone.start_get(1, 6, 0, 10).unwrap() {
        Start::Done { outcome } => {
            assert_eq!(outcome, Outcome::Failed { error: RoutingError::NoCandidatePeers })
        }
        Start::Send { .. } => panic!("nothing to send to"),
    }
    assert!(lone.start_get(1, 6, 0, 10).is_err());
}

#[test]
fn put_ack_is_relayed_back_to_the_originator() {
    let (o_id, m_id, t_id) = (0u64, 64u64, 65u64);
    let key = 65u64;
    let mut o = Node::new(o_id, 8, 5);
    let mut mid = Node::new(m_id, 8, 5);
    let mut t = Node::new(t_id, 8, 5);
    link(&mut o, m_id);
    link(&mut mid, o_id);
    link(&mut mid, t_id);
    link(&mut t, m_id);

    let (to, m) = match o.start_put(7, key, 9, 0, 100).unwrap() {
        Start::Send { to, msg } => (to, msg),
        Start::Done { .. } => panic!("the store should be sent"),
    };
    assert_eq!(to, m_id);
    let (to, m) = mid
        .on_put_request(m.tx, m.origin, m.sender, key, 9, m.hops, &m.visited, 0, 100)
        .unwrap();
    assert_eq!(to, t_id);
    assert_eq!(m.payload, Payload::PutRequest { key, value: 9 });
    let (to, m) = t
        .on_put_request(m.tx, m.origin, m.sender, key, 9, m.hops, &m.visited, 0, 100)
        .unwrap();
    assert_eq!(to, m_id);
    assert_eq!(m.payload, Payload::PutAck);
    assert_eq!(t.cache.resolve_locally(key), Some(9));
    assert_eq!(mid.cache.resolve_locally(key), None);

    assert_eq!(mid.on_reply(7, Payload::PutAck), Delivery::Relay { to: o_id });
    assert_eq!(o.on_reply(7, Payload::PutAck), Delivery::Done { outcome: Outcome::Stored });
    assert_eq!(o.on_reply(7, Payload::PutAck), Delivery::Discarded);
}

#[test]
fn one_ack_settles_a_store() {
    let mut o = Node::new(0, 8, 5);
    link(&mut o, 64);
    assert!(matches!(o.start_put(1, 65, 3, 0, 100).unwrap(), Start::Send { .. }));
    assert_eq!(o.on_reply(1, Payload::PutAck), Delivery::Done { outcome: Outcome::Stored });
    assert!(o.store.get(1).is_none());
    assert_eq!(o.on_reply(1, Payload::PutAck), Delivery::Discarded);
}

#[test]
fn late_reply_after_cancel_is_discarded() {
    let mut b = Node::new(200, 8, 5);
    link(&mut b, 100);
    assert!(matches!(b.start_get(4, 101, 0, 100).unwrap(), Start::Send { .. }));
    b.store.cancel(4).unwrap();
    assert_eq!(b.on_reply(4, Payload::GetResponse { state: 1 }), Delivery::Discarded);
    assert_eq!(b.store.sweep(1), Vec::<u64>::new());
    assert!(b.store.get(4).is_none());
    assert_eq!(b.on_reply(4, Payload::GetResponse { state: 1 }), Delivery::Discarded);
    assert!(b.store.get(4).is_none());
    assert!(b.start_get(4, 101, 0, 100).is_err());
}

#[test]
fn reply_of_the_wrong_kind_is_discarded() {
    let mut b = Node::new(200, 8, 5);
    link(&mut b, 100);
    assert!(matches!(b.start_get(4, 101, 0, 100).unwrap(), Start::Send { .. }));
    assert_eq!(b.on_reply(4, Payload::JoinAck { accepting: 100 }), Delivery::Discarded);
    assert_eq!(b.on_reply(4, Payload::Heartbeat), Delivery::Discarded);
    assert!(b.store.get(4).is_some());
}
