use freenet2_node::message::Payload;
use freenet2_node::node::Node;
use freenet2_node::registry::{Address, ConnState, HeartbeatConfig};
use freenet2_node::subscribe::SubscriptionTable;

fn link(a: &mut Node, b: u64) {
    a.registry.accept(b, Address { host: 3, port: b as u16 }, true, 0).unwrap();
}

#[test]
fn table_records_and_withdraws_interests() {
    let mut t = SubscriptionTable::new();
    assert!(t.subscribe(1, 10));
    assert!(!t.subscribe(1, 10));
    assert!(t.subscribe(2, 10));
    assert!(t.subscribe(1, 11));
    let mut subs = t.subscribers(10);
    subs.sort();
    assert_eq!(subs, vec![1, 2]);
    t.unsubscribe(1, 10);
    assert_eq!(t.subscribers(10), vec![2]);
    assert_eq!(t.subscribers(11), vec![1]);
    t.prune_peer(1);
    assert_eq!(t.subscribers(11), Vec::<u64>::new());
    assert_eq!(t.subscribers(10), vec![2]);
}

#[test]
fn subscribe_travels_toward_the_key() {
    let mut mid = Node::new(64, 8, 5);
    link(&mut mid, 0);
    link(&mut mid, 65);
    let (to, m) = mid.on_subscribe(1, 0, 0, 65, 0, &vec![0]).unwrap();
    assert_eq!(to, 65);
    assert_eq!(m.payload, Payload::Subscribe { key: 65 });
    assert_eq!(m.visited, vec![0, 64]);
    assert_eq!(mid.subs.subscribers(65), vec![0]);

    let mut end = Node::new(65, 8, 5);
    link(&mut end, 64);
    assert!(end.on_subscribe(1, 0, 64, 65, 1, &vec![0, 64]).is_none());
    assert_eq!(end.subs.subscribers(65), vec![64]);
    end.on_unsubscribe(64, 65);
    assert_eq!(end.subs.subscribers(65), Vec::<u64>::new());
}

#[test]
fn closing_a_link_prunes_its_interests() {
    let mut n = Node::new(64, 8, 5);
    link(&mut n, 1);
    link(&mut n, 2);
    n.on_subscribe(1, 1, 1, 64, 0, &vec![1]);
    n.on_subscribe(2, 2, 2, 64, 0, &vec![2]);
    n.on_link_closed(1);
    assert_eq!(n.subs.subscribers(64), vec![2]);
    assert_eq!(n.registry.snapshot().len(), 1);

    let cfg = HeartbeatConfig { stale_after: 1, close_after: 1 };
    assert_eq!(n.on_heartbeat_missed(2, cfg), Ok(ConnState::Stale));
    assert_eq!(n.subs.subscribers(64), vec![2]);
    assert_eq!(n.on_heartbeat_missed(2, cfg), Ok(ConnState::Closed));
    assert_eq!(n.subs.subscribers(64), Vec::<u64>::new());
    assert_eq!(n.registry.snapshot().len(), 0);
}
