use freenet2_node::registry::{Address, ConnState, PeerRegistry};
use freenet2_node::ring::{closest_peer, closest_peers, distance};

fn addr(port: u16) -> Address {
    Address { host: 0x7f00_0001, port }
}

fn open_registry(peers: &[u64]) -> PeerRegistry {
    let mut reg = PeerRegistry::new();
    for &p in peers {
        reg.accept(p, addr(1000), true, 0).unwrap();
    }
    reg
}

#[test]
fn distance_is_symmetric_and_zero_on_self() {
    assert_eq!(distance(5, 9), distance(9, 5));
    assert_eq!(distance(5, 9), 12);
    assert_eq!(distance(7, 7), 0);
    assert_eq!(distance(u64::MAX, 0), u64::MAX);
    assert_ne!(distance(1, 2), 0);
}

#[test]
fn closest_peers_are_sorted_and_bounded() {
    let reg = open_registry(&[16, 3, 9, 1]);
    let r = closest_peers(&reg, 0, 3, &vec![]);
    assert_eq!(r, vec![1, 3, 9]);
    let all = closest_peers(&reg, 0, 10, &vec![]);
    assert_eq!(all, vec![1, 3, 9, 16]);
    assert_eq!(closest_peers(&reg, 0, 0, &vec![]), Vec::<u64>::new());
}

#[test]
fn closest_peers_skip_excluded_and_non_open() {
    let mut reg = open_registry(&[1, 3]);
    reg.register(2, addr(2000), 0);
    assert_eq!(reg.snapshot()[2].state, ConnState::Connecting);
    assert_eq!(closest_peers(&reg, 0, 5, &vec![1]), vec![3]);
    assert_eq!(closest_peer(&reg, 2, &vec![]), Some(3));
    assert_eq!(closest_peer(&reg, 0, &vec![1, 3]), None);
    let empty = PeerRegistry::new();
    assert_eq!(closest_peer(&empty, 0, &vec![]), None);
}
