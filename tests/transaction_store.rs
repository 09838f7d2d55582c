use freenet2_node::errors::StateError;
use freenet2_node::store::{OpKind, OperationStateStore, Transaction, TxStatus};

fn tx(id: u64, deadline: u64) -> Transaction {
    Transaction {
        id,
        kind: OpKind::Get,
        originator: 1,
        target: 50,
        deadline,
        retries: 0,
        last_send: 0,
        peer: 2,
        reply_to: 1,
        hops: 0,
        status: TxStatus::InFlight,
        cancelled: false,
    }
}

#[test]
fn reused_id_is_refused() {
    let mut s = OperationStateStore::new();
    assert_eq!(s.create(tx(1, 100)), Ok(()));
    assert_eq!(s.create(tx(1, 100)), Err(StateError::AlreadyExists));
    assert_eq!(s.create(tx(2, 100)), Ok(()));
    assert!(s.remove(1).is_some());
    assert_eq!(s.create(tx(1, 100)), Err(StateError::AlreadyExists));
    assert!(s.get(1).is_none());
}

#[test]
fn update_and_missing_ids() {
    let mut s = OperationStateStore::new();
    assert_eq!(s.update(tx(3, 10)), Err(StateError::NotFound));
    assert_eq!(s.cancel(3), Err(StateError::NotFound));
    s.create(tx(3, 10)).unwrap();
    let mut t = tx(3, 10);
    t.hops = 4;
    assert_eq!(s.update(t), Ok(()));
    assert_eq!(s.get(3).unwrap().hops, 4);
}

#[test]
fn sweep_times_out_expired_and_drops_cancelled() {
    let mut s = OperationStateStore::new();
    s.create(tx(1, 10)).unwrap();
    s.create(tx(2, 50)).unwrap();
    s.create(tx(3, 5)).unwrap();
    s.create(tx(4, 100)).unwrap();
    s.cancel(4).unwrap();
    let mut done = tx(5, 100);
    done.status = TxStatus::Completed;
    s.create(done).unwrap();
    assert_eq!(s.sweep(10), vec![1, 3]);
    assert!(s.get(2).is_some());
    assert!(s.get(1).is_none());
    assert!(s.get(4).is_none());
    assert!(s.get(5).is_none());
    assert_eq!(s.sweep(20), Vec::<u64>::new());
    assert_eq!(s.sweep(50), vec![2]);
}
