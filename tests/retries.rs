use freenet2_node::retry::{backoff, retry_pass, retry_step, tick, RetryAction, RetryConfig};
use freenet2_node::store::{OpKind, OperationStateStore, Transaction, TxStatus};

fn tx(id: u64) -> Transaction {
    Transaction {
        id,
        kind: OpKind::Put,
        originator: 1,
        target: 50,
        deadline: u64::MAX,
        retries: 0,
        last_send: 0,
        peer: 77,
        reply_to: 1,
        hops: 0,
        status: TxStatus::InFlight,
        cancelled: false,
    }
}

#[test]
fn backoff_doubles_up_to_the_cap() {
    let cfg = RetryConfig { base: 10, cap: 80, max_retries: 3 };
    assert_eq!(backoff(cfg, 0), 10);
    assert_eq!(backoff(cfg, 1), 20);
    assert_eq!(backoff(cfg, 2), 40);
    assert_eq!(backoff(cfg, 3), 80);
    assert_eq!(backoff(cfg, 4), 80);
    assert_eq!(backoff(cfg, 1000), 80);
    let big = RetryConfig { base: u64::MAX, cap: u64::MAX, max_retries: 0 };
    assert_eq!(backoff(big, 5), u64::MAX);
}

#[test]
fn nothing_is_resent_before_the_backoff() {
    let cfg = RetryConfig { base: 10, cap: 80, max_retries: 3 };
    let (t, a) = retry_step(tx(1), 9, cfg);
    assert_eq!(a, RetryAction::Wait);
    assert_eq!(t, tx(1));
    let (t, a) = retry_step(tx(1), 10, cfg);
    assert_eq!(a, RetryAction::Resend { peer: 77 });
    assert_eq!(t.retries, 1);
    assert_eq!(t.last_send, 10);
}

#[test]
fn failing_sends_exhaust_the_retries() {
    let cfg = RetryConfig { base: 10, cap: 80, max_retries: 3 };
    let mut s = OperationStateStore::new();
    s.create(tx(1)).unwrap();
    let mut now = 0u64;
    for pass in 1..=3u64 {
        now += 1000;
        let acts = retry_pass(&mut s, now, cfg);
        assert_eq!(acts, vec![(1, RetryAction::Resend { peer: 77 })]);
        let t = s.get(1).unwrap();
        assert_eq!(t.retries, pass);
        assert_eq!(t.status, TxStatus::InFlight);
    }
    now += 1000;
    let acts = retry_pass(&mut s, now, cfg);
    assert_eq!(acts, vec![(1, RetryAction::GiveUp)]);
    let t = s.get(1).unwrap();
    assert_eq!(t.retries, 4);
    assert_eq!(t.status, TxStatus::Failed);
    now += 1000;
    assert_eq!(retry_pass(&mut s, now, cfg), vec![(1, RetryAction::Wait)]);
    assert_eq!(s.sweep(now), Vec::<u64>::new());
    assert!(s.get(1).is_none());
}

#[test]
fn tick_retries_then_times_out() {
    let cfg = RetryConfig { base: 10, cap: 80, max_retries: 1 };
    let mut s = OperationStateStore::new();
    let mut short = tx(1);
    short.deadline = 50;
    s.create(short).unwrap();
    s.create(tx(2)).unwrap();
    let (acts, gone) = tick(&mut s, 20, cfg);
    assert_eq!(acts, vec![(1, RetryAction::Resend { peer: 77 }), (2, RetryAction::Resend { peer: 77 })]);
    assert_eq!(gone, Vec::<u64>::new());
    let (acts, gone) = tick(&mut s, 60, cfg);
    assert_eq!(acts, vec![(1, RetryAction::GiveUp), (2, RetryAction::GiveUp)]);
    assert_eq!(gone, Vec::<u64>::new());
    assert!(s.get(1).is_none());
    assert!(s.get(2).is_none());
    s.create(tx(3)).unwrap();
    let mut late = tx(4);
    late.deadline = 70;
    late.last_send = 65;
    s.create(late).unwrap();
    let (_, gone) = tick(&mut s, 70, cfg);
    assert_eq!(gone, vec![4]);
}
