use vstd::prelude::*;

use crate::store::{expired_ids, kept_after, OperationStateStore, Transaction, TxStatus};

verus! {

/// Backoff and retry limits: the wait before the first re-send is `base`,
/// and doubles with each retry up to `cap`; a transaction fails once its
/// retry count exceeds `max_retries`.
#[derive(Clone, Copy, Debug, PartialEq, Eq, Structural)]
pub struct RetryConfig {
    pub base: u64,
    pub cap: u64,
    pub max_retries: u32,
}

/// `min(base * 2^n, cap)`.
pub open spec fn backoff_spec(cfg: RetryConfig, n: nat) -> int
    decreases n,
{
    if n == 0 {
        if cfg.base <= cfg.cap {
            cfg.base as int
        } else {
            cfg.cap as int
        }
    } else {
        let prev = backoff_spec(cfg, (n - 1) as nat);
        if 2 * prev <= cfg.cap {
            2 * prev
        } else {
            cfg.cap as int
        }
    }
}

proof fn lemma_backoff_bounded(cfg: RetryConfig, n: nat)
    ensures
        0 <= backoff_spec(cfg, n) <= cfg.cap,
    decreases n,
{
    if n > 0 {
        lemma_backoff_bounded(cfg, (n - 1) as nat);
    }
}

proof fn lemma_backoff_stays_at_cap(cfg: RetryConfig, i: nat, n: nat)
    requires
        i <= n,
        backoff_spec(cfg, i) == cfg.cap,
    ensures
        backoff_spec(cfg, n) == cfg.cap,
    decreases n - i,
{
    if i < n {
        lemma_backoff_bounded(cfg, (n - 1) as nat);
        lemma_backoff_stays_at_cap(cfg, i, (n - 1) as nat);
    }
}

/// The wait after `retries` retries.
pub fn backoff(cfg: RetryConfig, retries: u64) -> (r: u64)
    ensures
        r == backoff_spec(cfg, retries as nat),
{
    let mut b: u64 = if cfg.base <= cfg.cap {
        cfg.base
    } else {
        cfg.cap
    };
    let mut i: u64 = 0;
    while i < retries && b < cfg.cap
        invariant
            i <= retries,
            b == backoff_spec(cfg, i as nat),
        decreases retries - i,
    {
        proof {
            lemma_backoff_bounded(cfg, i as nat);
        }
        b = if b > cfg.cap / 2 {
            cfg.cap
        } else {
            2 * b
        };
        i += 1;
    }
    proof {
        lemma_backoff_bounded(cfg, i as nat);
        if i < retries {
            lemma_backoff_stays_at_cap(cfg, i as nat, retries as nat);
        }
    }
    b
}

/// What a retry pass asks of the sender for one transaction.
#[derive(Clone, Copy, Debug, PartialEq, Eq, Structural)]
pub enum RetryAction {
    /// Nothing is due.
    Wait,
    /// Send the last message to `peer` again.
    Resend { peer: u64 },
    /// The retries are spent: the transaction has failed.
    GiveUp,
}

/// A re-send of `t` is due at time `now`.
pub open spec fn due(t: Transaction, now: u64, cfg: RetryConfig) -> bool {
    &&& t.status == TxStatus::InFlight
    &&& !t.cancelled
    &&& now >= t.last_send + backoff_spec(cfg, t.retries as nat)
}

/// One more retry of `t` at time `now`: past `max_retries` it fails,
/// otherwise it is sent again.
pub open spec fn bump(t: Transaction, now: u64, cfg: RetryConfig) -> Transaction {
    if t.retries >= cfg.max_retries {
        Transaction { retries: (cfg.max_retries + 1) as u64, status: TxStatus::Failed, ..t }
    } else {
        Transaction { retries: (t.retries + 1) as u64, last_send: now, ..t }
    }
}

pub open spec fn retry_spec(t: Transaction, now: u64, cfg: RetryConfig) -> (
    Transaction,
    RetryAction,
) {
    if !due(t, now, cfg) {
        (t, RetryAction::Wait)
    } else {
        let n = bump(t, now, cfg);
        if n.status == TxStatus::Failed {
            (n, RetryAction::GiveUp)
        } else {
            (n, RetryAction::Resend { peer: t.peer })
        }
    }
}

/// The retry decision for one transaction at time `now`.
pub fn retry_step(t: Transaction, now: u64, cfg: RetryConfig) -> (r: (Transaction, RetryAction))
    ensures
        r == retry_spec(t, now, cfg),
{
    let wait = backoff(cfg, t.retries);
    let is_due = t.status == TxStatus::InFlight && !t.cancelled && t.last_send <= now && now
        - t.last_send >= wait;
    if !is_due {
        (t, RetryAction::Wait)
    } else if t.retries >= cfg.max_retries as u64 {
        (Transaction { retries: cfg.max_retries as u64 + 1, status: TxStatus::Failed, ..t }, RetryAction::GiveUp)
    } else {
        (Transaction { retries: t.retries + 1, last_send: now, ..t }, RetryAction::Resend { peer: t.peer })
    }
}

/// `k` retries in a row, each one due, at time `now`.
pub open spec fn after_bumps(t: Transaction, now: u64, cfg: RetryConfig, k: nat) -> Transaction
    decreases k,
{
    if k == 0 {
        t
    } else {
        bump(after_bumps(t, now, cfg, (k - 1) as nat), now, cfg)
    }
}

/// When every send fails, each pass whose backoff has elapsed performs one
/// `bump`. A transaction in flight with `r0 <= max_retries` retries counts one
/// more retry per such pass and stays in flight while the count is at most
/// `max_retries`; the pass that takes it to `max_retries + 1` fails it.
pub proof fn lemma_retries_exhaust(t: Transaction, now: u64, cfg: RetryConfig)
    requires
        t.retries <= cfg.max_retries,
        t.status == TxStatus::InFlight,
    ensures
        forall|n: Transaction|
            #![trigger retry_spec(n, now, cfg)]
            due(n, now, cfg) ==> retry_spec(n, now, cfg).0 == bump(n, now, cfg),
        forall|k: nat|
            #![trigger after_bumps(t, now, cfg, k)]
            t.retries + k <= cfg.max_retries ==> after_bumps(t, now, cfg, k).retries == t.retries + k
                && after_bumps(t, now, cfg, k).status == TxStatus::InFlight,
        after_bumps(t, now, cfg, (cfg.max_retries + 1 - t.retries) as nat).status
            == TxStatus::Failed,
        after_bumps(t, now, cfg, (cfg.max_retries + 1 - t.retries) as nat).retries
            == cfg.max_retries + 1,
{
    assert forall|k: nat|
        #![trigger after_bumps(t, now, cfg, k)]
        t.retries + k <= cfg.max_retries implies after_bumps(t, now, cfg, k).retries == t.retries
        + k && after_bumps(t, now, cfg, k).status == TxStatus::InFlight by {
        lemma_bumps_below(t, now, cfg, k);
    }
    lemma_bumps_below(t, now, cfg, (cfg.max_retries - t.retries) as nat);
}

proof fn lemma_bumps_below(t: Transaction, now: u64, cfg: RetryConfig, k: nat)
    requires
        t.retries <= cfg.max_retries,
        t.status == TxStatus::InFlight,
        t.retries + k <= cfg.max_retries,
    ensures
        after_bumps(t, now, cfg, k).retries == t.retries + k,
        after_bumps(t, now, cfg, k).status == TxStatus::InFlight,
    decreases k,
{
    if k > 0 {
        lemma_bumps_below(t, now, cfg, (k - 1) as nat);
    }
}

/// One retry pass over every live transaction at time `now`. Returns, in
/// store order, each transaction's id with what to do for it.
pub fn retry_pass(store: &mut OperationStateStore, now: u64, cfg: RetryConfig) -> (r: Vec<
    (u64, RetryAction),
>)
    requires
        old(store).wf(),
    ensures
        final(store).wf(),
        final(store).seen@ == old(store).seen@,
        final(store).live@ == old(store).live@.map_values(
            |t: Transaction| retry_spec(t, now, cfg).0,
        ),
        r@ == old(store).live@.map_values(|t: Transaction| (t.id, retry_spec(t, now, cfg).1)),
{
    let ghost all = store.live@;
    let mut out: Vec<(u64, RetryAction)> = Vec::new();
    let mut i: usize = 0;
    while i < store.live.len()
        invariant
            store.seen@ == old(store).seen@,
            store.live@.len() == all.len(),
            i <= all.len(),
            all == old(store).live@,
            old(store).wf(),
            forall|j: int| 0 <= j < i ==> #[trigger] store.live@[j] == retry_spec(all[j], now, cfg).0,
            forall|j: int| i <= j < all.len() ==> #[trigger] store.live@[j] == all[j],
            out@.len() == i,
            forall|j: int| 0 <= j < i ==> #[trigger] out@[j] == (all[j].id, retry_spec(all[j], now, cfg).1),
        decreases all.len() - i,
    {
        let t = store.live[i];
        let (n, a) = retry_step(t, now, cfg);
        store.live[i] = n;
        out.push((t.id, a));
        i += 1;
    }
    assert(store.live@ =~= all.map_values(|t: Transaction| retry_spec(t, now, cfg).0));
    assert(out@ =~= all.map_values(|t: Transaction| (t.id, retry_spec(t, now, cfg).1)));
    proof {
        assert forall|j: int| 0 <= j < store.live@.len() implies store.seen@.contains(
            #[trigger] store.live@[j].id,
        ) by {
            assert(store.live@[j].id == all[j].id);
            assert(old(store).seen@.contains(all[j].id));
        }
        assert forall|a: int, b: int|
            0 <= a < store.live@.len() && 0 <= b < store.live@.len() && a != b
                implies #[trigger] store.live@[a].id != #[trigger] store.live@[b].id by {
            assert(store.live@[a].id == all[a].id);
            assert(store.live@[b].id == all[b].id);
        }
    }
    out
}

/// One periodic sweep at time `now`: the retry pass, then the deadline
/// sweep over what it left. Returns the retry actions and the ids that timed
/// out.
pub fn tick(store: &mut OperationStateStore, now: u64, cfg: RetryConfig) -> (r: (
    Vec<(u64, RetryAction)>,
    Vec<u64>,
))
    requires
        old(store).wf(),
    ensures
        final(store).wf(),
        final(store).seen@ == old(store).seen@,
        r.0@ == old(store).live@.map_values(|t: Transaction| (t.id, retry_spec(t, now, cfg).1)),
        final(store).live@ == kept_after(
            old(store).live@.map_values(|t: Transaction| retry_spec(t, now, cfg).0),
            now,
        ),
        r.1@ == expired_ids(
            old(store).live@.map_values(|t: Transaction| retry_spec(t, now, cfg).0),
            now,
        ),
{
    let actions = retry_pass(store, now, cfg);
    let timed_out = store.sweep(now);
    (actions, timed_out)
}

} // verus!
