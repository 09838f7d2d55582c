use vstd::prelude::*;

use crate::errors::StateError;

verus! {

/// The kind of distributed operation a transaction carries out.
#[derive(Clone, Copy, Debug, PartialEq, Eq, Structural)]
pub enum OpKind {
    Connect,
    Get,
    Put,
    Subscribe,
}

/// Where a transaction stands.
#[derive(Clone, Copy, Debug, PartialEq, Eq, Structural)]
pub enum TxStatus {
    Pending,
    InFlight,
    Completed,
    Failed,
    TimedOut,
}

pub open spec fn is_terminal(s: TxStatus) -> bool {
    s == TxStatus::Completed || s == TxStatus::Failed || s == TxStatus::TimedOut
}

/// One in-flight operation with its protocol state: the peer it was last
/// sent to, the peer that replies go back to, and the hops taken.
#[derive(Clone, Copy, Debug, PartialEq, Eq, Structural)]
pub struct Transaction {
    pub id: u64,
    pub kind: OpKind,
    pub originator: u64,
    pub target: u64,
    pub deadline: u64,
    pub retries: u64,
    pub last_send: u64,
    pub peer: u64,
    pub reply_to: u64,
    pub hops: u32,
    pub status: TxStatus,
    pub cancelled: bool,
}

/// Dropped by a sweep at time `now`: cancelled, finished, or past its deadline.
pub open spec fn swept(t: Transaction, now: u64) -> bool {
    t.cancelled || is_terminal(t.status) || t.deadline <= now
}

/// Reported as timed out by a sweep at time `now`.
pub open spec fn expired(t: Transaction, now: u64) -> bool {
    !t.cancelled && !is_terminal(t.status) && t.deadline <= now
}

pub open spec fn has_tx(s: Seq<Transaction>, id: u64) -> bool {
    exists|i: int| 0 <= i < s.len() && #[trigger] s[i].id == id
}

/// What a sweep at time `now` keeps of `s`.
pub open spec fn kept_after(s: Seq<Transaction>, now: u64) -> Seq<Transaction> {
    s.filter(|t: Transaction| !swept(t, now))
}

/// The ids that a sweep at time `now` reports as timed out, in order.
pub open spec fn expired_ids(s: Seq<Transaction>, now: u64) -> Seq<u64> {
    s.filter(|t: Transaction| expired(t, now)).map_values(|t: Transaction| t.id)
}

proof fn lemma_sweep_empty(now: u64)
    ensures
        kept_after(Seq::<Transaction>::empty(), now) == Seq::<Transaction>::empty(),
        expired_ids(Seq::<Transaction>::empty(), now) == Seq::<u64>::empty(),
{
    reveal(Seq::filter);
    assert(expired_ids(Seq::<Transaction>::empty(), now) =~= Seq::<u64>::empty());
}

proof fn lemma_sweep_step(s: Seq<Transaction>, now: u64)
    requires
        s.len() > 0,
    ensures
        kept_after(s, now) == if swept(s.last(), now) {
            kept_after(s.drop_last(), now)
        } else {
            kept_after(s.drop_last(), now).push(s.last())
        },
        expired_ids(s, now) == if expired(s.last(), now) {
            expired_ids(s.drop_last(), now).push(s.last().id)
        } else {
            expired_ids(s.drop_last(), now)
        },
{
    reveal(Seq::filter);
    let f = s.drop_last().filter(|t: Transaction| expired(t, now));
    if expired(s.last(), now) {
        assert(f.push(s.last()).map_values(|t: Transaction| t.id) =~= f.map_values(
            |t: Transaction| t.id,
        ).push(s.last().id));
    }
}

/// The live transactions, one state per id, and every id ever created.
pub struct OperationStateStore {
    pub live: Vec<Transaction>,
    pub seen: Vec<u64>,
}

impl OperationStateStore {
    pub open spec fn wf(&self) -> bool {
        &&& forall|i: int, j: int|
            0 <= i < self.live@.len() && 0 <= j < self.live@.len() && i != j
                ==> #[trigger] self.live@[i].id != #[trigger] self.live@[j].id
        &&& forall|i: int| 0 <= i < self.live@.len() ==> self.seen@.contains(#[trigger] self.live@[i].id)
    }

    /// The index of the live transaction `id`, as a spec value.
    pub open spec fn find_spec(&self, id: u64) -> Option<int> {
        if has_tx(self.live@, id) {
            Some(choose|i: int| 0 <= i < self.live@.len() && #[trigger] self.live@[i].id == id)
        } else {
            None
        }
    }

    pub proof fn lemma_find_spec(&self, i: int, id: u64)
        requires
            self.wf(),
            0 <= i < self.live@.len(),
            self.live@[i].id == id,
        ensures
            self.find_spec(id) == Some(i),
    {
        assert(has_tx(self.live@, id));
        let c = choose|c: int| 0 <= c < self.live@.len() && #[trigger] self.live@[c].id == id;
        assert(c == i);
    }

    pub fn new() -> (r: OperationStateStore)
        ensures
            r.wf(),
            r.live@ == Seq::<Transaction>::empty(),
            r.seen@ == Seq::<u64>::empty(),
    {
        OperationStateStore { live: Vec::new(), seen: Vec::new() }
    }

    fn find(&self, id: u64) -> (r: Option<usize>)
        ensures
            match r {
                Some(i) => i < self.live@.len() && self.live@[i as int].id == id,
                None => !has_tx(self.live@, id),
            },
    {
        let mut i: usize = 0;
        while i < self.live.len()
            invariant
                i <= self.live@.len(),
                forall|j: int| 0 <= j < i ==> self.live@[j].id != id,
            decreases self.live@.len() - i,
        {
            if self.live[i].id == id {
                return Some(i);
            }
            i += 1;
        }
        None
    }

    /// Whether `id` was ever used here.
    pub fn is_used(&self, id: u64) -> (r: bool)
        ensures
            r == self.seen@.contains(id),
    {
        let mut i: usize = 0;
        while i < self.seen.len()
            invariant
                i <= self.seen@.len(),
                forall|j: int| 0 <= j < i ==> self.seen@[j] != id,
            decreases self.seen@.len() - i,
        {
            if self.seen[i] == id {
                return true;
            }
            i += 1;
        }
        false
    }

    /// Registers a new transaction. An id that was ever used before, live or
    /// not, is refused with `AlreadyExists`.
    pub fn create(&mut self, tx: Transaction) -> (r: Result<(), StateError>)
        requires
            old(self).wf(),
        ensures
            final(self).wf(),
            old(self).seen@.contains(tx.id) ==> r == Err::<(), StateError>(StateError::AlreadyExists)
                && final(self).live@ == old(self).live@ && final(self).seen@ == old(self).seen@,
            !old(self).seen@.contains(tx.id) ==> r == Ok::<(), StateError>(()) && final(self).live@
                == old(self).live@.push(tx) && final(self).seen@ == old(self).seen@.push(tx.id),
    {
        if self.is_used(tx.id) {
            return Err(StateError::AlreadyExists);
        }
        self.live.push(tx);
        self.seen.push(tx.id);
        proof {
            assert forall|i: int| 0 <= i < self.live@.len() implies self.seen@.contains(
                #[trigger] self.live@[i].id,
            ) by {
                if i < old(self).live@.len() {
                    assert(old(self).seen@.contains(old(self).live@[i].id));
                    let k = choose|k: int|
                        0 <= k < old(self).seen@.len() && old(self).seen@[k] == old(self).live@[i].id;
                    assert(self.seen@[k] == self.live@[i].id);
                } else {
                    assert(self.seen@[self.seen@.len() - 1] == tx.id);
                }
            }
        }
        Ok(())
    }

    /// The state of the live transaction `id`, if there is one.
    pub fn get(&self, id: u64) -> (r: Option<Transaction>)
        requires
            self.wf(),
        ensures
            match self.find_spec(id) {
                Some(i) => r == Some(self.live@[i]),
                None => r.is_none(),
            },
    {
        match self.find(id) {
            Some(i) => {
                proof {
                    self.lemma_find_spec(i as int, id);
                }
                Some(self.live[i])
            },
            None => None,
        }
    }

    /// Replaces the state of the live transaction `tx.id`; the exclusive
    /// borrow of the store serialises every change to it.
    pub fn update(&mut self, tx: Transaction) -> (r: Result<(), StateError>)
        requires
            old(self).wf(),
        ensures
            final(self).wf(),
            final(self).seen@ == old(self).seen@,
            match old(self).find_spec(tx.id) {
                Some(i) => r == Ok::<(), StateError>(()) && final(self).live@ == old(self).live@.update(i, tx),
                None => r == Err::<(), StateError>(StateError::NotFound) && final(self).live@ == old(self).live@,
            },
    {
        match self.find(tx.id) {
            Some(i) => {
                proof {
                    self.lemma_find_spec(i as int, tx.id);
                }
                self.live[i] = tx;
                proof {
                    assert forall|j: int| 0 <= j < self.live@.len() implies self.seen@.contains(
                        #[trigger] self.live@[j].id,
                    ) by {
                        assert(self.live@[j].id == old(self).live@[j].id);
                    }
                }
                Ok(())
            },
            None => Err(StateError::NotFound),
        }
    }

    /// Drops the live transaction `id` and hands back its last state. Its id
    /// stays used.
    pub fn remove(&mut self, id: u64) -> (r: Option<Transaction>)
        requires
            old(self).wf(),
        ensures
            final(self).wf(),
            final(self).seen@ == old(self).seen@,
            !has_tx(final(self).live@, id),
            match old(self).find_spec(id) {
                Some(i) => r == Some(old(self).live@[i]) && final(self).live@ == old(self).live@.remove(i),
                None => r.is_none() && final(self).live@ == old(self).live@,
            },
    {
        match self.find(id) {
            Some(i) => {
                proof {
                    self.lemma_find_spec(i as int, id);
                }
                let t = self.live.remove(i);
                proof {
                    assert forall|j: int| 0 <= j < self.live@.len() implies #[trigger] self.live@[j].id != id
                        && self.seen@.contains(self.live@[j].id) by {
                        if j < i {
                            assert(self.live@[j] == old(self).live@[j]);
                        } else {
                            assert(self.live@[j] == old(self).live@[j + 1]);
                        }
                    }
                }
                Some(t)
            },
            None => None,
        }
    }

    /// Marks the live transaction `id` as cancelled: the next sweep drops it,
    /// and replies to it are no longer taken.
    pub fn cancel(&mut self, id: u64) -> (r: Result<(), StateError>)
        requires
            old(self).wf(),
        ensures
            final(self).wf(),
            final(self).seen@ == old(self).seen@,
            match old(self).find_spec(id) {
                Some(i) => r == Ok::<(), StateError>(()) && final(self).live@ == old(self).live@.update(
                    i,
                    Transaction { cancelled: true, ..old(self).live@[i] },
                ),
                None => r == Err::<(), StateError>(StateError::NotFound) && final(self).live@ == old(self).live@,
            },
    {
        match self.find(id) {
            Some(i) => {
                proof {
                    self.lemma_find_spec(i as int, id);
                }
                let t = self.live[i];
                self.update(Transaction { cancelled: true, ..t })
            },
            None => Err(StateError::NotFound),
        }
    }

    /// Drops every cancelled, finished or expired transaction. Returns the ids
    /// of those that expired (they time out), in store order.
    pub fn sweep(&mut self, now: u64) -> (r: Vec<u64>)
        requires
            old(self).wf(),
        ensures
            final(self).wf(),
            final(self).seen@ == old(self).seen@,
            final(self).live@ == kept_after(old(self).live@, now),
            r@ == expired_ids(old(self).live@, now),
    {
        let ghost all = self.live@;
        let mut kept: Vec<Transaction> = Vec::new();
        let mut out: Vec<u64> = Vec::new();
        let mut i: usize = 0;
        assert(all.subrange(0, 0) == Seq::<Transaction>::empty());
        proof {
            lemma_sweep_empty(now);
        }
        while i < self.live.len()
            invariant
                self.wf(),
                self.live@ == all,
                i <= all.len(),
                kept@ == kept_after(all.subrange(0, i as int), now),
                out@ == expired_ids(all.subrange(0, i as int), now),
                forall|j: int|
                    0 <= j < kept@.len() ==> exists|k: int|
                        0 <= k < i && #[trigger] kept@[j] == all[k],
                forall|a: int, b: int|
                    0 <= a < kept@.len() && 0 <= b < kept@.len() && a != b
                        ==> #[trigger] kept@[a].id != #[trigger] kept@[b].id,
            decreases all.len() - i,
        {
            let t = self.live[i];
            let ghost sub = all.subrange(0, i as int);
            let ghost next = all.subrange(0, i + 1);
            assert(next.drop_last() == sub);
            assert(next.last() == t);
            proof {
                lemma_sweep_step(next, now);
            }
            let gone = t.cancelled || t.status == TxStatus::Completed || t.status
                == TxStatus::Failed || t.status == TxStatus::TimedOut || t.deadline <= now;
            if !gone {
                proof {
                    assert forall|j: int| 0 <= j < kept@.len() implies #[trigger] kept@[j].id
                        != t.id by {
                        let k = choose|k: int| 0 <= k < i && #[trigger] kept@[j] == all[k];
                        assert(all[k].id != all[i as int].id);
                    }
                }
                kept.push(t);
                proof {
                    assert forall|j: int| 0 <= j < kept@.len() implies exists|k: int|
                        0 <= k < i + 1 && #[trigger] kept@[j] == all[k] by {
                        if j == kept@.len() - 1 {
                            assert(kept@[j] == all[i as int]);
                        } else {
                            let k = choose|k: int| 0 <= k < i && #[trigger] kept@[j] == all[k];
                        }
                    }
                }
            } else {
                proof {
                    assert forall|j: int| 0 <= j < kept@.len() implies exists|k: int|
                        0 <= k < i + 1 && #[trigger] kept@[j] == all[k] by {
                        let k = choose|k: int| 0 <= k < i && #[trigger] kept@[j] == all[k];
                    }
                }
            }
            if !t.cancelled && !(t.status == TxStatus::Completed || t.status == TxStatus::Failed
                || t.status == TxStatus::TimedOut) && t.deadline <= now {
                out.push(t.id);
            }
            i += 1;
        }
        assert(all.subrange(0, all.len() as int) == all);
        self.live = kept;
        proof {
            assert forall|j: int| 0 <= j < self.live@.len() implies self.seen@.contains(
                #[trigger] self.live@[j].id,
            ) by {
                let k = choose|k: int| 0 <= k < all.len() && #[trigger] self.live@[j] == all[k];
                assert(old(self).seen@.contains(all[k].id));
            }
        }
        out
    }

    /// Records `id` as used by an operation that was settled at once, with no
    /// live state.
    pub fn retire(&mut self, id: u64)
        requires
            old(self).wf(),
        ensures
            final(self).wf(),
            final(self).live@ == old(self).live@,
            final(self).seen@ == old(self).seen@.push(id),
    {
        self.seen.push(id);
        proof {
            assert forall|i: int| 0 <= i < self.live@.len() implies self.seen@.contains(
                #[trigger] self.live@[i].id,
            ) by {
                assert(old(self).seen@.contains(old(self).live@[i].id));
                let k = choose|k: int|
                    0 <= k < old(self).seen@.len() && old(self).seen@[k] == old(self).live@[i].id;
                assert(self.seen@[k] == self.live@[i].id);
            }
        }
    }
}

/// Cancellation: once a transaction is marked cancelled, the next sweep
/// removes it, whatever the time, so no reply can reach it afterwards.
pub proof fn lemma_cancelled_swept(s: Seq<Transaction>, i: int, now: u64)
    requires
        0 <= i < s.len(),
        forall|a: int, b: int|
            0 <= a < s.len() && 0 <= b < s.len() && a != b ==> #[trigger] s[a].id != #[trigger] s[b].id,
    ensures
        !has_tx(kept_after(s.update(i, Transaction { cancelled: true, ..s[i] }), now), s[i].id),
{
    let c = s.update(i, Transaction { cancelled: true, ..s[i] });
    let pred = |t: Transaction| !swept(t, now);
    let k = c.filter(pred);
    assert forall|j: int| 0 <= j < k.len() implies #[trigger] k[j].id != s[i].id by {
        c.lemma_filter_pred(pred, j);
        assert(k.contains(k[j]));
        c.lemma_filter_contains_rev(pred, k[j]);
        let m = choose|m: int| 0 <= m < c.len() && c[m] == k[j];
        if m != i {
            assert(s[m].id != s[i].id);
        }
    }
}

} // verus!
