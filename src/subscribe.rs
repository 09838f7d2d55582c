use vstd::prelude::*;

verus! {

/// A standing interest of `peer` in updates of `key`.
#[derive(Clone, Copy, Debug, PartialEq, Eq, Structural)]
pub struct Interest {
    pub peer: u64,
    pub key: u64,
}

pub open spec fn holds(s: Seq<Interest>, peer: u64, key: u64) -> bool {
    exists|i: int| 0 <= i < s.len() && #[trigger] s[i] == (Interest { peer, key })
}

/// The interest records kept at a node, each at most once.
pub struct SubscriptionTable {
    pub records: Vec<Interest>,
}

impl SubscriptionTable {
    pub open spec fn view(&self) -> Seq<Interest> {
        self.records@
    }

    pub open spec fn wf(&self) -> bool {
        forall|i: int, j: int|
            0 <= i < self@.len() && 0 <= j < self@.len() && i != j ==> #[trigger] self@[i]
                != #[trigger] self@[j]
    }

    pub fn new() -> (r: SubscriptionTable)
        ensures
            r.wf(),
            forall|p: u64, k: u64| !#[trigger] holds(r@, p, k),
    {
        SubscriptionTable { records: Vec::new() }
    }

    fn position(&self, peer: u64, key: u64) -> (r: Option<usize>)
        ensures
            match r {
                Some(i) => i < self@.len() && self@[i as int] == (Interest { peer, key }),
                None => !holds(self@, peer, key),
            },
    {
        let mut i: usize = 0;
        while i < self.records.len()
            invariant
                i <= self@.len(),
                forall|j: int| 0 <= j < i ==> self@[j] != (Interest { peer, key }),
            decreases self@.len() - i,
        {
            let r = self.records[i];
            if r.peer == peer && r.key == key {
                return Some(i);
            }
            i += 1;
        }
        None
    }

    /// Records that `peer` wants updates of `key`; returns whether the
    /// record is new.
    pub fn subscribe(&mut self, peer: u64, key: u64) -> (r: bool)
        requires
            old(self).wf(),
        ensures
            final(self).wf(),
            r == !holds(old(self)@, peer, key),
            forall|p: u64, k: u64|
                #[trigger] holds(final(self)@, p, k) <==> holds(old(self)@, p, k) || (p == peer
                    && k == key),
    {
        match self.position(peer, key) {
            Some(_) => false,
            None => {
                self.records.push(Interest { peer, key });
                proof {
                    assert(self@[self@.len() - 1] == Interest { peer, key });
                    assert forall|p: u64, k: u64| #[trigger] holds(self@, p, k) <==> holds(
                        old(self)@,
                        p,
                        k,
                    ) || (p == peer && k == key) by {
                        if holds(old(self)@, p, k) {
                            let w = choose|w: int|
                                0 <= w < old(self)@.len() && #[trigger] old(self)@[w] == (
                                Interest { peer: p, key: k });
                            assert(self@[w] == old(self)@[w]);
                        }
                        if holds(self@, p, k) && !(p == peer && k == key) {
                            let w = choose|w: int|
                                0 <= w < self@.len() && #[trigger] self@[w] == (Interest {
                                    peer: p,
                                    key: k,
                                });
                            assert(old(self)@[w] == self@[w]);
                        }
                    }
                }
                true
            },
        }
    }

    /// Drops `peer`'s records: only the one for `key` when `by_key`, else all.
    fn retain_where(&mut self, peer: u64, key: u64, by_key: bool)
        requires
            old(self).wf(),
        ensures
            final(self).wf(),
            forall|p: u64, k: u64|
                #[trigger] holds(final(self)@, p, k) <==> holds(old(self)@, p, k) && !(p == peer
                    && (!by_key || k == key)),
    {
        let ghost all = self@;
        let mut kept: Vec<Interest> = Vec::new();
        let mut i: usize = 0;
        while i < self.records.len()
            invariant
                self@ == all,
                old(self).wf(),
                old(self)@ == all,
                i <= all.len(),
                forall|a: int, b: int|
                    0 <= a < kept@.len() && 0 <= b < kept@.len() && a != b ==> #[trigger] kept@[a]
                        != #[trigger] kept@[b],
                forall|j: int|
                    0 <= j < kept@.len() ==> exists|w: int|
                        0 <= w < i && #[trigger] all[w] == #[trigger] kept@[j],
                forall|j: int|
                    0 <= j < kept@.len() ==> !(#[trigger] kept@[j].peer == peer && (!by_key
                        || kept@[j].key == key)),
                forall|w: int|
                    0 <= w < i && !(all[w].peer == peer && (!by_key || all[w].key == key))
                        ==> exists|j: int| 0 <= j < kept@.len() && #[trigger] kept@[j] == #[trigger] all[w],
            decreases all.len() - i,
        {
            let r = self.records[i];
            if !(r.peer == peer && (!by_key || r.key == key)) {
                proof {
                    assert forall|j: int| 0 <= j < kept@.len() implies #[trigger] kept@[j] != r by {
                        let w = choose|w: int| 0 <= w < i && #[trigger] all[w] == #[trigger] kept@[j];
                        assert(w != i);
                    }
                }
                let ghost prev = kept@;
                kept.push(r);
                proof {
                    assert(kept@[kept@.len() - 1] == all[i as int]);
                    assert forall|j: int| 0 <= j < kept@.len() implies exists|w: int|
                        0 <= w < i + 1 && #[trigger] all[w] == #[trigger] kept@[j] by {
                        if j < kept@.len() - 1 {
                            let w = choose|w: int| 0 <= w < i && #[trigger] all[w] == #[trigger] kept@[j];
                        } else {
                            assert(all[i as int] == kept@[j]);
                        }
                    }
                    assert forall|w: int|
                        0 <= w < i + 1 && !(all[w].peer == peer && (!by_key || all[w].key == key))
                            implies exists|j: int| 0 <= j < kept@.len() && #[trigger] kept@[j] == #[trigger] all[w] by {
                        if w == i {
                            assert(kept@[kept@.len() - 1] == all[w]);
                        } else {
                            let j = choose|j: int| 0 <= j < prev.len() && #[trigger] prev[j] == #[trigger] all[w];
                            assert(kept@[j] == all[w]);
                        }
                    }
                }
            }
            i += 1;
        }
        self.records = kept;
        proof {
            assert forall|p: u64, k: u64| #[trigger] holds(self@, p, k) <==> holds(all, p, k) && !(p
                == peer && (!by_key || k == key)) by {
                let it = Interest { peer: p, key: k };
                if holds(self@, p, k) {
                    let j = choose|j: int| 0 <= j < self@.len() && #[trigger] self@[j] == it;
                    let w = choose|w: int| 0 <= w < all.len() && #[trigger] all[w] == #[trigger] self@[j];
                    assert(all[w] == it);
                }
                if holds(all, p, k) && !(p == peer && (!by_key || k == key)) {
                    let w = choose|w: int| 0 <= w < all.len() && #[trigger] all[w] == it;
                    let j = choose|j: int| 0 <= j < self@.len() && #[trigger] self@[j] == #[trigger] all[w];
                }
            }
        }
    }

    /// Drops `peer`'s interest in `key`.
    pub fn unsubscribe(&mut self, peer: u64, key: u64)
        requires
            old(self).wf(),
        ensures
            final(self).wf(),
            forall|p: u64, k: u64|
                #[trigger] holds(final(self)@, p, k) <==> holds(old(self)@, p, k) && !(p == peer
                    && k == key),
    {
        self.retain_where(peer, key, true);
    }

    /// Drops every interest of `peer`, whose link has closed.
    pub fn prune_peer(&mut self, peer: u64)
        requires
            old(self).wf(),
        ensures
            final(self).wf(),
            forall|p: u64, k: u64|
                #[trigger] holds(final(self)@, p, k) <==> holds(old(self)@, p, k) && p != peer,
    {
        self.retain_where(peer, 0, false);
    }

    /// The peers interested in `key`, each once.
    pub fn subscribers(&self, key: u64) -> (r: Vec<u64>)
        requires
            self.wf(),
        ensures
            r@.no_duplicates(),
            forall|p: u64| r@.contains(p) <==> holds(self@, p, key),
    {
        let mut out: Vec<u64> = Vec::new();
        let mut i: usize = 0;
        while i < self.records.len()
            invariant
                self.wf(),
                i <= self@.len(),
                out@.no_duplicates(),
                forall|p: u64|
                    out@.contains(p) <==> exists|w: int|
                        0 <= w < i && #[trigger] self@[w] == (Interest { peer: p, key }),
            decreases self@.len() - i,
        {
            let r = self.records[i];
            if r.key == key {
                let ghost prev = out@;
                proof {
                    if prev.contains(r.peer) {
                        let w = choose|w: int|
                            0 <= w < i && #[trigger] self@[w] == (Interest { peer: r.peer, key });
                        assert(self@[w] == self@[i as int]);
                    }
                }
                out.push(r.peer);
                proof {
                    assert forall|p: u64| out@.contains(p) <==> exists|w: int|
                        0 <= w < i + 1 && #[trigger] self@[w] == (Interest { peer: p, key }) by {
                        if out@.contains(p) {
                            let j = choose|j: int| 0 <= j < out@.len() && out@[j] == p;
                            if j < prev.len() {
                                assert(prev[j] == p);
                                assert(prev.contains(p));
                                let w = choose|w: int|
                                    0 <= w < i && #[trigger] self@[w] == (Interest { peer: p, key });
                                assert(0 <= w < i + 1);
                            } else {
                                assert(self@[i as int] == Interest { peer: p, key });
                            }
                        }
                        if exists|w: int|
                            0 <= w < i + 1 && #[trigger] self@[w] == (Interest { peer: p, key }) {
                            let w = choose|w: int|
                                0 <= w < i + 1 && #[trigger] self@[w] == (Interest { peer: p, key });
                            if w == i {
                                assert(out@[prev.len() as int] == p);
                            } else {
                                assert(prev.contains(p));
                                let j = choose|j: int| 0 <= j < prev.len() && prev[j] == p;
                                assert(out@[j] == p);
                            }
                        }
                    }
                }
            }
            i += 1;
        }
        out
    }
}

} // verus!
