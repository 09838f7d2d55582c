use vstd::prelude::*;

use crate::errors::RoutingError;
use crate::registry::{ConnState, PeerEntry, PeerRegistry};
use crate::ring::{closest_peer, dist, distance, eligible, is_nearest, Location};

verus! {

pub open spec fn cache_has(s: Seq<(u64, u64)>, key: u64) -> bool {
    exists|i: int| 0 <= i < s.len() && #[trigger] s[i].0 == key
}

/// The contract states a node holds locally, one per key.
pub struct ContractCache {
    pub entries: Vec<(u64, u64)>,
}

impl ContractCache {
    pub open spec fn wf(&self) -> bool {
        forall|i: int, j: int|
            0 <= i < self.entries@.len() && 0 <= j < self.entries@.len() && i != j
                ==> #[trigger] self.entries@[i].0 != #[trigger] self.entries@[j].0
    }

    /// The state held for `key`, as a spec value.
    pub open spec fn lookup(&self, key: u64) -> Option<u64> {
        if cache_has(self.entries@, key) {
            Some(
                self.entries@[choose|i: int|
                    0 <= i < self.entries@.len() && #[trigger] self.entries@[i].0 == key].1,
            )
        } else {
            None
        }
    }

    proof fn lemma_lookup(&self, i: int, key: u64)
        requires
            self.wf(),
            0 <= i < self.entries@.len(),
            self.entries@[i].0 == key,
        ensures
            self.lookup(key) == Some(self.entries@[i].1),
    {
        assert(cache_has(self.entries@, key));
        let c = choose|c: int| 0 <= c < self.entries@.len() && #[trigger] self.entries@[c].0 == key;
        assert(c == i);
    }

    pub fn new() -> (r: ContractCache)
        ensures
            r.wf(),
            forall|k: u64| #[trigger] r.lookup(k).is_none(),
    {
        ContractCache { entries: Vec::new() }
    }

    fn index_of(&self, key: u64) -> (r: Option<usize>)
        ensures
            match r {
                Some(i) => i < self.entries@.len() && self.entries@[i as int].0 == key,
                None => !cache_has(self.entries@, key),
            },
    {
        let mut i: usize = 0;
        while i < self.entries.len()
            invariant
                i <= self.entries@.len(),
                forall|j: int| 0 <= j < i ==> self.entries@[j].0 != key,
            decreases self.entries@.len() - i,
        {
            if self.entries[i].0 == key {
                return Some(i);
            }
            i += 1;
        }
        None
    }

    /// The state held here for `key`, if any.
    pub fn resolve_locally(&self, key: u64) -> (r: Option<u64>)
        requires
            self.wf(),
        ensures
            r == self.lookup(key),
    {
        match self.index_of(key) {
            Some(i) => {
                proof {
                    self.lemma_lookup(i as int, key);
                }
                Some(self.entries[i].1)
            },
            None => None,
        }
    }

    /// Stores `value` as the state for `key`; other keys keep theirs.
    pub fn apply(&mut self, key: u64, value: u64)
        requires
            old(self).wf(),
        ensures
            final(self).wf(),
            final(self).lookup(key) == Some(value),
            forall|k: u64| k != key ==> #[trigger] final(self).lookup(k) == old(self).lookup(k),
    {
        match self.index_of(key) {
            Some(i) => {
                self.entries[i] = (key, value);
                proof {
                    self.lemma_lookup(i as int, key);
                    assert forall|k: u64| k != key implies #[trigger] self.lookup(k) == old(self).lookup(k) by {
                        if cache_has(old(self).entries@, k) {
                            let c = choose|c: int|
                                0 <= c < old(self).entries@.len() && #[trigger] old(self).entries@[c].0 == k;
                            old(self).lemma_lookup(c, k);
                            self.lemma_lookup(c, k);
                        } else {
                            assert(!cache_has(self.entries@, k));
                        }
                    }
                }
            },
            None => {
                self.entries.push((key, value));
                proof {
                    let n = self.entries@.len() - 1;
                    self.lemma_lookup(n, key);
                    assert forall|k: u64| k != key implies #[trigger] self.lookup(k) == old(self).lookup(k) by {
                        if cache_has(old(self).entries@, k) {
                            let c = choose|c: int|
                                0 <= c < old(self).entries@.len() && #[trigger] old(self).entries@[c].0 == k;
                            old(self).lemma_lookup(c, k);
                            self.lemma_lookup(c, k);
                        } else {
                            if cache_has(self.entries@, k) {
                                let c = choose|c: int|
                                    0 <= c < self.entries@.len() && #[trigger] self.entries@[c].0
                                        == k;
                                assert(c != n);
                                assert(old(self).entries@[c].0 == k);
                            }
                        }
                    }
                }
            },
        }
    }
}

/// Number of Open links among `s`.
pub open spec fn count_open(s: Seq<PeerEntry>) -> nat
    decreases s.len(),
{
    if s.len() == 0 {
        0
    } else {
        count_open(s.drop_last()) + if s.last().state == ConnState::Open {
            1nat
        } else {
            0nat
        }
    }
}

/// Number of Open links in the registry.
pub fn open_links(reg: &PeerRegistry) -> (r: usize)
    ensures
        r == count_open(reg@),
{
    let mut n: usize = 0;
    let mut i: usize = 0;
    while i < reg.entries.len()
        invariant
            i <= reg@.len(),
            n == count_open(reg@.subrange(0, i as int)),
            n <= i,
        decreases reg@.len() - i,
    {
        assert(reg@.subrange(0, i + 1).drop_last() == reg@.subrange(0, i as int));
        if reg.entries[i].state == ConnState::Open {
            n += 1;
        }
        i += 1;
    }
    assert(reg@.subrange(0, reg@.len() as int) == reg@);
    n
}

/// No eligible peer is strictly nearer to `target` than `me`.
pub open spec fn none_closer(s: Seq<PeerEntry>, target: u64, excluded: Seq<u64>, me: u64) -> bool {
    forall|j: int| #[trigger]
        eligible(s, j, excluded) ==> dist(target, s[j].peer) >= dist(target, me)
}

/// What a node does with a join request or a store request.
#[derive(Clone, Copy, Debug, PartialEq, Eq, Structural)]
pub enum RouteDecision {
    /// Handle it here.
    Accept,
    /// Pass it on to `peer`.
    Forward { peer: u64 },
    /// Give up on this branch.
    Reject { error: RoutingError },
}

/// A node `me` with `open` links of `capacity` receives a request to join
/// at `target`, after `hops` hops. It accepts while it has room; otherwise,
/// within the hop budget, it forwards to the nearest eligible peer if that
/// one is strictly nearer to `target` than itself.
pub fn join_decision(
    me: Location,
    reg: &PeerRegistry,
    open: usize,
    capacity: usize,
    target: Location,
    visited: &Vec<u64>,
    hops: u32,
    max_hops: u32,
) -> (r: RouteDecision)
    ensures
        open < capacity ==> r == RouteDecision::Accept,
        open >= capacity && hops >= max_hops ==> r == (RouteDecision::Reject {
            error: RoutingError::MaxHopsExceeded,
        }),
        open >= capacity && hops < max_hops ==> match r {
            RouteDecision::Forward { peer } => is_nearest(reg@, target, visited@, peer) && dist(
                target,
                peer,
            ) < dist(target, me),
            RouteDecision::Reject { error } => error == RoutingError::NoCandidatePeers
                && none_closer(reg@, target, visited@, me),
            RouteDecision::Accept => false,
        },
{
    if open < capacity {
        return RouteDecision::Accept;
    }
    if hops >= max_hops {
        return RouteDecision::Reject { error: RoutingError::MaxHopsExceeded };
    }
    match closest_peer(reg, target, visited) {
        Some(p) => {
            if distance(target, p) < distance(target, me) {
                RouteDecision::Forward { peer: p }
            } else {
                RouteDecision::Reject { error: RoutingError::NoCandidatePeers }
            }
        },
        None => RouteDecision::Reject { error: RoutingError::NoCandidatePeers },
    }
}

/// Where a store request for `key` goes at node `me`: with replication
/// factor one it is applied at the node nearest the key, so it is passed to
/// the nearest eligible peer while that one is strictly nearer than `me`,
/// and applied here otherwise.
pub fn put_decision(me: Location, reg: &PeerRegistry, key: Location, visited: &Vec<u64>) -> (r:
    RouteDecision)
    ensures
        match r {
            RouteDecision::Forward { peer } => is_nearest(reg@, key, visited@, peer) && dist(
                key,
                peer,
            ) < dist(key, me),
            RouteDecision::Accept => none_closer(reg@, key, visited@, me),
            RouteDecision::Reject { .. } => false,
        },
{
    match closest_peer(reg, key, visited) {
        Some(p) => {
            if distance(key, p) < distance(key, me) {
                RouteDecision::Forward { peer: p }
            } else {
                RouteDecision::Accept
            }
        },
        None => RouteDecision::Accept,
    }
}

/// What a node does with a fetch request.
#[derive(Clone, Copy, Debug, PartialEq, Eq, Structural)]
pub enum GetDecision {
    /// The state is held here: reply to the originator.
    Respond { state: u64 },
    /// Pass the request on to `peer`.
    Forward { peer: u64 },
    /// No untried candidate is left.
    NotFound,
}

/// A fetch of `key` at a node whose cache holds `held` for it: answer from
/// the cache, else forward to the nearest eligible untried peer.
pub fn get_decision(held: Option<u64>, reg: &PeerRegistry, key: Location, visited: &Vec<u64>) -> (r:
    GetDecision)
    ensures
        match held {
            Some(v) => r == (GetDecision::Respond { state: v }),
            None => match r {
                GetDecision::Forward { peer } => is_nearest(reg@, key, visited@, peer),
                GetDecision::NotFound => crate::ring::none_eligible(reg@, visited@),
                GetDecision::Respond { .. } => false,
            },
        },
{
    match held {
        Some(v) => GetDecision::Respond { state: v },
        None => match closest_peer(reg, key, visited) {
            Some(p) => GetDecision::Forward { peer: p },
            None => GetDecision::NotFound,
        },
    }
}

} // verus!
