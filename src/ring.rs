use vstd::prelude::*;

use crate::registry::{routable, ConnState, PeerEntry, PeerRegistry};

verus! {

/// Position of a peer or a key on the identifier ring.
pub type Location = u64;

/// The routing metric: XOR of the two identifiers.
pub open spec fn dist(a: u64, b: u64) -> u64 {
    a ^ b
}

/// Distance between two identifiers on the ring.
pub fn distance(a: Location, b: Location) -> (r: u64)
    ensures
        r == dist(a, b),
{
    a ^ b
}

/// The distance is symmetric, and an identifier is at distance zero from
/// itself and from nothing else.
pub proof fn lemma_distance_symmetric(a: u64, b: u64)
    ensures
        dist(a, b) == dist(b, a),
        dist(a, a) == 0,
        dist(a, b) == 0 <==> a == b,
{
    assert(a ^ b == b ^ a) by (bit_vector);
    assert(a ^ a == 0) by (bit_vector);
    assert((a ^ b == 0) <==> a == b) by (bit_vector);
}

/// Entry `i` may be routed to: its link is Open and it is not excluded.
pub open spec fn eligible(s: Seq<PeerEntry>, i: int, excluded: Seq<u64>) -> bool {
    0 <= i < s.len() && s[i].state == ConnState::Open && !excluded.contains(s[i].peer)
}

/// `p` is the eligible peer nearest to `target`.
pub open spec fn is_nearest(s: Seq<PeerEntry>, target: u64, excluded: Seq<u64>, p: u64) -> bool {
    &&& exists|i: int| #[trigger] eligible(s, i, excluded) && s[i].peer == p
    &&& forall|j: int| #[trigger]
        eligible(s, j, excluded) ==> dist(target, p) <= dist(target, s[j].peer)
}

pub open spec fn none_eligible(s: Seq<PeerEntry>, excluded: Seq<u64>) -> bool {
    forall|j: int| !#[trigger] eligible(s, j, excluded)
}

/// Distinct identifiers are at distinct distances from any target.
pub proof fn lemma_distance_injective(t: u64, x: u64, y: u64)
    ensures
        dist(t, x) == dist(t, y) ==> x == y,
{
    assert((t ^ x) == (t ^ y) ==> x == y) by (bit_vector);
}

/// A peer chosen after `prev` is strictly farther than each peer of `prev`.
proof fn lemma_nearer_than_earlier(
    s: Seq<PeerEntry>,
    target: u64,
    excluded: Seq<u64>,
    prev: Seq<u64>,
    p: u64,
)
    requires
        forall|i: int|
            0 <= i < prev.len() ==> is_nearest(
                s,
                target,
                excluded + prev.subrange(0, i),
                #[trigger] prev[i],
            ),
        is_nearest(s, target, excluded + prev, p),
    ensures
        forall|a: int| 0 <= a < prev.len() ==> dist(target, #[trigger] prev[a]) < dist(target, p),
{
    let all = excluded + prev;
    let ip = choose|i: int| #[trigger] eligible(s, i, all) && s[i].peer == p;
    assert forall|a: int| 0 <= a < prev.len() implies dist(target, #[trigger] prev[a]) < dist(
        target,
        p,
    ) by {
        let ex = excluded + prev.subrange(0, a);
        if ex.contains(p) {
            let w = choose|w: int| 0 <= w < ex.len() && ex[w] == p;
            assert(all[w] == p);
        }
        assert(eligible(s, ip, ex));
        assert(all[excluded.len() + a] == prev[a]);
        lemma_distance_injective(target, prev[a], p);
    }
}

/// A peer without an Open link is never a routing candidate, so a peer whose
/// link has just closed is absent from every `closest_peer` and
/// `closest_peers` result.
pub proof fn lemma_unroutable_never_chosen(
    s: Seq<PeerEntry>,
    target: u64,
    excluded: Seq<u64>,
    p: u64,
)
    requires
        !routable(s, p),
    ensures
        !is_nearest(s, target, excluded, p),
{
    if is_nearest(s, target, excluded, p) {
        let i = choose|i: int| #[trigger] eligible(s, i, excluded) && s[i].peer == p;
        assert(s[i].peer == p && s[i].state == ConnState::Open);
    }
}

/// Whether `v` holds `x`.
pub fn contains(v: &Vec<u64>, x: u64) -> (r: bool)
    ensures
        r == v@.contains(x),
{
    let mut i: usize = 0;
    while i < v.len()
        invariant
            i <= v@.len(),
            forall|j: int| 0 <= j < i ==> v@[j] != x,
        decreases v@.len() - i,
    {
        if v[i] == x {
            return true;
        }
        i += 1;
    }
    false
}

/// The greedy routing step: the Open peer nearest to `target` that is not in
/// `excluded`, or `None` when there is no such peer.
pub fn closest_peer(reg: &PeerRegistry, target: Location, excluded: &Vec<u64>) -> (r: Option<u64>)
    ensures
        match r {
            Some(p) => is_nearest(reg@, target, excluded@, p),
            None => none_eligible(reg@, excluded@),
        },
{
    let mut best: Option<u64> = None;
    let mut i: usize = 0;
    while i < reg.entries.len()
        invariant
            i <= reg@.len(),
            match best {
                Some(p) => {
                    &&& exists|k: int| 0 <= k < i && #[trigger] eligible(reg@, k, excluded@)
                        && reg@[k].peer == p
                    &&& forall|j: int|
                        0 <= j < i && #[trigger] eligible(reg@, j, excluded@) ==> dist(target, p)
                            <= dist(target, reg@[j].peer)
                },
                None => forall|j: int| 0 <= j < i ==> !#[trigger] eligible(reg@, j, excluded@),
            },
        decreases reg@.len() - i,
    {
        let e = reg.entries[i];
        if e.state == ConnState::Open && !contains(excluded, e.peer) {
            assert(eligible(reg@, i as int, excluded@));
            match best {
                None => {
                    best = Some(e.peer);
                },
                Some(p) => {
                    if distance(target, e.peer) < distance(target, p) {
                        best = Some(e.peer);
                    }
                },
            }
        }
        i += 1;
    }
    best
}

/// Up to `k` routing candidates, nearest first: each one is the peer nearest
/// to `target` once `excluded` and the candidates before it are set aside.
/// Fewer than `k` come back only when no eligible peer is left.
pub fn closest_peers(reg: &PeerRegistry, target: Location, k: usize, excluded: &Vec<u64>) -> (r:
    Vec<u64>)
    ensures
        r@.len() <= k,
        forall|i: int|
            0 <= i < r@.len() ==> is_nearest(
                reg@,
                target,
                excluded@ + r@.subrange(0, i),
                #[trigger] r@[i],
            ),
        r@.len() < k ==> none_eligible(reg@, excluded@ + r@),
        forall|i: int, j: int|
            0 <= i < j < r@.len() ==> dist(target, #[trigger] r@[i]) < dist(target, #[trigger] r@[j]),
{
    let mut out: Vec<u64> = Vec::new();
    let mut skip: Vec<u64> = Vec::new();
    let mut j: usize = 0;
    while j < excluded.len()
        invariant
            j <= excluded@.len(),
            skip@ == excluded@.subrange(0, j as int),
        decreases excluded@.len() - j,
    {
        skip.push(excluded[j]);
        j += 1;
    }
    assert(excluded@.subrange(0, excluded@.len() as int) == excluded@);
    assert(out@ == Seq::<u64>::empty());
    assert(skip@ == excluded@ + out@);
    while out.len() < k
        invariant
            out@.len() <= k,
            skip@ == excluded@ + out@,
            forall|i: int|
                0 <= i < out@.len() ==> is_nearest(
                    reg@,
                    target,
                    excluded@ + out@.subrange(0, i),
                    #[trigger] out@[i],
                ),
            forall|i: int, j: int|
                0 <= i < j < out@.len() ==> dist(target, #[trigger] out@[i]) < dist(
                    target,
                    #[trigger] out@[j],
                ),
        decreases k - out@.len(),
    {
        match closest_peer(reg, target, &skip) {
            None => {
                return out;
            },
            Some(p) => {
                let ghost prev = out@;
                proof {
                    lemma_nearer_than_earlier(reg@, target, excluded@, prev, p);
                }
                out.push(p);
                skip.push(p);
                proof {
                    assert(out@.subrange(0, prev.len() as int) == prev);
                    assert forall|i: int| 0 <= i < out@.len() implies is_nearest(
                        reg@,
                        target,
                        excluded@ + out@.subrange(0, i),
                        #[trigger] out@[i],
                    ) by {
                        if i < prev.len() {
                            assert(out@.subrange(0, i) == prev.subrange(0, i));
                        }
                    }
                    assert(skip@ == excluded@ + out@);
                }
            },
        }
    }
    out
}

} // verus!
