use vstd::prelude::*;

use crate::engine::{
    count_open, get_decision, join_decision, none_closer, open_links, put_decision, ContractCache,
    GetDecision, RouteDecision,
};
use crate::errors::{RoutingError, StateError};
use crate::message::{with_hop, Message, Payload};
use crate::registry::{has_peer, ConnState, PeerEntry, HeartbeatConfig, PeerRegistry, UpdateError};
use crate::ring::{closest_peer, dist, eligible, is_nearest, none_eligible};
use crate::subscribe::{holds, SubscriptionTable};
use crate::store::{is_terminal, OpKind, OperationStateStore, Transaction, TxStatus};

verus! {

/// The terminal result of an operation, as its originator sees it.
#[derive(Clone, Copy, Debug, PartialEq, Eq, Structural)]
pub enum Outcome {
    /// The join was accepted by `peer`, the first ring neighbour.
    Joined { peer: u64 },
    /// The fetched state.
    Value { state: u64 },
    /// The store was acknowledged.
    Stored,
    /// The operation failed; `NoCandidatePeers` on a fetch means the key was
    /// not found.
    Failed { error: RoutingError },
}

/// What became of a reply handed to the node.
#[derive(Clone, Copy, Debug, PartialEq, Eq, Structural)]
pub enum Delivery {
    /// Dropped: no live transaction takes it (unknown, cancelled or finished).
    Discarded,
    /// This node forwarded the request: pass the reply on to `to`.
    Relay { to: u64 },
    /// The transaction is over with `outcome`.
    Done { outcome: Outcome },
}

/// The effect of reply `p` on the live transaction `t` at node `me`.
pub open spec fn reply_spec(t: Transaction, me: u64, p: Payload) -> (
    Transaction,
    Delivery,
) {
    match p {
        Payload::JoinAck { accepting } => if t.kind == OpKind::Connect {
            (
                Transaction { status: TxStatus::Completed, peer: accepting, ..t },
                Delivery::Done { outcome: Outcome::Joined { peer: accepting } },
            )
        } else {
            (t, Delivery::Discarded)
        },
        Payload::GetResponse { state } => if t.kind == OpKind::Get {
            (
                Transaction { status: TxStatus::Completed, ..t },
                Delivery::Done { outcome: Outcome::Value { state } },
            )
        } else {
            (t, Delivery::Discarded)
        },
        Payload::PutAck => if t.kind != OpKind::Put {
            (t, Delivery::Discarded)
        } else if t.originator != me {
            (Transaction { status: TxStatus::Completed, ..t }, Delivery::Relay { to: t.reply_to })
        } else {
            (
                Transaction { status: TxStatus::Completed, ..t },
                Delivery::Done { outcome: Outcome::Stored },
            )
        },
        Payload::Nack { reason } => if t.originator != me {
            (Transaction { status: TxStatus::Failed, ..t }, Delivery::Relay { to: t.reply_to })
        } else {
            (
                Transaction { status: TxStatus::Failed, ..t },
                Delivery::Done { outcome: Outcome::Failed { error: reason } },
            )
        },
        _ => (t, Delivery::Discarded),
    }
}

/// The answer of node `n` to a join request (see `Node::on_join_request`).
pub open spec fn join_answer(
    n: Node,
    tx: u64,
    origin: u64,
    target: u64,
    hops: u32,
    visited: Seq<u64>,
    r: (u64, Message),
) -> bool {
    &&& r.1.tx == tx
    &&& r.1.origin == origin
    &&& r.1.sender == n.peer
    &&& count_open(n.registry@) < n.capacity ==> r.0 == origin && r.1.payload == (
    Payload::JoinAck { accepting: n.peer })
    &&& count_open(n.registry@) >= n.capacity && hops >= n.max_hops ==> r.0 == origin
        && r.1.payload == (Payload::Nack { reason: RoutingError::MaxHopsExceeded })
    &&& count_open(n.registry@) >= n.capacity && hops < n.max_hops ==> {
        ||| {
            &&& r.1.payload == (Payload::JoinRequest { target })
            &&& is_nearest(n.registry@, target, visited, r.0)
            &&& dist(target, r.0) < dist(target, n.peer)
            &&& r.1.hops == hops + 1
            &&& r.1.visited@ == visited.push(n.peer)
        }
        ||| {
            &&& r.0 == origin
            &&& r.1.payload == (Payload::Nack { reason: RoutingError::NoCandidatePeers })
            &&& none_closer(n.registry@, target, visited, n.peer)
        }
    }
}

/// The answer of node `n` to a fetch request (see `Node::on_get_request`).
pub open spec fn get_answer(
    n: Node,
    tx: u64,
    origin: u64,
    key: u64,
    hops: u32,
    visited: Seq<u64>,
    r: (u64, Message),
) -> bool {
    &&& r.1.tx == tx
    &&& r.1.origin == origin
    &&& r.1.sender == n.peer
    &&& match n.cache.lookup(key) {
        Some(v) => r.0 == origin && r.1.payload == (Payload::GetResponse { state: v }),
        None => if hops >= n.max_hops {
            r.0 == origin && r.1.payload == (Payload::Nack {
                reason: RoutingError::MaxHopsExceeded,
            })
        } else {
            ||| {
                &&& r.1.payload == (Payload::GetRequest { key })
                &&& is_nearest(n.registry@, key, visited, r.0)
                &&& r.1.hops == hops + 1
                &&& r.1.visited@ == visited.push(n.peer)
            }
            ||| {
                &&& r.0 == origin
                &&& r.1.payload == (Payload::Nack { reason: RoutingError::NoCandidatePeers })
                &&& none_eligible(n.registry@, visited)
            }
        },
    }
}

/// The effect of reply `p` for transaction `tx`, taking node `o` to `f`
/// (see `Node::on_reply`).
pub open spec fn reply_effect(o: Node, f: Node, tx: u64, p: Payload, r: Delivery) -> bool {
    &&& f.peer == o.peer
    &&& f.registry@ == o.registry@
    &&& f.cache.entries@ == o.cache.entries@
    &&& f.subs@ == o.subs@
    &&& f.store.seen@ == o.store.seen@
    &&& match o.store.find_spec(tx) {
        None => r == Delivery::Discarded && f.store.live@ == o.store.live@,
        Some(i) => {
            let t = o.store.live@[i];
            let next = reply_spec(t, o.peer, p);
            if t.cancelled || is_terminal(t.status) || next.1 == Delivery::Discarded {
                r == Delivery::Discarded && f.store.live@ == o.store.live@
            } else {
                r == next.1 && f.store.live@ == o.store.live@.remove(i)
            }
        },
    }
}

/// The effect of a store request, taking node `o` to `f` (see
/// `Node::on_put_request`).
pub open spec fn put_effect(
    o: Node,
    f: Node,
    tx: u64,
    origin: u64,
    sender: u64,
    key: u64,
    value: u64,
    hops: u32,
    visited: Seq<u64>,
    now: u64,
    deadline: u64,
    r: Option<(u64, Message)>,
) -> bool {
    &&& f.peer == o.peer
    &&& f.registry@ == o.registry@
    &&& f.subs@ == o.subs@
    &&& none_closer(o.registry@, key, visited, o.peer) ==> {
        &&& r.is_some()
        &&& r.unwrap().0 == sender
        &&& r.unwrap().1.tx == tx
        &&& r.unwrap().1.payload == Payload::PutAck
        &&& f.cache.lookup(key) == Some(value)
        &&& forall|k: u64| k != key ==> #[trigger] f.cache.lookup(k) == o.cache.lookup(k)
        &&& f.store.live@ == o.store.live@
        &&& f.store.seen@ == o.store.seen@
    }
    &&& !none_closer(o.registry@, key, visited, o.peer) ==> f.cache.entries@ == o.cache.entries@
    &&& !none_closer(o.registry@, key, visited, o.peer) && hops >= o.max_hops ==> {
        &&& r.is_some()
        &&& r.unwrap().0 == sender
        &&& r.unwrap().1.payload == (Payload::Nack { reason: RoutingError::MaxHopsExceeded })
        &&& f.store.live@ == o.store.live@
        &&& f.store.seen@ == o.store.seen@
    }
    &&& !none_closer(o.registry@, key, visited, o.peer) && hops < o.max_hops
        && o.store.seen@.contains(tx) ==> {
        &&& r.is_none()
        &&& f.store.live@ == o.store.live@
        &&& f.store.seen@ == o.store.seen@
    }
    &&& !none_closer(o.registry@, key, visited, o.peer) && hops < o.max_hops
        && !o.store.seen@.contains(tx) ==> {
        &&& r.is_some()
        &&& r.unwrap().1.tx == tx
        &&& r.unwrap().1.origin == origin
        &&& r.unwrap().1.payload == (Payload::PutRequest { key, value })
        &&& is_nearest(o.registry@, key, visited, r.unwrap().0)
        &&& dist(key, r.unwrap().0) < dist(key, o.peer)
        &&& r.unwrap().1.hops == hops + 1
        &&& r.unwrap().1.visited@ == visited.push(o.peer)
        &&& f.store.seen@ == o.store.seen@.push(tx)
        &&& f.store.live@ == o.store.live@.push(
            relay_tx(tx, origin, key, r.unwrap().0, sender, (hops + 1) as u32, now, deadline),
        )
    }
}

/// The effect of a subscription request, taking node `o` to `f` (see
/// `Node::on_subscribe`).
pub open spec fn subscribe_effect(
    o: Node,
    f: Node,
    tx: u64,
    origin: u64,
    sender: u64,
    key: u64,
    hops: u32,
    visited: Seq<u64>,
    r: Option<(u64, Message)>,
) -> bool {
    &&& f.peer == o.peer
    &&& f.registry@ == o.registry@
    &&& f.store.live@ == o.store.live@
    &&& f.store.seen@ == o.store.seen@
    &&& f.cache.entries@ == o.cache.entries@
    &&& forall|p: u64, k: u64|
        #[trigger] holds(f.subs@, p, k) <==> holds(o.subs@, p, k) || (p == sender && k == key)
    &&& (none_closer(o.registry@, key, visited, o.peer) || hops >= o.max_hops) ==> r.is_none()
    &&& !none_closer(o.registry@, key, visited, o.peer) && hops < o.max_hops ==> {
        &&& r.is_some()
        &&& r.unwrap().1.tx == tx
        &&& r.unwrap().1.origin == origin
        &&& r.unwrap().1.sender == o.peer
        &&& r.unwrap().1.payload == (Payload::Subscribe { key })
        &&& is_nearest(o.registry@, key, visited, r.unwrap().0)
        &&& dist(key, r.unwrap().0) < dist(key, o.peer)
        &&& r.unwrap().1.hops == hops + 1
        &&& r.unwrap().1.visited@ == visited.push(o.peer)
    }
}

/// What the dispatcher did with an inbound message.
pub enum Handled {
    /// Send `msg` to `to`.
    Send { to: u64, msg: Message },
    /// A reply went to its transaction, with this result.
    Delivered { delivery: Delivery },
    /// Taken in here; nothing to send.
    Absorbed,
}

/// A heartbeat ack from `peer` at time `now`, on the registry entries.
pub open spec fn acked(o: Seq<PeerEntry>, f: Seq<PeerEntry>, i: Option<int>, now: u64) -> bool {
    match i {
        None => f == o,
        Some(i) => if o[i].state == ConnState::Open || o[i].state == ConnState::Stale {
            f == o.update(
                i,
                PeerEntry { state: ConnState::Open, missed_acks: 0, last_heartbeat: now, ..o[i] },
            )
        } else {
            f == o
        },
    }
}

/// Join through a gateway: gateway `a` has no room and `b` is the only peer
/// it may route to, strictly nearer the joiner `c` than `a`. Then `a` passes
/// the request to `b` one hop further, within the hop budget; `b`, with
/// room, answers `c` with itself as the accepting peer; and that answer
/// completes `c`'s live Connect transaction with `b` as its first neighbour.
pub proof fn lemma_join_via_gateway(
    a: Node,
    b: Node,
    c: u64,
    t: Transaction,
    hops: u32,
    visited: Seq<u64>,
    ra: (u64, Message),
    rb: (u64, Message),
)
    requires
        a.registry.wf(),
        count_open(a.registry@) >= a.capacity,
        hops < a.max_hops,
        exists|i: int| #[trigger] eligible(a.registry@, i, visited) && a.registry@[i].peer == b.peer,
        forall|j: int| #[trigger] eligible(a.registry@, j, visited) ==> a.registry@[j].peer == b.peer,
        dist(c, b.peer) < dist(c, a.peer),
        join_answer(a, t.id, c, c, hops, visited, ra),
        count_open(b.registry@) < b.capacity,
        join_answer(b, t.id, c, c, ra.1.hops, ra.1.visited@, rb),
        t.kind == OpKind::Connect,
    ensures
        ra.0 == b.peer,
        ra.1.payload == (Payload::JoinRequest { target: c }),
        ra.1.hops == hops + 1,
        ra.1.hops <= a.max_hops,
        rb.0 == c,
        rb.1.payload == (Payload::JoinAck { accepting: b.peer }),
        reply_spec(t, c, rb.1.payload) == (
            Transaction { status: TxStatus::Completed, peer: b.peer, ..t },
            Delivery::Done { outcome: Outcome::Joined { peer: b.peer } },
        ),
{
    let i = choose|i: int| #[trigger] eligible(a.registry@, i, visited) && a.registry@[i].peer
        == b.peer;
    if none_closer(a.registry@, c, visited, a.peer) {
        assert(dist(c, a.registry@[i].peer) >= dist(c, a.peer));
    }
    let k = choose|k: int| #[trigger] eligible(a.registry@, k, visited) && a.registry@[k].peer
        == ra.0;
}

/// Store then fetch: a store of `value` under `key` that reaches `a` when no
/// eligible peer is nearer the key is applied at `a` and acked; a later fetch
/// of `key` from `b` that reaches `a` is answered to `b` with `value`, and the
/// answer completes `b`'s live Get transaction with that value.
pub proof fn lemma_put_then_get(
    a0: Node,
    a1: Node,
    tx: u64,
    origin: u64,
    sender: u64,
    key: u64,
    value: u64,
    hops: u32,
    visited: Seq<u64>,
    now: u64,
    deadline: u64,
    rp: Option<(u64, Message)>,
    t: Transaction,
    b: u64,
    get_hops: u32,
    get_visited: Seq<u64>,
    rg: (u64, Message),
)
    requires
        none_closer(a0.registry@, key, visited, a0.peer),
        put_effect(a0, a1, tx, origin, sender, key, value, hops, visited, now, deadline, rp),
        get_answer(a1, t.id, b, key, get_hops, get_visited, rg),
        t.kind == OpKind::Get,
    ensures
        rp.is_some() && rp.unwrap().0 == sender && rp.unwrap().1.payload == Payload::PutAck,
        rg.0 == b,
        rg.1.payload == (Payload::GetResponse { state: value }),
        reply_spec(t, b, rg.1.payload) == (
            Transaction { status: TxStatus::Completed, ..t },
            Delivery::Done { outcome: Outcome::Value { state: value } },
        ),
{
}

/// Fetch of an unknown key: when the node reached holds no state for `key`
/// and no untried peer is left, the originator is told that no candidate is
/// left, and that answer fails its live Get transaction with that error.
pub proof fn lemma_get_unknown_key_fails(
    n: Node,
    t: Transaction,
    origin: u64,
    key: u64,
    hops: u32,
    visited: Seq<u64>,
    rg: (u64, Message),
)
    requires
        n.cache.lookup(key).is_none(),
        crate::ring::none_eligible(n.registry@, visited),
        get_answer(n, t.id, origin, key, hops, visited, rg),
        t.kind == OpKind::Get,
        t.originator == origin,
    ensures
        rg.0 == origin,
        rg.1.payload is Nack,
        reply_spec(t, origin, rg.1.payload).0.status == TxStatus::Failed,
        reply_spec(t, origin, rg.1.payload).1 matches Delivery::Done {
            outcome: Outcome::Failed { .. },
        },
{
    if hops < n.max_hops && rg.1.payload == (Payload::GetRequest { key }) {
        let k = choose|k: int| #[trigger] eligible(n.registry@, k, visited) && n.registry@[k].peer
            == rg.0;
    }
}

/// How a locally started operation goes on.
pub enum Start {
    /// Send `msg` to `to`; the transaction is in flight.
    Send { to: u64, msg: Message },
    /// Settled on the spot with `outcome`.
    Done { outcome: Outcome },
}

/// A reply envelope, which carries no visited peers.
fn reply_msg(tx: u64, origin: u64, me: u64, hops: u32, payload: Payload) -> (m: Message)
    ensures
        m.tx == tx,
        m.origin == origin,
        m.sender == me,
        m.payload == payload,
        m.visited@.len() == 0,
{
    Message { tx, origin, sender: me, hops, visited: Vec::new(), payload }
}

/// The record a node keeps of a store request it passed on to `next`, so
/// that the ack can be relayed back to `sender`.
pub open spec fn relay_tx(
    id: u64,
    origin: u64,
    key: u64,
    next: u64,
    sender: u64,
    hops: u32,
    now: u64,
    deadline: u64,
) -> Transaction {
    Transaction {
        id,
        kind: OpKind::Put,
        originator: origin,
        target: key,
        deadline,
        retries: 0,
        last_send: now,
        peer: next,
        reply_to: sender,
        hops,
        status: TxStatus::InFlight,
        cancelled: false,
    }
}

/// One peer of the overlay: its links, its transactions, its contract
/// states and the interests recorded here, with its limits (links it accepts
/// and hop budget). Stores are kept at one node, the nearest to their key, so
/// a single ack settles a store.
pub struct Node {
    pub peer: u64,
    pub registry: PeerRegistry,
    pub store: OperationStateStore,
    pub cache: ContractCache,
    pub subs: SubscriptionTable,
    pub capacity: usize,
    pub max_hops: u32,
}

/// A fresh in-flight transaction started here.
pub open spec fn fresh_tx(
    id: u64,
    kind: OpKind,
    me: u64,
    target: u64,
    next: u64,
    now: u64,
    deadline: u64,
) -> Transaction {
    Transaction {
        id,
        kind,
        originator: me,
        target,
        deadline,
        retries: 0,
        last_send: now,
        peer: next,
        reply_to: me,
        hops: 0,
        status: TxStatus::InFlight,
        cancelled: false,
    }
}

impl Node {
    pub open spec fn wf(&self) -> bool {
        self.registry.wf() && self.store.wf() && self.cache.wf() && self.subs.wf()
    }

    pub fn new(peer: u64, capacity: usize, max_hops: u32) -> (r: Node)
        ensures
            r.wf(),
            r.peer == peer,
            r.capacity == capacity,
            r.max_hops == max_hops,
            r.registry@.len() == 0,
            r.store.live@.len() == 0,
            r.store.seen@.len() == 0,
            forall|k: u64| #[trigger] r.cache.lookup(k).is_none(),
            forall|p: u64, k: u64| !#[trigger] holds(r.subs@, p, k),
    {
        Node {
            peer,
            registry: PeerRegistry::new(),
            store: OperationStateStore::new(),
            cache: ContractCache::new(),
            subs: SubscriptionTable::new(),
            capacity,
            max_hops,
        }
    }

    /// A reply `p` for transaction `tx` arrives. Replies for a transaction
    /// that is not live here, or that was cancelled, are dropped and change
    /// nothing. A transaction that ends, or whose reply is passed on, leaves
    /// the store.
    pub fn on_reply(&mut self, tx: u64, p: Payload) -> (r: Delivery)
        requires
            old(self).wf(),
        ensures
            final(self).wf(),
            reply_effect(*old(self), *final(self), tx, p, r),
    {
        let t = match self.store.get(tx) {
            None => {
                return Delivery::Discarded;
            },
            Some(t) => t,
        };
        if t.cancelled || t.status == TxStatus::Completed || t.status == TxStatus::Failed
            || t.status == TxStatus::TimedOut {
            return Delivery::Discarded;
        }
        let me = self.peer;
        let (n, d) = match p {
            Payload::JoinAck { accepting } => if t.kind == OpKind::Connect {
                (
                    Transaction { status: TxStatus::Completed, peer: accepting, ..t },
                    Delivery::Done { outcome: Outcome::Joined { peer: accepting } },
                )
            } else {
                (t, Delivery::Discarded)
            },
            Payload::GetResponse { state } => if t.kind == OpKind::Get {
                (
                    Transaction { status: TxStatus::Completed, ..t },
                    Delivery::Done { outcome: Outcome::Value { state } },
                )
            } else {
                (t, Delivery::Discarded)
            },
            Payload::PutAck => if t.kind != OpKind::Put {
                (t, Delivery::Discarded)
            } else if t.originator != me {
                (
                    Transaction { status: TxStatus::Completed, ..t },
                    Delivery::Relay { to: t.reply_to },
                )
            } else {
                (
                    Transaction { status: TxStatus::Completed, ..t },
                    Delivery::Done { outcome: Outcome::Stored },
                )
            },
            Payload::Nack { reason } => if t.originator != me {
                (Transaction { status: TxStatus::Failed, ..t }, Delivery::Relay { to: t.reply_to })
            } else {
                (
                    Transaction { status: TxStatus::Failed, ..t },
                    Delivery::Done { outcome: Outcome::Failed { error: reason } },
                )
            },
            _ => (t, Delivery::Discarded),
        };
        assert((n, d) == reply_spec(t, me, p));
        match d {
            Delivery::Discarded => {},
            _ => {
                let _ = self.store.remove(tx);
            },
        }
        d
    }

    /// A join request for `target` reaches this node after `hops` hops. With
    /// room for another link it answers the joiner directly; otherwise,
    /// within the hop budget, it passes the request to the nearest eligible
    /// peer strictly nearer to `target` than itself, or else refuses.
    pub fn on_join_request(
        &self,
        tx: u64,
        origin: u64,
        target: u64,
        hops: u32,
        visited: &Vec<u64>,
    ) -> (r: (u64, Message))
        requires
            self.wf(),
        ensures
            join_answer(*self, tx, origin, target, hops, visited@, r),
    {
        let open = open_links(&self.registry);
        let d = join_decision(
            self.peer,
            &self.registry,
            open,
            self.capacity,
            target,
            visited,
            hops,
            self.max_hops,
        );
        let me = self.peer;
        match d {
            RouteDecision::Accept => (
                origin,
                Message {
                    tx,
                    origin,
                    sender: me,
                    hops,
                    visited: Vec::new(),
                    payload: Payload::JoinAck { accepting: me },
                },
            ),
            RouteDecision::Forward { peer } => (
                peer,
                Message {
                    tx,
                    origin,
                    sender: me,
                    hops: hops + 1,
                    visited: with_hop(visited, me),
                    payload: Payload::JoinRequest { target },
                },
            ),
            RouteDecision::Reject { error } => (
                origin,
                Message {
                    tx,
                    origin,
                    sender: me,
                    hops,
                    visited: Vec::new(),
                    payload: Payload::Nack { reason: error },
                },
            ),
        }
    }

    /// A fetch of `key` reaches this node after `hops` hops. A node that
    /// holds the state answers the originator directly; otherwise, within
    /// the hop budget, it passes the request to the nearest untried peer, and
    /// with none left it reports to the originator that the key was not
    /// found.
    pub fn on_get_request(
        &self,
        tx: u64,
        origin: u64,
        key: u64,
        hops: u32,
        visited: &Vec<u64>,
    ) -> (r: (u64, Message))
        requires
            self.wf(),
        ensures
            get_answer(*self, tx, origin, key, hops, visited@, r),
    {
        let me = self.peer;
        let held = self.cache.resolve_locally(key);
        if held.is_none() && hops >= self.max_hops {
            let nack = Payload::Nack { reason: RoutingError::MaxHopsExceeded };
            return (origin, reply_msg(tx, origin, me, hops, nack));
        }
        match get_decision(held, &self.registry, key, visited) {
            GetDecision::Respond { state } => (
                origin,
                reply_msg(tx, origin, me, hops, Payload::GetResponse { state }),
            ),
            GetDecision::Forward { peer } => (
                peer,
                Message {
                    tx,
                    origin,
                    sender: me,
                    hops: hops + 1,
                    visited: with_hop(visited, me),
                    payload: Payload::GetRequest { key },
                },
            ),
            GetDecision::NotFound => (
                origin,
                reply_msg(tx, origin, me, hops, Payload::Nack { reason: RoutingError::NoCandidatePeers }),
            ),
        }
    }

    /// A store of `value` under `key`, sent on by `sender`, reaches this node
    /// after `hops` hops. When no eligible peer is strictly nearer the key,
    /// it is applied here and acked to `sender`. Otherwise, within the hop
    /// budget, it goes on to the nearest eligible peer, and this node keeps a
    /// record to relay the ack back; a transaction id already used here is
    /// dropped (`None`).
    pub fn on_put_request(
        &mut self,
        tx: u64,
        origin: u64,
        sender: u64,
        key: u64,
        value: u64,
        hops: u32,
        visited: &Vec<u64>,
        now: u64,
        deadline: u64,
    ) -> (r: Option<(u64, Message)>)
        requires
            old(self).wf(),
        ensures
            final(self).wf(),
            put_effect(
                *old(self),
                *final(self),
                tx,
                origin,
                sender,
                key,
                value,
                hops,
                visited@,
                now,
                deadline,
                r,
            ),
    {
        let me = self.peer;
        match put_decision(me, &self.registry, key, visited) {
            RouteDecision::Forward { peer } => {
                if hops >= self.max_hops {
                    return Some(
                        (
                            sender,
                            reply_msg(
                                tx,
                                origin,
                                me,
                                hops,
                                Payload::Nack { reason: RoutingError::MaxHopsExceeded },
                            ),
                        ),
                    );
                }
                let rec = Transaction {
                    id: tx,
                    kind: OpKind::Put,
                    originator: origin,
                    target: key,
                    deadline,
                    retries: 0,
                    last_send: now,
                    peer,
                    reply_to: sender,
                    hops: hops + 1,
                                status: TxStatus::InFlight,
                    cancelled: false,
                };
                match self.store.create(rec) {
                    Err(_) => None,
                    Ok(()) => Some(
                        (
                            peer,
                            Message {
                                tx,
                                origin,
                                sender: me,
                                hops: hops + 1,
                                visited: with_hop(visited, me),
                                payload: Payload::PutRequest { key, value },
                            },
                        ),
                    ),
                }
            },
            _ => {
                self.cache.apply(key, value);
                Some((sender, reply_msg(tx, origin, me, hops, Payload::PutAck)))
            },
        }
    }

    /// Starts joining the ring through `gateway`: asks it to place this node.
    pub fn start_join(&mut self, tx: u64, gateway: u64, now: u64, deadline: u64) -> (r: Result<
        (u64, Message),
        StateError,
    >)
        requires
            old(self).wf(),
        ensures
            final(self).wf(),
            final(self).peer == old(self).peer,
            final(self).registry@ == old(self).registry@,
            final(self).cache.entries@ == old(self).cache.entries@,
            old(self).store.seen@.contains(tx) ==> r.is_err() && final(self).store.live@ == old(
                self).store.live@,
            !old(self).store.seen@.contains(tx) ==> {
                &&& r.is_ok()
                &&& r.unwrap().0 == gateway
                &&& r.unwrap().1.tx == tx
                &&& r.unwrap().1.origin == old(self).peer
                &&& r.unwrap().1.hops == 0
                &&& r.unwrap().1.visited@ == seq![old(self).peer]
                &&& r.unwrap().1.payload == (Payload::JoinRequest { target: old(self).peer })
                &&& final(self).store.live@ == old(self).store.live@.push(
                    fresh_tx(tx, OpKind::Connect, old(self).peer, old(self).peer, gateway, now, deadline),
                )
            },
    {
        let me = self.peer;
        let t = Transaction {
            id: tx,
            kind: OpKind::Connect,
            originator: me,
            target: me,
            deadline,
            retries: 0,
            last_send: now,
            peer: gateway,
            reply_to: me,
            hops: 0,
                status: TxStatus::InFlight,
            cancelled: false,
        };
        match self.store.create(t) {
            Err(e) => Err(e),
            Ok(()) => {
                let mut visited: Vec<u64> = Vec::new();
                visited.push(me);
                Ok(
                    (
                        gateway,
                        Message {
                            tx,
                            origin: me,
                            sender: me,
                            hops: 0,
                            visited,
                            payload: Payload::JoinRequest { target: me },
                        },
                    ),
                )
            },
        }
    }

    /// Starts a fetch of `key`. A state held here settles it at once;
    /// otherwise the request goes to the nearest eligible peer, and with none
    /// the key is not found.
    pub fn start_get(&mut self, tx: u64, key: u64, now: u64, deadline: u64) -> (r: Result<
        Start,
        StateError,
    >)
        requires
            old(self).wf(),
        ensures
            final(self).wf(),
            final(self).peer == old(self).peer,
            final(self).registry@ == old(self).registry@,
            final(self).cache.entries@ == old(self).cache.entries@,
            old(self).store.seen@.contains(tx) ==> r == Err::<Start, StateError>(
                StateError::AlreadyExists,
            ) && final(self).store.live@ == old(self).store.live@ && final(self).store.seen@ == old(
                self).store.seen@,
            !old(self).store.seen@.contains(tx) ==> final(self).store.seen@ == old(
                self).store.seen@.push(tx) && match old(self).cache.lookup(key) {
                Some(v) => final(self).store.live@ == old(self).store.live@ && match r {
                    Ok(Start::Done { outcome }) => outcome == (Outcome::Value { state: v }),
                    _ => false,
                },
                None => match r {
                    Ok(Start::Send { to, msg }) => {
                        &&& is_nearest(old(self).registry@, key, seq![old(self).peer], to)
                        &&& msg.tx == tx
                        &&& msg.origin == old(self).peer
                        &&& msg.hops == 0
                        &&& msg.visited@ == seq![old(self).peer]
                        &&& msg.payload == (Payload::GetRequest { key })
                        &&& final(self).store.live@ == old(self).store.live@.push(
                            fresh_tx(tx, OpKind::Get, old(self).peer, key, to, now, deadline),
                        )
                    },
                    Ok(Start::Done { outcome }) => {
                        &&& outcome == (Outcome::Failed { error: RoutingError::NoCandidatePeers })
                        &&& none_eligible(old(self).registry@, seq![old(self).peer])
                        &&& final(self).store.live@ == old(self).store.live@
                    },
                    Err(_) => false,
                },
            },
    {
        if self.store.is_used(tx) {
            return Err(StateError::AlreadyExists);
        }
        let me = self.peer;
        match self.cache.resolve_locally(key) {
            Some(v) => {
                self.store.retire(tx);
                Ok(Start::Done { outcome: Outcome::Value { state: v } })
            },
            None => {
                let mut visited: Vec<u64> = Vec::new();
                visited.push(me);
                assert(visited@ == seq![me]);
                match closest_peer(&self.registry, key, &visited) {
                    Some(p) => {
                        let t = Transaction {
                            id: tx,
                            kind: OpKind::Get,
                            originator: me,
                            target: key,
                            deadline,
                            retries: 0,
                            last_send: now,
                            peer: p,
                            reply_to: me,
                            hops: 0,
                                                status: TxStatus::InFlight,
                            cancelled: false,
                        };
                        let _ = self.store.create(t);
                        Ok(
                            Start::Send {
                                to: p,
                                msg: Message {
                                    tx,
                                    origin: me,
                                    sender: me,
                                    hops: 0,
                                    visited,
                                    payload: Payload::GetRequest { key },
                                },
                            },
                        )
                    },
                    None => {
                        self.store.retire(tx);
                        Ok(Start::Done { outcome: Outcome::Failed { error: RoutingError::NoCandidatePeers } })
                    },
                }
            },
        }
    }

    /// Starts a store of `value` under `key`. When no eligible peer is
    /// strictly nearer the key than this node, it is applied here and settled
    /// at once; otherwise the request goes to the nearest eligible peer.
    pub fn start_put(&mut self, tx: u64, key: u64, value: u64, now: u64, deadline: u64) -> (r:
        Result<Start, StateError>)
        requires
            old(self).wf(),
        ensures
            final(self).wf(),
            final(self).peer == old(self).peer,
            final(self).registry@ == old(self).registry@,
            old(self).store.seen@.contains(tx) ==> r == Err::<Start, StateError>(
                StateError::AlreadyExists,
            ) && final(self).store.live@ == old(self).store.live@ && final(self).store.seen@ == old(
                self).store.seen@ && final(self).cache.entries@ == old(self).cache.entries@,
            !old(self).store.seen@.contains(tx) ==> final(self).store.seen@ == old(
                self).store.seen@.push(tx) && if none_closer(
                old(self).registry@,
                key,
                seq![old(self).peer],
                old(self).peer,
            ) {
                &&& final(self).store.live@ == old(self).store.live@
                &&& final(self).cache.lookup(key) == Some(value)
                &&& forall|k: u64|
                    k != key ==> #[trigger] final(self).cache.lookup(k) == old(self).cache.lookup(k)
                &&& match r {
                    Ok(Start::Done { outcome }) => outcome == Outcome::Stored,
                    _ => false,
                }
            } else {
                &&& final(self).cache.entries@ == old(self).cache.entries@
                &&& match r {
                    Ok(Start::Send { to, msg }) => {
                        &&& is_nearest(old(self).registry@, key, seq![old(self).peer], to)
                        &&& dist(key, to) < dist(key, old(self).peer)
                        &&& msg.tx == tx
                        &&& msg.origin == old(self).peer
                        &&& msg.hops == 0
                        &&& msg.visited@ == seq![old(self).peer]
                        &&& msg.payload == (Payload::PutRequest { key, value })
                        &&& final(self).store.live@ == old(self).store.live@.push(
                            fresh_tx(tx, OpKind::Put, old(self).peer, key, to, now, deadline),
                        )
                    },
                    _ => false,
                }
            },
    {
        if self.store.is_used(tx) {
            return Err(StateError::AlreadyExists);
        }
        let me = self.peer;
        let mut visited: Vec<u64> = Vec::new();
        visited.push(me);
        assert(visited@ == seq![me]);
        match put_decision(me, &self.registry, key, &visited) {
            RouteDecision::Forward { peer } => {
                let t = Transaction {
                    id: tx,
                    kind: OpKind::Put,
                    originator: me,
                    target: key,
                    deadline,
                    retries: 0,
                    last_send: now,
                    peer,
                    reply_to: me,
                    hops: 0,
                                status: TxStatus::InFlight,
                    cancelled: false,
                };
                let _ = self.store.create(t);
                Ok(
                    Start::Send {
                        to: peer,
                        msg: Message {
                            tx,
                            origin: me,
                            sender: me,
                            hops: 0,
                            visited,
                            payload: Payload::PutRequest { key, value },
                        },
                    },
                )
            },
            _ => {
                self.cache.apply(key, value);
                self.store.retire(tx);
                Ok(Start::Done { outcome: Outcome::Stored })
            },
        }
    }

    /// A subscription to `key`, sent on by `sender`, reaches this node after
    /// `hops` hops. The interest of `sender` is recorded here; within the hop
    /// budget, the request goes on to the nearest eligible peer when that one
    /// is strictly nearer the key, and otherwise the path ends here (`None`).
    pub fn on_subscribe(
        &mut self,
        tx: u64,
        origin: u64,
        sender: u64,
        key: u64,
        hops: u32,
        visited: &Vec<u64>,
    ) -> (r: Option<(u64, Message)>)
        requires
            old(self).wf(),
        ensures
            final(self).wf(),
            subscribe_effect(*old(self), *final(self), tx, origin, sender, key, hops, visited@, r),
    {
        self.subs.subscribe(sender, key);
        let me = self.peer;
        match put_decision(me, &self.registry, key, visited) {
            RouteDecision::Forward { peer } => {
                if hops >= self.max_hops {
                    return None;
                }
                Some(
                    (
                        peer,
                        Message {
                            tx,
                            origin,
                            sender: me,
                            hops: hops + 1,
                            visited: with_hop(visited, me),
                            payload: Payload::Subscribe { key },
                        },
                    ),
                )
            },
            _ => None,
        }
    }

    /// `sender` withdraws its interest in `key`.
    pub fn on_unsubscribe(&mut self, sender: u64, key: u64)
        requires
            old(self).wf(),
        ensures
            final(self).wf(),
            final(self).peer == old(self).peer,
            final(self).registry@ == old(self).registry@,
            final(self).store.live@ == old(self).store.live@,
            final(self).store.seen@ == old(self).store.seen@,
            forall|p: u64, k: u64|
                #[trigger] holds(final(self).subs@, p, k) <==> holds(old(self).subs@, p, k) && !(p
                    == sender && k == key),
    {
        self.subs.unsubscribe(sender, key);
    }

    /// The link to `peer` closed: the peer leaves the registry and its
    /// interests are pruned.
    pub fn on_link_closed(&mut self, peer: u64)
        requires
            old(self).wf(),
        ensures
            final(self).wf(),
            final(self).peer == old(self).peer,
            !has_peer(final(self).registry@, peer),
            final(self).store.live@ == old(self).store.live@,
            final(self).store.seen@ == old(self).store.seen@,
            forall|p: u64, k: u64|
                #[trigger] holds(final(self).subs@, p, k) <==> holds(old(self).subs@, p, k) && p
                    != peer,
    {
        self.registry.fail(peer);
        self.subs.prune_peer(peer);
    }

    /// One missed heartbeat ack from `peer`; when that closes the link, the
    /// peer's interests are pruned as well.
    pub fn on_heartbeat_missed(&mut self, peer: u64, cfg: HeartbeatConfig) -> (r: Result<
        ConnState,
        UpdateError,
    >)
        requires
            old(self).wf(),
            cfg.valid(),
        ensures
            final(self).wf(),
            final(self).peer == old(self).peer,
            final(self).store.live@ == old(self).store.live@,
            r == Ok::<ConnState, UpdateError>(ConnState::Closed) ==> !has_peer(final(self).registry@, peer)
                && forall|p: u64, k: u64|
                #[trigger] holds(final(self).subs@, p, k) <==> holds(old(self).subs@, p, k) && p
                    != peer,
            r != Ok::<ConnState, UpdateError>(ConnState::Closed) ==> final(self).subs@ == old(self).subs@,
            match old(self).registry.find_spec(peer) {
                None => r == Err::<ConnState, UpdateError>(UpdateError::UnknownPeer),
                Some(i) => r == Ok::<ConnState, UpdateError>(
                    crate::registry::after_miss(
                        old(self).registry@[i].state,
                        old(self).registry@[i].missed_acks,
                        cfg,
                    ).0,
                ),
            },
    {
        let r = self.registry.heartbeat_missed(peer, cfg);
        let closed = match r {
            Ok(ConnState::Closed) => true,
            _ => false,
        };
        if closed {
            self.subs.prune_peer(peer);
            proof {
                let i = old(self).registry.find_spec(peer).unwrap();
                assert(self.registry@ == old(self).registry@.remove(i));
                assert forall|j: int| 0 <= j < self.registry@.len() implies #[trigger] self.registry@[j].peer
                    != peer by {
                    if j < i {
                        assert(self.registry@[j] == old(self).registry@[j]);
                    } else {
                        assert(self.registry@[j] == old(self).registry@[j + 1]);
                    }
                }
            }
        }
        r
    }

    /// The inbound dispatcher: hands `msg` to the handler of its kind.
    /// Requests are answered or passed on, replies go to their transaction by
    /// id, heartbeats are acked, and acks refresh the sender's link. `now`
    /// and `deadline` stamp any relay record kept for a store.
    pub fn handle(&mut self, msg: &Message, now: u64, deadline: u64) -> (r: Handled)
        requires
            old(self).wf(),
        ensures
            final(self).wf(),
            match msg.payload {
                Payload::JoinRequest { target } => *final(self) == *old(self) && match r {
                    Handled::Send { to, msg: m } => join_answer(
                        *old(self),
                        msg.tx,
                        msg.origin,
                        target,
                        msg.hops,
                        msg.visited@,
                        (to, m),
                    ),
                    _ => false,
                },
                Payload::GetRequest { key } => *final(self) == *old(self) && match r {
                    Handled::Send { to, msg: m } => get_answer(
                        *old(self),
                        msg.tx,
                        msg.origin,
                        key,
                        msg.hops,
                        msg.visited@,
                        (to, m),
                    ),
                    _ => false,
                },
                Payload::PutRequest { key, value } => match r {
                    Handled::Send { to, msg: m } => put_effect(
                        *old(self),
                        *final(self),
                        msg.tx,
                        msg.origin,
                        msg.sender,
                        key,
                        value,
                        msg.hops,
                        msg.visited@,
                        now,
                        deadline,
                        Some((to, m)),
                    ),
                    Handled::Absorbed => put_effect(
                        *old(self),
                        *final(self),
                        msg.tx,
                        msg.origin,
                        msg.sender,
                        key,
                        value,
                        msg.hops,
                        msg.visited@,
                        now,
                        deadline,
                        None,
                    ),
                    _ => false,
                },
                Payload::Subscribe { key } => match r {
                    Handled::Send { to, msg: m } => subscribe_effect(
                        *old(self),
                        *final(self),
                        msg.tx,
                        msg.origin,
                        msg.sender,
                        key,
                        msg.hops,
                        msg.visited@,
                        Some((to, m)),
                    ),
                    Handled::Absorbed => subscribe_effect(
                        *old(self),
                        *final(self),
                        msg.tx,
                        msg.origin,
                        msg.sender,
                        key,
                        msg.hops,
                        msg.visited@,
                        None,
                    ),
                    _ => false,
                },
                Payload::Unsubscribe { key } => {
                    &&& r is Absorbed
                    &&& final(self).registry@ == old(self).registry@
                    &&& final(self).store.live@ == old(self).store.live@
                    &&& forall|p: u64, k: u64|
                        #[trigger] holds(final(self).subs@, p, k) <==> holds(old(self).subs@, p, k)
                            && !(p == msg.sender && k == key)
                },
                Payload::Heartbeat => *final(self) == *old(self) && match r {
                    Handled::Send { to, msg: m } => to == msg.sender && m.tx == msg.tx
                        && m.sender == old(self).peer && m.payload == Payload::HeartbeatAck,
                    _ => false,
                },
                Payload::HeartbeatAck => {
                    &&& r is Absorbed
                    &&& acked(
                        old(self).registry@,
                        final(self).registry@,
                        old(self).registry.find_spec(msg.sender),
                        now,
                    )
                    &&& final(self).store.live@ == old(self).store.live@
                    &&& final(self).subs@ == old(self).subs@
                },
                _ => match r {
                    Handled::Delivered { delivery } => reply_effect(
                        *old(self),
                        *final(self),
                        msg.tx,
                        msg.payload,
                        delivery,
                    ),
                    _ => false,
                },
            },
    {
        match msg.payload {
            Payload::JoinRequest { target } => {
                let (to, m) = self.on_join_request(msg.tx, msg.origin, target, msg.hops, &msg.visited);
                Handled::Send { to, msg: m }
            },
            Payload::GetRequest { key } => {
                let (to, m) = self.on_get_request(msg.tx, msg.origin, key, msg.hops, &msg.visited);
                Handled::Send { to, msg: m }
            },
            Payload::PutRequest { key, value } => {
                match self.on_put_request(
                    msg.tx,
                    msg.origin,
                    msg.sender,
                    key,
                    value,
                    msg.hops,
                    &msg.visited,
                    now,
                    deadline,
                ) {
                    Some((to, m)) => Handled::Send { to, msg: m },
                    None => Handled::Absorbed,
                }
            },
            Payload::Subscribe { key } => {
                match self.on_subscribe(msg.tx, msg.origin, msg.sender, key, msg.hops, &msg.visited) {
                    Some((to, m)) => Handled::Send { to, msg: m },
                    None => Handled::Absorbed,
                }
            },
            Payload::Unsubscribe { key } => {
                self.on_unsubscribe(msg.sender, key);
                Handled::Absorbed
            },
            Payload::Heartbeat => Handled::Send {
                to: msg.sender,
                msg: reply_msg(msg.tx, msg.origin, self.peer, msg.hops, Payload::HeartbeatAck),
            },
            Payload::HeartbeatAck => {
                let _ = self.registry.heartbeat_acked(msg.sender, now);
                Handled::Absorbed
            },
            Payload::JoinAck { .. } | Payload::GetResponse { .. } | Payload::PutAck | Payload::Nack {
                ..
            } => {
                let d = self.on_reply(msg.tx, msg.payload);
                Handled::Delivered { delivery: d }
            },
        }
    }
}

} // verus!
