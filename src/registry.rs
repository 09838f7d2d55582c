use vstd::prelude::*;

use crate::errors::NetworkError;

verus! {

/// Lifecycle of a link to a peer.
#[derive(Clone, Copy, Debug, PartialEq, Eq, Structural)]
pub enum ConnState {
    Connecting,
    Open,
    Stale,
    Closing,
    Closed,
}

/// The ordinary lifecycle: Connecting, Open, Stale and Open in turn, Closing,
/// Closed. Abrupt failures are not steps of it; they go through `fail`.
pub open spec fn may_transition(from: ConnState, to: ConnState) -> bool {
    match (from, to) {
        (ConnState::Connecting, ConnState::Open) => true,
        (ConnState::Connecting, ConnState::Closing) => true,
        (ConnState::Open, ConnState::Stale) => true,
        (ConnState::Stale, ConnState::Open) => true,
        (ConnState::Open, ConnState::Closing) => true,
        (ConnState::Stale, ConnState::Closing) => true,
        (ConnState::Closing, ConnState::Closed) => true,
        _ => false,
    }
}

/// Whether `from` may move to `to` along the ordinary lifecycle.
pub fn can_transition(from: ConnState, to: ConnState) -> (r: bool)
    ensures
        r == may_transition(from, to),
{
    match (from, to) {
        (ConnState::Connecting, ConnState::Open) => true,
        (ConnState::Connecting, ConnState::Closing) => true,
        (ConnState::Open, ConnState::Stale) => true,
        (ConnState::Stale, ConnState::Open) => true,
        (ConnState::Open, ConnState::Closing) => true,
        (ConnState::Stale, ConnState::Closing) => true,
        (ConnState::Closing, ConnState::Closed) => true,
        _ => false,
    }
}

/// A transport address: host and port.
#[derive(Clone, Copy, Debug, PartialEq, Eq, Structural)]
pub struct Address {
    pub host: u32,
    pub port: u16,
}

/// What the registry knows of one peer.
#[derive(Clone, Copy, Debug, PartialEq, Eq, Structural)]
pub struct PeerEntry {
    pub peer: u64,
    pub addr: Address,
    pub state: ConnState,
    pub last_heartbeat: u64,
    pub missed_acks: u64,
}

/// Heartbeat thresholds: `stale_after` missed acks take an Open link to
/// Stale, `close_after` further missed acks take a Stale link to Closed.
#[derive(Clone, Copy, Debug, PartialEq, Eq, Structural)]
pub struct HeartbeatConfig {
    pub stale_after: u64,
    pub close_after: u64,
}

impl HeartbeatConfig {
    pub open spec fn valid(self) -> bool {
        self.stale_after >= 1 && self.close_after >= 1
    }
}

/// One missed heartbeat ack, on a link's state and its count of missed acks.
pub open spec fn after_miss(state: ConnState, missed: u64, cfg: HeartbeatConfig) -> (ConnState, u64) {
    match state {
        ConnState::Open => if missed + 1 >= cfg.stale_after {
            (ConnState::Stale, 0u64)
        } else {
            (ConnState::Open, (missed + 1) as u64)
        },
        ConnState::Stale => if missed + 1 >= cfg.close_after {
            (ConnState::Closed, 0u64)
        } else {
            (ConnState::Stale, (missed + 1) as u64)
        },
        _ => (state, missed),
    }
}

/// `n` missed acks in a row.
pub open spec fn after_misses(state: ConnState, missed: u64, cfg: HeartbeatConfig, n: nat) -> (
    ConnState,
    u64,
)
    decreases n,
{
    if n == 0 {
        (state, missed)
    } else {
        let prev = after_misses(state, missed, cfg, (n - 1) as nat);
        after_miss(prev.0, prev.1, cfg)
    }
}

pub open spec fn has_peer(s: Seq<PeerEntry>, p: u64) -> bool {
    exists|i: int| 0 <= i < s.len() && #[trigger] s[i].peer == p
}

/// A peer that routing may use: known and with an Open link.
pub open spec fn routable(s: Seq<PeerEntry>, p: u64) -> bool {
    exists|i: int| 0 <= i < s.len() && #[trigger] s[i].peer == p && s[i].state == ConnState::Open
}

/// The entries after a verified handshake with `peer` at `addr`, whose entry
/// is at `i` if it is known: a new peer is added Open, a connecting one is
/// opened, and either way the address is refreshed.
pub open spec fn accepted(s: Seq<PeerEntry>, i: Option<int>, peer: u64, addr: Address, now: u64) -> Seq<
    PeerEntry,
> {
    match i {
        None => s.push(
            PeerEntry { peer, addr, state: ConnState::Open, last_heartbeat: now, missed_acks: 0 },
        ),
        Some(i) => s.update(
            i,
            PeerEntry {
                addr,
                state: if s[i].state == ConnState::Connecting {
                    ConnState::Open
                } else {
                    s[i].state
                },
                ..s[i]
            },
        ),
    }
}

/// How an outbound handshake ended, as the transport reports it.
#[derive(Clone, Copy, Debug, PartialEq, Eq, Structural)]
pub enum HandshakeResult {
    /// The transport could not be set up.
    TransportFailed,
    /// No answer came before the connect deadline.
    NoResponse,
    /// The peer's signed identity proof did not check out.
    BadProof,
    /// The peer proved its identity.
    Verified,
}

/// Why a registry update was refused.
#[derive(Clone, Copy, Debug, PartialEq, Eq, Structural)]
pub enum UpdateError {
    /// The peer is not known (never registered, or removed).
    UnknownPeer,
    /// The lifecycle does not allow the step.
    IllegalTransition,
}

/// The authoritative record of known peers, in order of registration.
pub struct PeerRegistry {
    pub entries: Vec<PeerEntry>,
}

impl PeerRegistry {
    pub open spec fn view(&self) -> Seq<PeerEntry> {
        self.entries@
    }

    /// One entry per peer, and none for a closed link.
    pub open spec fn wf(&self) -> bool {
        &&& forall|i: int, j: int|
            0 <= i < self@.len() && 0 <= j < self@.len() && i != j ==> #[trigger] self@[i].peer
                != #[trigger] self@[j].peer
        &&& forall|i: int| 0 <= i < self@.len() ==> #[trigger] self@[i].state != ConnState::Closed
    }

    pub fn new() -> (r: PeerRegistry)
        ensures
            r.wf(),
            r@ == Seq::<PeerEntry>::empty(),
    {
        PeerRegistry { entries: Vec::new() }
    }

    /// Index of `peer`'s entry, if it is known.
    pub fn find(&self, peer: u64) -> (r: Option<usize>)
        ensures
            match r {
                Some(i) => i < self@.len() && self@[i as int].peer == peer,
                None => !has_peer(self@, peer),
            },
    {
        let mut i: usize = 0;
        while i < self.entries.len()
            invariant
                i <= self@.len(),
                forall|j: int| 0 <= j < i ==> self@[j].peer != peer,
            decreases self@.len() - i,
        {
            if self.entries[i].peer == peer {
                return Some(i);
            }
            i += 1;
        }
        None
    }

    /// Records `peer` at `addr`. A known peer keeps its entry and gets the new
    /// address; a new one is appended in state Connecting.
    pub fn register(&mut self, peer: u64, addr: Address, now: u64)
        requires
            old(self).wf(),
        ensures
            final(self).wf(),
            forall|p: u64| #[trigger] has_peer(final(self)@, p) <==> has_peer(old(self)@, p) || p == peer,
            match old(self).find_spec(peer) {
                Some(i) => final(self)@ == old(self)@.update(
                    i,
                    PeerEntry { addr, ..old(self)@[i] },
                ),
                None => final(self)@ == old(self)@.push(
                    PeerEntry {
                        peer,
                        addr,
                        state: ConnState::Connecting,
                        last_heartbeat: now,
                        missed_acks: 0,
                    },
                ),
            },
    {
        match self.find(peer) {
            Some(i) => {
                proof {
                    self.lemma_find_spec(i as int, peer);
                }
                let mut e = self.entries[i];
                e.addr = addr;
                self.entries[i] = e;
                proof {
                    assert forall|p: u64| #[trigger] has_peer(self@, p) <==> has_peer(old(self)@, p)
                        by {
                        if has_peer(old(self)@, p) {
                            let k = choose|k: int| 0 <= k < old(self)@.len() && #[trigger] old(self)@[k].peer == p;
                            assert(self@[k].peer == p);
                        }
                        if has_peer(self@, p) {
                            let k = choose|k: int| 0 <= k < self@.len() && #[trigger] self@[k].peer == p;
                            assert(old(self)@[k].peer == p);
                        }
                    }
                }
            },
            None => {
                self.entries.push(
                    PeerEntry {
                        peer,
                        addr,
                        state: ConnState::Connecting,
                        last_heartbeat: now,
                        missed_acks: 0,
                    },
                );
                proof {
                    assert(self@[self@.len() - 1].peer == peer);
                    assert forall|p: u64| #[trigger] has_peer(self@, p) <==> has_peer(old(self)@, p)
                        || p == peer by {
                        if has_peer(old(self)@, p) {
                            let k = choose|k: int| 0 <= k < old(self)@.len() && #[trigger] old(self)@[k].peer == p;
                            assert(self@[k].peer == p);
                        }
                        if has_peer(self@, p) && p != peer {
                            let k = choose|k: int| 0 <= k < self@.len() && #[trigger] self@[k].peer == p;
                            assert(old(self)@[k].peer == p);
                        }
                    }
                }
            },
        }
    }

    /// The index of `peer`'s entry, as a spec value.
    pub open spec fn find_spec(&self, peer: u64) -> Option<int> {
        if has_peer(self@, peer) {
            Some(choose|i: int| 0 <= i < self@.len() && #[trigger] self@[i].peer == peer)
        } else {
            None
        }
    }

    /// In a well-formed registry the entry of a peer is the one found.
    pub proof fn lemma_find_spec(&self, i: int, peer: u64)
        requires
            self.wf(),
            0 <= i < self@.len(),
            self@[i].peer == peer,
        ensures
            self.find_spec(peer) == Some(i),
    {
        assert(has_peer(self@, peer));
        let c = choose|c: int| 0 <= c < self@.len() && #[trigger] self@[c].peer == peer;
        assert(c == i);
    }

    /// Moves `peer`'s link to `to` along the lifecycle. Reaching Closed removes
    /// the entry; any other step keeps it, with its missed acks reset.
    pub fn update_state(&mut self, peer: u64, to: ConnState) -> (r: Result<(), UpdateError>)
        requires
            old(self).wf(),
        ensures
            final(self).wf(),
            match old(self).find_spec(peer) {
                None => r == Err::<(), UpdateError>(UpdateError::UnknownPeer) && final(self)@
                    == old(self)@,
                Some(i) => if !may_transition(old(self)@[i].state, to) {
                    r == Err::<(), UpdateError>(UpdateError::IllegalTransition) && final(self)@
                        == old(self)@
                } else if to == ConnState::Closed {
                    r == Ok::<(), UpdateError>(()) && final(self)@ == old(self)@.remove(i)
                } else {
                    r == Ok::<(), UpdateError>(()) && final(self)@ == old(self)@.update(
                        i,
                        PeerEntry { state: to, missed_acks: 0, ..old(self)@[i] },
                    )
                },
            },
    {
        match self.find(peer) {
            None => Err(UpdateError::UnknownPeer),
            Some(i) => {
                proof {
                    self.lemma_find_spec(i as int, peer);
                }
                let e = self.entries[i];
                if !can_transition(e.state, to) {
                    Err(UpdateError::IllegalTransition)
                } else if to == ConnState::Closed {
                    self.entries.remove(i);
                    Ok(())
                } else {
                    self.entries[i] = PeerEntry { state: to, missed_acks: 0, ..e };
                    Ok(())
                }
            },
        }
    }

    /// An inbound connection from `peer` at `addr` whose signed identity
    /// proof checked out (`proof_valid`) is registered and, if it was still
    /// connecting, opened. A bad proof fails the handshake and changes nothing.
    pub fn accept(&mut self, peer: u64, addr: Address, proof_valid: bool, now: u64) -> (r: Result<
        (),
        NetworkError,
    >)
        requires
            old(self).wf(),
        ensures
            final(self).wf(),
            !proof_valid ==> r == Err::<(), NetworkError>(NetworkError::HandshakeFailed)
                && final(self)@ == old(self)@,
            proof_valid ==> r == Ok::<(), NetworkError>(()) && final(self)@ == accepted(
                old(self)@,
                old(self).find_spec(peer),
                peer,
                addr,
                now,
            ),
    {
        if !proof_valid {
            return Err(NetworkError::HandshakeFailed);
        }
        match self.find(peer) {
            Some(i) => {
                proof {
                    self.lemma_find_spec(i as int, peer);
                }
                let e = self.entries[i];
                let state = if e.state == ConnState::Connecting {
                    ConnState::Open
                } else {
                    e.state
                };
                self.entries[i] = PeerEntry { addr, state, ..e };
            },
            None => {
                self.entries.push(
                    PeerEntry {
                        peer,
                        addr,
                        state: ConnState::Open,
                        last_heartbeat: now,
                        missed_acks: 0,
                    },
                );
            },
        }
        Ok(())
    }

    /// Completes an outbound connect to `peer` at `addr` with the transport's
    /// `outcome`: a failed setup is `Unreachable`, no answer is `Timeout`, a
    /// bad proof is `HandshakeFailed`, and each leaves the registry as it
    /// was; a verified peer is registered as `accept` does.
    pub fn connect(&mut self, peer: u64, addr: Address, outcome: HandshakeResult, now: u64) -> (r:
        Result<(), NetworkError>)
        requires
            old(self).wf(),
        ensures
            final(self).wf(),
            outcome == HandshakeResult::TransportFailed ==> r == Err::<(), NetworkError>(
                NetworkError::Unreachable,
            ) && final(self)@ == old(self)@,
            outcome == HandshakeResult::NoResponse ==> r == Err::<(), NetworkError>(
                NetworkError::Timeout,
            ) && final(self)@ == old(self)@,
            outcome == HandshakeResult::BadProof ==> r == Err::<(), NetworkError>(
                NetworkError::HandshakeFailed,
            ) && final(self)@ == old(self)@,
            outcome == HandshakeResult::Verified ==> r == Ok::<(), NetworkError>(()) && final(self)@
                == accepted(old(self)@, old(self).find_spec(peer), peer, addr, now),
    {
        match outcome {
            HandshakeResult::TransportFailed => Err(NetworkError::Unreachable),
            HandshakeResult::NoResponse => Err(NetworkError::Timeout),
            HandshakeResult::BadProof => self.accept(peer, addr, false, now),
            HandshakeResult::Verified => self.accept(peer, addr, true, now),
        }
    }

    /// Forgets `peer` for good; returns whether it was known.
    pub fn remove(&mut self, peer: u64) -> (r: bool)
        requires
            old(self).wf(),
        ensures
            final(self).wf(),
            !has_peer(final(self)@, peer),
            match old(self).find_spec(peer) {
                None => !r && final(self)@ == old(self)@,
                Some(i) => r && final(self)@ == old(self)@.remove(i),
            },
    {
        match self.find(peer) {
            None => false,
            Some(i) => {
                proof {
                    self.lemma_find_spec(i as int, peer);
                }
                self.entries.remove(i);
                proof {
                    assert forall|j: int| 0 <= j < self@.len() implies #[trigger] self@[j].peer
                        != peer by {
                        if j < i {
                            assert(old(self)@[j].peer != peer);
                        } else {
                            assert(old(self)@[j + 1].peer != peer);
                        }
                    }
                }
                true
            },
        }
    }

    /// An abrupt transport failure: the link is Closed at once, from any
    /// state, and the entry is gone. Returns whether the peer was known.
    pub fn fail(&mut self, peer: u64) -> (r: bool)
        requires
            old(self).wf(),
        ensures
            final(self).wf(),
            !has_peer(final(self)@, peer),
            match old(self).find_spec(peer) {
                None => !r && final(self)@ == old(self)@,
                Some(i) => r && final(self)@ == old(self)@.remove(i),
            },
    {
        self.remove(peer)
    }

    /// One missed heartbeat ack from `peer`. An Open link turns Stale after
    /// `stale_after` misses in a row, a Stale one Closed after `close_after`
    /// more, and a closed link leaves the registry. Returns the new state.
    pub fn heartbeat_missed(&mut self, peer: u64, cfg: HeartbeatConfig) -> (r: Result<
        ConnState,
        UpdateError,
    >)
        requires
            old(self).wf(),
            cfg.valid(),
        ensures
            final(self).wf(),
            match old(self).find_spec(peer) {
                None => r == Err::<ConnState, UpdateError>(UpdateError::UnknownPeer)
                    && final(self)@ == old(self)@,
                Some(i) => {
                    let next = after_miss(old(self)@[i].state, old(self)@[i].missed_acks, cfg);
                    &&& r == Ok::<ConnState, UpdateError>(next.0)
                    &&& if next.0 == ConnState::Closed {
                        final(self)@ == old(self)@.remove(i)
                    } else {
                        final(self)@ == old(self)@.update(
                            i,
                            PeerEntry { state: next.0, missed_acks: next.1, ..old(self)@[i] },
                        )
                    }
                },
            },
            r == Ok::<ConnState, UpdateError>(ConnState::Closed) ==> !routable(final(self)@, peer),
    {
        match self.find(peer) {
            None => Err(UpdateError::UnknownPeer),
            Some(i) => {
                proof {
                    self.lemma_find_spec(i as int, peer);
                }
                let e = self.entries[i];
                let (state, missed) = miss(e.state, e.missed_acks, cfg);
                if state == ConnState::Closed {
                    self.remove(peer);
                } else {
                    self.entries[i] = PeerEntry { state, missed_acks: missed, ..e };
                }
                Ok(state)
            },
        }
    }

    /// A heartbeat ack from `peer` at time `now`: an Open or Stale link is
    /// Open again with no missed acks; other links are left as they are.
    pub fn heartbeat_acked(&mut self, peer: u64, now: u64) -> (r: Result<ConnState, UpdateError>)
        requires
            old(self).wf(),
        ensures
            final(self).wf(),
            match old(self).find_spec(peer) {
                None => r == Err::<ConnState, UpdateError>(UpdateError::UnknownPeer)
                    && final(self)@ == old(self)@,
                Some(i) => {
                    let st = old(self)@[i].state;
                    if st == ConnState::Open || st == ConnState::Stale {
                        r == Ok::<ConnState, UpdateError>(ConnState::Open) && final(self)@
                            == old(self)@.update(
                            i,
                            PeerEntry {
                                state: ConnState::Open,
                                missed_acks: 0,
                                last_heartbeat: now,
                                ..old(self)@[i]
                            },
                        )
                    } else {
                        r == Ok::<ConnState, UpdateError>(st) && final(self)@ == old(self)@
                    }
                },
            },
    {
        match self.find(peer) {
            None => Err(UpdateError::UnknownPeer),
            Some(i) => {
                proof {
                    self.lemma_find_spec(i as int, peer);
                }
                let e = self.entries[i];
                if e.state == ConnState::Open || e.state == ConnState::Stale {
                    self.entries[i] = PeerEntry {
                        state: ConnState::Open,
                        missed_acks: 0,
                        last_heartbeat: now,
                        ..e
                    };
                    Ok(ConnState::Open)
                } else {
                    Ok(e.state)
                }
            },
        }
    }

    /// The known peers, in order of registration.
    pub fn snapshot(&self) -> (r: Vec<PeerEntry>)
        ensures
            r@ == self@,
    {
        let mut out: Vec<PeerEntry> = Vec::new();
        let mut i: usize = 0;
        while i < self.entries.len()
            invariant
                i <= self@.len(),
                out@ == self@.subrange(0, i as int),
            decreases self@.len() - i,
        {
            out.push(self.entries[i]);
            i += 1;
        }
        assert(self@.subrange(0, self@.len() as int) == self@);
        out
    }
}

/// One missed heartbeat ack, on a link's state and count of missed acks.
pub fn miss(state: ConnState, missed: u64, cfg: HeartbeatConfig) -> (r: (ConnState, u64))
    requires
        cfg.valid(),
    ensures
        r == after_miss(state, missed, cfg),
{
    match state {
        ConnState::Open => if missed >= cfg.stale_after - 1 {
            (ConnState::Stale, 0)
        } else {
            (ConnState::Open, missed + 1)
        },
        ConnState::Stale => if missed >= cfg.close_after - 1 {
            (ConnState::Closed, 0)
        } else {
            (ConnState::Stale, missed + 1)
        },
        _ => (state, missed),
    }
}

/// Liveness: an Open link with `m < stale_after` missed acks stays Open
/// while the count stays below `stale_after` and turns Stale at the miss that
/// reaches it; a Stale link with `m < close_after` missed acks stays Stale
/// while the count stays below `close_after` and closes at the miss that
/// reaches it.
pub proof fn lemma_heartbeat_liveness(cfg: HeartbeatConfig, m: u64)
    requires
        cfg.valid(),
    ensures
        m < cfg.stale_after ==> {
            &&& forall|n: nat|
                m + n < cfg.stale_after ==> #[trigger] after_misses(ConnState::Open, m, cfg, n) == (
                    ConnState::Open,
                    (m + n) as u64,
                )
            &&& after_misses(ConnState::Open, m, cfg, (cfg.stale_after - m) as nat) == (
                ConnState::Stale,
                0u64,
            )
        },
        m < cfg.close_after ==> {
            &&& forall|n: nat|
                m + n < cfg.close_after ==> #[trigger] after_misses(ConnState::Stale, m, cfg, n) == (
                    ConnState::Stale,
                    (m + n) as u64,
                )
            &&& after_misses(ConnState::Stale, m, cfg, (cfg.close_after - m) as nat) == (
                ConnState::Closed,
                0u64,
            )
        },
{
    if m < cfg.stale_after {
        assert forall|n: nat| m + n < cfg.stale_after implies #[trigger] after_misses(
            ConnState::Open,
            m,
            cfg,
            n,
        ) == (ConnState::Open, (m + n) as u64) by {
            lemma_misses_below(ConnState::Open, m, cfg, cfg.stale_after, n);
        }
        lemma_misses_below(ConnState::Open, m, cfg, cfg.stale_after, (cfg.stale_after - m - 1) as nat);
    }
    if m < cfg.close_after {
        assert forall|n: nat| m + n < cfg.close_after implies #[trigger] after_misses(
            ConnState::Stale,
            m,
            cfg,
            n,
        ) == (ConnState::Stale, (m + n) as u64) by {
            lemma_misses_below(ConnState::Stale, m, cfg, cfg.close_after, n);
        }
        lemma_misses_below(ConnState::Stale, m, cfg, cfg.close_after, (cfg.close_after - m - 1) as nat);
    }
}

proof fn lemma_misses_below(state: ConnState, m: u64, cfg: HeartbeatConfig, limit: u64, n: nat)
    requires
        cfg.valid(),
        (state == ConnState::Open && limit == cfg.stale_after) || (state == ConnState::Stale
            && limit == cfg.close_after),
        m + n < limit,
    ensures
        after_misses(state, m, cfg, n) == (state, (m + n) as u64),
    decreases n,
{
    if n > 0 {
        lemma_misses_below(state, m, cfg, limit, (n - 1) as nat);
    }
}

} // verus!
