use vstd::prelude::*;

use crate::errors::RoutingError;

verus! {

/// The protocol messages exchanged between peers.
#[derive(Clone, Copy, Debug, PartialEq, Eq, Structural)]
pub enum Payload {
    JoinRequest { target: u64 },
    JoinAck { accepting: u64 },
    GetRequest { key: u64 },
    GetResponse { state: u64 },
    PutRequest { key: u64, value: u64 },
    PutAck,
    Subscribe { key: u64 },
    Unsubscribe { key: u64 },
    Heartbeat,
    HeartbeatAck,
    Nack { reason: RoutingError },
}

/// A message with its envelope: the transaction, the peer that started it,
/// the peer that sent this copy, the hops taken, and the peers visited.
pub struct Message {
    pub tx: u64,
    pub origin: u64,
    pub sender: u64,
    pub hops: u32,
    pub visited: Vec<u64>,
    pub payload: Payload,
}

/// `visited` with `me` added at the end.
pub fn with_hop(visited: &Vec<u64>, me: u64) -> (r: Vec<u64>)
    ensures
        r@ == visited@.push(me),
{
    let mut out: Vec<u64> = Vec::new();
    let mut i: usize = 0;
    while i < visited.len()
        invariant
            i <= visited@.len(),
            out@ == visited@.subrange(0, i as int),
        decreases visited@.len() - i,
    {
        out.push(visited[i]);
        i += 1;
    }
    assert(visited@.subrange(0, visited@.len() as int) == visited@);
    out.push(me);
    out
}

} // verus!
