use vstd::prelude::*;

use crate::errors::NetworkError;
use crate::message::Message;
use crate::registry::ConnState;

verus! {

/// A link to one peer with its bounded outbound mailbox.
pub struct Link {
    pub peer: u64,
    pub state: ConnState,
    pub outbox: Vec<Message>,
    pub capacity: usize,
}

/// A link carries messages only while it is Open or Stale.
pub open spec fn carries(s: ConnState) -> bool {
    s == ConnState::Open || s == ConnState::Stale
}

impl Link {
    pub fn new(peer: u64, capacity: usize) -> (r: Link)
        ensures
            r.peer == peer,
            r.state == ConnState::Connecting,
            r.outbox@.len() == 0,
            r.capacity == capacity,
    {
        Link { peer, state: ConnState::Connecting, outbox: Vec::new(), capacity }
    }

    /// Queues `msg` for sending. A link that does not carry messages refuses
    /// with `TransportClosed`; a full mailbox pushes back with
    /// `ResourceExhausted` instead of growing.
    pub fn send(&mut self, msg: Message) -> (r: Result<(), NetworkError>)
        ensures
            final(self).peer == old(self).peer,
            final(self).state == old(self).state,
            final(self).capacity == old(self).capacity,
            !carries(old(self).state) ==> r == Err::<(), NetworkError>(NetworkError::TransportClosed)
                && final(self).outbox@ == old(self).outbox@,
            carries(old(self).state) && old(self).outbox@.len() >= old(self).capacity ==> r == Err::<
                (),
                NetworkError,
            >(NetworkError::ResourceExhausted) && final(self).outbox@ == old(self).outbox@,
            carries(old(self).state) && old(self).outbox@.len() < old(self).capacity ==> r == Ok::<
                (),
                NetworkError,
            >(()) && final(self).outbox@ == old(self).outbox@.push(msg),
    {
        if !(self.state == ConnState::Open || self.state == ConnState::Stale) {
            return Err(NetworkError::TransportClosed);
        }
        if self.outbox.len() >= self.capacity {
            return Err(NetworkError::ResourceExhausted);
        }
        self.outbox.push(msg);
        Ok(())
    }

    /// Hands over every queued message, oldest first, and empties the mailbox.
    pub fn drain(&mut self) -> (r: Vec<Message>)
        ensures
            r@ == old(self).outbox@,
            final(self).outbox@.len() == 0,
            final(self).peer == old(self).peer,
            final(self).state == old(self).state,
            final(self).capacity == old(self).capacity,
    {
        let mut out: Vec<Message> = Vec::new();
        std::mem::swap(&mut self.outbox, &mut out);
        out
    }
}

} // verus!
