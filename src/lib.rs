//! The protocol engine of an overlay network node: peers on a ring of 64-bit
//! identifiers, links with a heartbeat lifecycle, and distributed operations
//! (join, fetch, store, subscribe) tracked as transactions and routed greedily
//! toward the peer nearest their key.

pub mod engine;
pub mod errors;
pub mod identity;
pub mod in_memory;
pub mod link;
pub mod message;
pub mod node;
pub mod registry;
pub mod retry;
pub mod ring;
pub mod store;
pub mod subscribe;
