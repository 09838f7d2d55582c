use vstd::prelude::*;

use crate::node::Node;
use crate::registry::{has_peer, Address, ConnState};
use crate::subscribe::holds;

verus! {

/// Links a node accepts unless configured otherwise.
pub const DEFAULT_MAX_LINKS: usize = 20;

/// Hop budget of a request unless configured otherwise.
pub const DEFAULT_MAX_HOPS: u32 = 10;

/// A gateway known at start-up.
#[derive(Clone, Copy, Debug, PartialEq, Eq, Structural)]
pub struct InitPeerNode {
    pub peer: u64,
    pub addr: Address,
}

/// How a node starts: its identifier, the address it listens on (if it is a
/// gateway itself), the gateways it knows, and its limits. Stores are
/// settled by a single ack (replication factor one).
pub struct NodeConfig {
    pub local_key: u64,
    pub local_ip: Option<u32>,
    pub local_port: Option<u16>,
    pub remote_nodes: Vec<InitPeerNode>,
    pub max_links: usize,
    pub max_hops: u32,
}

impl NodeConfig {
    /// A configuration for the node `local_key` with no address, no known
    /// gateways and the default limits.
    pub fn new(local_key: u64) -> (r: NodeConfig)
        ensures
            r.local_key == local_key,
            r.local_ip.is_none(),
            r.local_port.is_none(),
            r.remote_nodes@.len() == 0,
            r.max_links == DEFAULT_MAX_LINKS,
            r.max_hops == DEFAULT_MAX_HOPS,
    {
        NodeConfig {
            local_key,
            local_ip: None,
            local_port: None,
            remote_nodes: Vec::new(),
            max_links: DEFAULT_MAX_LINKS,
            max_hops: DEFAULT_MAX_HOPS,
        }
    }

    /// The same configuration, listening at `ip`:`port`.
    pub fn with_address(self, ip: u32, port: u16) -> (r: NodeConfig)
        ensures
            r.local_key == self.local_key,
            r.local_ip == Some(ip),
            r.local_port == Some(port),
            r.remote_nodes@ == self.remote_nodes@,
            r.max_links == self.max_links,
            r.max_hops == self.max_hops,
    {
        NodeConfig { local_ip: Some(ip), local_port: Some(port), ..self }
    }

    /// The same configuration, with one more known gateway.
    pub fn with_gateway(self, gateway: InitPeerNode) -> (r: NodeConfig)
        ensures
            r.local_key == self.local_key,
            r.local_ip == self.local_ip,
            r.local_port == self.local_port,
            r.remote_nodes@ == self.remote_nodes@.push(gateway),
            r.max_links == self.max_links,
            r.max_hops == self.max_hops,
    {
        let mut c = self;
        c.remote_nodes.push(gateway);
        c
    }
}

/// A node driven in memory: its identifier, whether it takes connections,
/// and its protocol state.
pub struct InMemory {
    pub peer: u64,
    pub listening: bool,
    pub node: Node,
}

/// Why a node with neither a listening address nor a gateway is refused.
pub const NO_GATEWAY: &'static str =
    "At least one remote gateway is required to join an existing network for non-gateway nodes.";

/// A node that cannot be reached itself must know a gateway to join through.
pub open spec fn build_refused(config: NodeConfig) -> bool {
    (config.local_ip.is_none() || config.local_port.is_none()) && config.remote_nodes@.len() == 0
}

impl InMemory {
    /// Builds a node from `config`. A node without a full listening address
    /// and without known gateways is refused with `NO_GATEWAY`. Otherwise the
    /// node is fresh: no transaction and no id used, no contract state, no
    /// interest, and a registry that holds the known gateways and nothing
    /// else, each still connecting; no link is opened.
    pub fn build(config: NodeConfig) -> (r: Result<InMemory, &'static str>)
        ensures
            r.is_err() == build_refused(config),
            r matches Err(e) ==> e@ == NO_GATEWAY@,
            r matches Ok(m) ==> {
                &&& m.peer == config.local_key
                &&& m.listening
                &&& m.node.wf()
                &&& m.node.peer == config.local_key
                &&& m.node.capacity == config.max_links
                &&& m.node.max_hops == config.max_hops
                &&& m.node.store.live@.len() == 0
                &&& m.node.store.seen@.len() == 0
                &&& forall|k: u64| #[trigger] m.node.cache.lookup(k).is_none()
                &&& forall|p: u64, k: u64| !#[trigger] holds(m.node.subs@, p, k)
                &&& forall|i: int|
                    0 <= i < config.remote_nodes@.len() ==> has_peer(
                        m.node.registry@,
                        #[trigger] config.remote_nodes@[i].peer,
                    )
                &&& forall|k: int|
                    0 <= k < m.node.registry@.len() ==> {
                        &&& #[trigger] m.node.registry@[k].state == ConnState::Connecting
                        &&& exists|j: int|
                            0 <= j < config.remote_nodes@.len()
                                && #[trigger] config.remote_nodes@[j].peer
                                == m.node.registry@[k].peer
                    }
            },
    {
        if (config.local_ip.is_none() || config.local_port.is_none())
            && config.remote_nodes.len() == 0 {
            return Err(NO_GATEWAY);
        }
        let peer = config.local_key;
        let mut node = Node::new(peer, config.max_links, config.max_hops);
        let mut i: usize = 0;
        while i < config.remote_nodes.len()
            invariant
                i <= config.remote_nodes@.len(),
                node.wf(),
                node.peer == peer,
                node.capacity == config.max_links,
                node.max_hops == config.max_hops,
                node.store.live@.len() == 0,
                node.store.seen@.len() == 0,
                forall|k: u64| #[trigger] node.cache.lookup(k).is_none(),
                forall|p: u64, k: u64| !#[trigger] holds(node.subs@, p, k),
                forall|j: int|
                    0 <= j < i ==> has_peer(node.registry@, #[trigger] config.remote_nodes@[j].peer),
                forall|k: int|
                    0 <= k < node.registry@.len() ==> {
                        &&& #[trigger] node.registry@[k].state == ConnState::Connecting
                        &&& exists|j: int|
                            0 <= j < i && #[trigger] config.remote_nodes@[j].peer
                                == node.registry@[k].peer
                    },
            decreases config.remote_nodes@.len() - i,
        {
            let g = config.remote_nodes[i];
            let ghost prev = node.registry@;
            node.registry.register(g.peer, g.addr, 0);
            proof {
                assert(config.remote_nodes@[i as int] == g);
                assert forall|k: int| 0 <= k < node.registry@.len() implies {
                    &&& #[trigger] node.registry@[k].state == ConnState::Connecting
                    &&& exists|j: int|
                        0 <= j < i + 1 && #[trigger] config.remote_nodes@[j].peer
                            == node.registry@[k].peer
                } by {
                    if k < prev.len() {
                        assert(node.registry@[k].state == prev[k].state);
                        assert(node.registry@[k].peer == prev[k].peer);
                        let j = choose|j: int|
                            0 <= j < i && #[trigger] config.remote_nodes@[j].peer == prev[k].peer;
                        assert(0 <= j < i + 1);
                    } else {
                        assert(node.registry@[k].peer == g.peer);
                        assert(config.remote_nodes@[i as int].peer == node.registry@[k].peer);
                    }
                }
            }
            i += 1;
        }
        Ok(InMemory { peer, listening: true, node })
    }

    /// Opens the node for business. A node that does not take connections
    /// is refused; otherwise it is ready, and the caller's event loop serves
    /// it until shutdown. Either way the node is left as it was.
    pub fn listen_on(&mut self) -> (r: Result<(), ()>)
        ensures
            r.is_err() == !old(self).listening,
            *final(self) == *old(self),
    {
        if !self.listening {
            return Err(());
        }
        Ok(())
    }
}

} // verus!
