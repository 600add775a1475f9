use vstd::prelude::*;
use crate::node_config::NodesConfig;
use crate::protocol::{address_text, socket_address};
use crate::text::{parse_unsigned, parse_usize};

verus! {

/// Elections need at least this many nodes; the node at this place in the list (counted
/// from one) runs the election timer at start.
pub const MINIMUM_AMOUNT_FOR_ELECTION: usize = 2;

/// A node listens for connections at its port plus this offset.
pub const PORT_OFFSET: usize = 2000;

/// The address at which a node at `ip` with the listed port `port` listens for
/// connections: its port plus `PORT_OFFSET`.
pub open spec fn listen_text(ip: Seq<char>, port: usize) -> Seq<char> {
    address_text(ip, (port + PORT_OFFSET) as usize)
}

/// The node that runs the Raft election: its name and where it is reached.
pub struct RaftModule {
    pub node_id: String,
    pub ip: String,
    pub port: usize,
}

impl RaftModule {
    /// A node named `node_id` at `ip`:`port`.
    pub fn new(node_id: String, ip: String, port: usize) -> (r: RaftModule)
        ensures
            r == (RaftModule { node_id, ip, port }),
    {
        RaftModule { node_id, ip, port }
    }

    /// Whether this node is the one that starts the election timer: the second listed
    /// node, where its address is this node's own.
    pub fn runs_election_timer(&self, nodes_config: &NodesConfig) -> (r: bool)
        requires
            nodes_config.nodes@.len() >= MINIMUM_AMOUNT_FOR_ELECTION,
            self.ip@ == nodes_config.nodes@[MINIMUM_AMOUNT_FOR_ELECTION - 1].ip@ ==> parse_unsigned(
                nodes_config.nodes@[MINIMUM_AMOUNT_FOR_ELECTION - 1].port@,
                usize::MAX as int,
            ) is Some,
        ensures
            r == (self.ip@ == nodes_config.nodes@[MINIMUM_AMOUNT_FOR_ELECTION - 1].ip@
                && parse_unsigned(
                nodes_config.nodes@[MINIMUM_AMOUNT_FOR_ELECTION - 1].port@,
                usize::MAX as int,
            ) == Some(self.port as int)),
    {
        let runner_node = &nodes_config.nodes[MINIMUM_AMOUNT_FOR_ELECTION - 1];
        if self.ip == runner_node.ip {
            match parse_usize(runner_node.port.as_str()) {
                Some(p) => p == self.port,
                None => false,
            }
        } else {
            false
        }
    }

    /// The address at which a node at `ip`:`port` listens for connections: its port
    /// plus `PORT_OFFSET`.
    pub fn listen_address(ip: &str, port: usize) -> (r: String)
        requires
            port + PORT_OFFSET <= usize::MAX,
        ensures
            r@ == listen_text(ip@, port),
    {
        socket_address(ip, port + PORT_OFFSET)
    }
}

} // verus!
