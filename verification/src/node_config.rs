use vstd::prelude::*;

verus! {

/// The nodes of the cluster, in the order in which they are listed.
#[derive(Clone, Debug)]
pub struct NodesConfig {
    pub nodes: Vec<Node>,
}

/// One node of the cluster: where it listens and its name.
#[derive(Clone, Debug)]
pub struct Node {
    pub ip: String,
    pub port: String,
    pub name: String,
}

} // verus!
