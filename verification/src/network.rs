//! Connectivity checks of a network of nodes, each seen through the set of peers it is
//! connected to. A node is identified by a number that stands for its node ID.
use vstd::prelude::*;

verus! {

/// A node of the network: its ID and the IDs of the peers it is connected to.
pub struct NodePeers {
    /// The node's ID.
    pub node_id: u64,
    /// The IDs of its peers.
    pub peers: Vec<u64>,
}

/// The node IDs that are expected to be connected: those of the network not blocked.
pub open spec fn expected_nodes(blocklist: Seq<u64>, nodes: Seq<NodePeers>) -> Set<u64> {
    Set::new(|id: u64| (exists|k: int| 0 <= k < nodes.len() && #[trigger] nodes[k].node_id == id) && !blocklist.contains(id))
}

/// A node misses no expected node but, possibly, itself.
pub open spec fn node_is_complete(blocklist: Seq<u64>, nodes: Seq<NodePeers>, node: NodePeers) -> bool {
    forall|id: u64|
        #[trigger] expected_nodes(blocklist, nodes).contains(id) ==> id == node.node_id
            || node.peers@.contains(id)
}

/// The network is completely connected: no node misses an expected node but itself.
pub open spec fn spec_network_is_complete(blocklist: Seq<u64>, nodes: Seq<NodePeers>) -> bool {
    forall|i: int| 0 <= i < nodes.len() ==> node_is_complete(blocklist, nodes, #[trigger] nodes[i])
}

fn contains(ids: &[u64], id: u64) -> (b: bool)
    ensures
        b == ids@.contains(id),
{
    let mut i: usize = 0;
    while i < ids.len()
        invariant
            i <= ids@.len(),
            forall|j: int| 0 <= j < i ==> ids@[j] != id,
        decreases ids@.len() - i,
    {
        if ids[i] == id {
            assert(ids@[i as int] == id);
            return true;
        }
        i = i + 1;
    }
    false
}

/// Checks whether or not a given network with potentially blocked nodes is completely
/// connected: every node is connected to every node that is not blocked, but itself.
pub fn network_is_complete(blocklist: &[u64], nodes: &[NodePeers]) -> (b: bool)
    ensures
        b == spec_network_is_complete(blocklist@, nodes@),
{
    let mut n: usize = 0;
    while n < nodes.len()
        invariant
            n <= nodes@.len(),
            forall|i: int| 0 <= i < n ==> node_is_complete(blocklist@, nodes@, #[trigger] nodes@[i]),
        decreases nodes@.len() - n,
    {
        let node = &nodes[n];
        let mut k: usize = 0;
        while k < nodes.len()
            invariant
                n < nodes@.len(),
                *node == nodes@[n as int],
                k <= nodes@.len(),
                forall|j: int|
                    0 <= j < k ==> (#[trigger] blocklist@.contains(nodes@[j].node_id)
                        || nodes@[j].node_id == node.node_id || node.peers@.contains(nodes@[j].node_id)),
            decreases nodes@.len() - k,
        {
            let id = nodes[k].node_id;
            if !contains(blocklist, id) && id != node.node_id && !contains(node.peers.as_slice(), id) {
                proof {
                    assert(expected_nodes(blocklist@, nodes@).contains(id));
                    assert(!node_is_complete(blocklist@, nodes@, nodes@[n as int]));
                }
                return false;
            }
            k = k + 1;
        }
        proof {
            assert forall|id: u64| #[trigger] expected_nodes(blocklist@, nodes@).contains(id) implies id
                == node.node_id || node.peers@.contains(id) by {
                let j = choose|j: int| 0 <= j < nodes@.len() && #[trigger] nodes@[j].node_id == id;
                assert(blocklist@.contains(nodes@[j].node_id) || nodes@[j].node_id == node.node_id
                    || node.peers@.contains(nodes@[j].node_id));
            }
        }
        n = n + 1;
    }
    true
}

/// Checks whether or not every node of a network has at least one peer.
pub fn network_started(nodes: &[NodePeers]) -> (b: bool)
    ensures
        b == forall|i: int| 0 <= i < nodes@.len() ==> #[trigger] nodes@[i].peers@.len() > 0,
{
    let mut i: usize = 0;
    while i < nodes.len()
        invariant
            i <= nodes@.len(),
            forall|j: int| 0 <= j < i ==> #[trigger] nodes@[j].peers@.len() > 0,
        decreases nodes@.len() - i,
    {
        if nodes[i].peers.len() == 0 {
            assert(nodes@[i as int].peers@.len() == 0);
            return false;
        }
        i = i + 1;
    }
    true
}

} // verus!
