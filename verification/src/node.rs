//! Nodes of the network.

use crate::hash::NodeId;
use vstd::prelude::*;

verus! {

/// The broken-down calendar time of the `time` crate. The host stores it and does not look inside.
#[verifier::external_type_specification]
#[verifier::external_body]
pub struct ExTm(time::Tm);

/// `time::now`. Nothing is claimed of the time it returns.
pub assume_specification[ time::now ]() -> time::Tm;

/// An internet address.
#[derive(Clone, Copy, Debug, PartialEq, Eq)]
pub enum IpAddress {
    V4([u8; 4]),
    V6([u8; 16]),
}

/// An internet address with a port.
#[derive(Clone, Copy, Debug, PartialEq, Eq)]
pub struct SocketAddress {
    pub ip: IpAddress,
    pub port: u16,
}

/// How much the host cares to be connected to a node.
#[derive(Clone, Copy, Debug, PartialEq, Eq, Structural)]
pub enum PeerType {
    Required,
    Optional,
}

/// A node that the host may connect to.
#[derive(Clone, Copy)]
pub struct Node {
    pub id: NodeId,
    /// Where the node listens.
    pub address: SocketAddress,
    pub peer_type: PeerType,
    /// When the host last tried to connect.
    pub last_attempted: Option<time::Tm>,
}

/// A node with the identifier is in the list.
pub open spec fn node_known(nodes: Seq<Node>, id: NodeId) -> bool {
    exists|i: int| 0 <= i < nodes.len() && (#[trigger] nodes[i]).id == id
}

/// No two nodes have the same identifier.
pub open spec fn ids_distinct(nodes: Seq<Node>) -> bool {
    forall|i: int, j: int|
        0 <= i < j < nodes.len() ==> (#[trigger] nodes[i]).id != (#[trigger] nodes[j]).id
}

/// The list with a node in the place of the one with the same identifier, or at the end if there
/// is none.
pub open spec fn with_node(nodes: Seq<Node>, node: Node) -> Seq<Node> {
    if node_known(nodes, node.id) {
        nodes.map_values(
            |n: Node|
                if n.id == node.id {
                    node
                } else {
                    n
                },
        )
    } else {
        nodes.push(node)
    }
}

/// The list with the time of the last attempt set for one node.
pub open spec fn with_attempt(nodes: Seq<Node>, id: NodeId, now: time::Tm) -> Seq<Node> {
    nodes.map_values(
        |n: Node|
            if n.id == id {
                Node { last_attempted: Some(now), ..n }
            } else {
                n
            },
    )
}

/// Where in the list the node with the identifier is.
pub fn find_node(nodes: &Vec<Node>, id: &NodeId) -> (place: Option<usize>)
    ensures
        match place {
            Some(i) => i < nodes@.len() && nodes@[i as int].id == *id,
            None => !node_known(nodes@, *id),
        },
{
    let mut i: usize = 0;
    while i < nodes.len()
        invariant
            i <= nodes.len(),
            forall|j: int| 0 <= j < i ==> (#[trigger] nodes@[j]).id != *id,
        decreases nodes.len() - i,
    {
        if nodes[i].id.same_as(id) {
            return Some(i);
        }
        i += 1;
    }
    None
}

} // verus!
