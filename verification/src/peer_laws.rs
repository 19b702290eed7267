//! What holds of the choice of nodes to connect to, and of dialing them.

use crate::action::ConnectDecision;
use crate::connection::{handshake_with, session_with, ConnectionEntry};
use crate::hash::NodeId;
use crate::host::{connect_result, HostView};
use crate::laws::{
    law_countable, law_node_added, lemma_filter_ids_distinct, lemma_filter_split,
    lemma_filter_twice, peer_id,
};
use crate::node::{ids_distinct, with_node, Node, PeerType, SocketAddress};
use crate::seqs::{first, lemma_filter_rank};
use crate::tokens::IDEAL_PEERS;
use vstd::prelude::*;

verus! {

/// The node is at the other end of some connection, whatever its state.
pub open spec fn met(connections: Map<usize, ConnectionEntry>, id: NodeId) -> bool {
    exists|token: usize| #[trigger]
        connections.contains_key(token) && peer_id(connections[token]) == id
}

/// The host is linked to a node exactly if the node is at the other end of a connection: in a
/// session with it, or in a handshake. Nothing else counts, such as attempts made earlier.
pub proof fn law_linked_by_connection(host: HostView, id: NodeId)
    ensures
        host.linked(id) <==> met(host.connections, id),
        session_with(host.connections, id) <==> exists|token: usize| #[trigger]
            host.connections.contains_key(token) && host.connections[token] is Session && peer_id(
                host.connections[token],
            ) == id,
        handshake_with(host.connections, id) <==> exists|token: usize| #[trigger]
            host.connections.contains_key(token) && host.connections[token] is Handshake
                && peer_id(host.connections[token]) == id,
{
    if host.linked(id) {
        if session_with(host.connections, id) {
            let token = choose|token: usize| #[trigger]
                host.connections.contains_key(token) && (
                host.connections[token] matches ConnectionEntry::Session(s) && s.info.id == id);
            assert(peer_id(host.connections[token]) == id);
        }
    }
    if met(host.connections, id) {
        let token = choose|token: usize| #[trigger]
            host.connections.contains_key(token) && peer_id(host.connections[token]) == id;
        assert(host.connections.contains_key(token));
    }
}

/// Which of the items that pass a filter are among the first ones.
proof fn lemma_placed(nodes: Seq<Node>, pred: spec_fn(Node) -> bool, n: int, i: int)
    requires
        ids_distinct(nodes),
        0 <= i < nodes.len(),
    ensures
        ({
            let ids = first(nodes.filter(pred), n).map_values(|node: Node| node.id);
            let rank = nodes.take(i).filter(pred).len() as int;
            &&& ids.contains(nodes[i].id) <==> pred(nodes[i]) && rank < n
            &&& pred(nodes[i]) && rank < n ==> rank < ids.len() && ids[rank] == nodes[i].id
        }),
{
    let kept = nodes.filter(pred);
    let chosen = first(kept, n);
    let ids = chosen.map_values(|node: Node| node.id);
    let rank = nodes.take(i).filter(pred).len() as int;
    if pred(nodes[i]) {
        lemma_filter_rank(nodes, pred, i);
        if rank < n {
            assert(ids[rank] == nodes[i].id);
        }
    }
    if ids.contains(nodes[i].id) {
        let k = choose|k: int| 0 <= k < ids.len() && ids[k] == nodes[i].id;
        assert(chosen[k] == kept[k]);
        nodes.lemma_filter_pred(pred, k);
        assert(kept.contains(kept[k]));
        nodes.lemma_filter_contains_rev(pred, kept[k]);
        let m = choose|m: int| 0 <= m < nodes.len() && nodes[m] == kept[k];
        if m < i {
            assert(nodes[m].id != nodes[i].id);
        } else if i < m {
            assert(nodes[i].id != nodes[m].id);
        }
        lemma_filter_ids_distinct(nodes, pred);
        if k < rank {
            assert(kept[k].id != kept[rank].id);
        } else if rank < k {
            assert(kept[rank].id != kept[k].id);
        }
    }
}

/// The nodes to connect to, by what is known of the nodes and of the connections.
proof fn lemma_choice(host: HostView)
    ensures
        ({
            let links = |n: Node|
                met(host.connections, n.id) && n.peer_type == PeerType::Required;
            let missing = |n: Node|
                !met(host.connections, n.id) && n.peer_type == PeerType::Required;
            let optional = |n: Node|
                !met(host.connections, n.id) && n.peer_type == PeerType::Optional;
            let required = |n: Node| n.peer_type == PeerType::Required;
            let id_of = |n: Node| n.id;
            let room = IDEAL_PEERS - host.nodes.filter(links).len();
            let slots = IDEAL_PEERS + host.nodes.filter(required).len();
            host.peers_to_connect() == first(host.nodes.filter(missing), room).map_values(id_of)
                + (if host.info.config.pin {
                Seq::empty()
            } else {
                first(host.nodes.filter(optional), slots).map_values(id_of)
            })
        }),
{
    let links = |n: Node| met(host.connections, n.id) && n.peer_type == PeerType::Required;
    let missing = |n: Node| !met(host.connections, n.id) && n.peer_type == PeerType::Required;
    let optional = |n: Node| !met(host.connections, n.id) && n.peer_type == PeerType::Optional;
    let required = |n: Node| n.peer_type == PeerType::Required;
    let is_optional = |n: Node| n.peer_type == PeerType::Optional;
    let id_of = |n: Node| n.id;
    let is_wanted = |n: Node|
        !host.linked(n.id) && (!host.info.config.pin || n.peer_type == PeerType::Required);
    assert forall|id: NodeId| #[trigger] host.linked(id) == met(host.connections, id) by {
        law_linked_by_connection(host, id);
    }
    assert((|n: Node| host.linked(n.id) && n.peer_type == PeerType::Required) =~= links);
    assert(host.linked_required() == host.nodes.filter(links));
    lemma_filter_twice(host.nodes, is_wanted, required, missing);
    law_countable(host);
    assert(host.wanted_required() == host.nodes.filter(missing));
    let room = IDEAL_PEERS - host.nodes.filter(links).len();
    let slots = IDEAL_PEERS + host.nodes.filter(required).len();
    if host.info.config.pin {
        assert(host.peers_to_connect() =~= first(host.nodes.filter(missing), room).map_values(
            id_of,
        ) + Seq::<NodeId>::empty());
    } else {
        lemma_filter_twice(host.nodes, is_wanted, is_optional, optional);
        assert(host.wanted_optional() == host.nodes.filter(optional));
        assert(host.peers_to_connect() =~= first(host.nodes.filter(missing), room).map_values(
            id_of,
        ) + first(host.nodes.filter(optional), slots).map_values(id_of));
    }
}

/// Whether the host connects to a node it knows. It never does if the node is at the other end of
/// a connection. Otherwise it does connect to a required node, unless the required nodes that it
/// is connected to, and those that were added before and that it is not connected to, are as many
/// as it needs. If it is not pinned it does connect to an optional one, unless as many were added
/// before that it is not connected to as it needs peers, and one more for each required node.
pub proof fn law_choice(host: HostView, i: int)
    requires
        host.wf(),
        0 <= i < host.nodes.len(),
    ensures
        ({
            let node = host.nodes[i];
            let earlier = host.nodes.take(i);
            let links = host.nodes.filter(
                |n: Node| met(host.connections, n.id) && n.peer_type == PeerType::Required,
            ).len();
            let required = host.nodes.filter(
                |n: Node| n.peer_type == PeerType::Required,
            ).len();
            let missing_before = earlier.filter(
                |n: Node| !met(host.connections, n.id) && n.peer_type == PeerType::Required,
            ).len();
            let optional_before = earlier.filter(
                |n: Node| !met(host.connections, n.id) && n.peer_type == PeerType::Optional,
            ).len();
            host.peers_to_connect().contains(node.id) <==> !met(host.connections, node.id) && (
            match node.peer_type {
                PeerType::Required => links + missing_before < IDEAL_PEERS,
                PeerType::Optional => !host.info.config.pin && optional_before < IDEAL_PEERS
                    + required,
            })
        }),
{
    let links = |n: Node| met(host.connections, n.id) && n.peer_type == PeerType::Required;
    let missing = |n: Node| !met(host.connections, n.id) && n.peer_type == PeerType::Required;
    let optional = |n: Node| !met(host.connections, n.id) && n.peer_type == PeerType::Optional;
    let required = |n: Node| n.peer_type == PeerType::Required;
    let id_of = |n: Node| n.id;
    let room = IDEAL_PEERS - host.nodes.filter(links).len();
    let slots = IDEAL_PEERS + host.nodes.filter(required).len();
    let node = host.nodes[i];
    let ids = host.peers_to_connect();
    let head = first(host.nodes.filter(missing), room).map_values(id_of);
    let tail = first(host.nodes.filter(optional), slots).map_values(id_of);
    lemma_choice(host);
    lemma_placed(host.nodes, missing, room, i);
    lemma_placed(host.nodes, optional, slots, i);
    if ids.contains(node.id) {
        let k = choose|k: int| 0 <= k < ids.len() && ids[k] == node.id;
        if k < head.len() {
            assert(head[k] == node.id);
        } else {
            assert(tail[k - head.len()] == node.id);
        }
    }
    if head.contains(node.id) {
        let k = choose|k: int| 0 <= k < head.len() && head[k] == node.id;
        assert(ids[k] == node.id);
    }
    if !host.info.config.pin && tail.contains(node.id) {
        let k = choose|k: int| 0 <= k < tail.len() && tail[k] == node.id;
        assert(ids[head.len() + k] == node.id);
    }
}

/// The nodes to connect to come in this order: the required ones as they were added, and then the
/// optional ones as they were added.
pub proof fn law_choice_order(host: HostView, i: int, j: int)
    requires
        host.wf(),
        0 <= i < host.nodes.len(),
        0 <= j < host.nodes.len(),
        host.peers_to_connect().contains(host.nodes[i].id),
        host.peers_to_connect().contains(host.nodes[j].id),
        if host.nodes[i].peer_type == host.nodes[j].peer_type {
            i < j
        } else {
            host.nodes[i].peer_type == PeerType::Required
        },
    ensures
        exists|a: int, b: int|
            0 <= a < b < host.peers_to_connect().len() && #[trigger] host.peers_to_connect()[a]
                == host.nodes[i].id && #[trigger] host.peers_to_connect()[b] == host.nodes[j].id,
{
    let missing = |n: Node| !met(host.connections, n.id) && n.peer_type == PeerType::Required;
    let optional = |n: Node| !met(host.connections, n.id) && n.peer_type == PeerType::Optional;
    let links = |n: Node| met(host.connections, n.id) && n.peer_type == PeerType::Required;
    let required = |n: Node| n.peer_type == PeerType::Required;
    let id_of = |n: Node| n.id;
    let room = IDEAL_PEERS - host.nodes.filter(links).len();
    let slots = IDEAL_PEERS + host.nodes.filter(required).len();
    let ids = host.peers_to_connect();
    let head = first(host.nodes.filter(missing), room).map_values(id_of);
    lemma_choice(host);
    law_choice(host, i);
    law_choice(host, j);
    lemma_placed(host.nodes, missing, room, i);
    lemma_placed(host.nodes, missing, room, j);
    lemma_placed(host.nodes, optional, slots, i);
    lemma_placed(host.nodes, optional, slots, j);
    let place = |k: int|
        if host.nodes[k].peer_type == PeerType::Required {
            host.nodes.take(k).filter(missing).len() as int
        } else {
            (head.len() + host.nodes.take(k).filter(optional).len()) as int
        };
    assert(ids[place(i)] == host.nodes[i].id);
    assert(ids[place(j)] == host.nodes[j].id);
    if i < j && host.nodes[i].peer_type == host.nodes[j].peer_type {
        let pred = if host.nodes[i].peer_type == PeerType::Required {
            missing
        } else {
            optional
        };
        lemma_filter_rank(host.nodes.take(j), pred, i);
        assert(host.nodes.take(j).take(i) =~= host.nodes.take(i));
    }
}

/// While a host that is not pinned knows no more nodes than it needs peers, it connects to every
/// one of them that is not at the other end of a connection, however often it tried before.
pub proof fn law_unmet_is_chosen(host: HostView, i: int)
    requires
        host.wf(),
        !host.info.config.pin,
        host.nodes.len() <= IDEAL_PEERS,
        0 <= i < host.nodes.len(),
        forall|token: usize| #[trigger]
            host.connections.contains_key(token) ==> peer_id(host.connections[token])
                != host.nodes[i].id,
    ensures
        host.peers_to_connect().contains(host.nodes[i].id),
{
    let links = |n: Node| met(host.connections, n.id) && n.peer_type == PeerType::Required;
    let missing = |n: Node| !met(host.connections, n.id) && n.peer_type == PeerType::Required;
    let optional = |n: Node| !met(host.connections, n.id) && n.peer_type == PeerType::Optional;
    let required = |n: Node| n.peer_type == PeerType::Required;
    assert(!met(host.connections, host.nodes[i].id));
    lemma_filter_split(host.nodes, links, missing, required);
    host.nodes.lemma_filter_len(required);
    host.nodes.lemma_filter_len(optional);
    if host.nodes[i].peer_type == PeerType::Required {
        lemma_filter_rank(host.nodes, missing, i);
    } else {
        lemma_filter_rank(host.nodes, optional, i);
    }
    law_choice(host, i);
}

/// Filtering by what two lists have in common.
proof fn lemma_filter_alike(s: Seq<Node>, t: Seq<Node>, pred: spec_fn(Node) -> bool)
    requires
        s.len() == t.len(),
        forall|i: int|
            0 <= i < s.len() ==> (#[trigger] s[i]).id == (#[trigger] t[i]).id && pred(s[i])
                == pred(t[i]),
    ensures
        s.filter(pred).map_values(|n: Node| n.id) == t.filter(pred).map_values(|n: Node| n.id),
    decreases s.len(),
{
    reveal(Seq::filter);
    let id_of = |n: Node| n.id;
    if s.len() > 0 {
        lemma_filter_alike(s.drop_last(), t.drop_last(), pred);
        let a = s.drop_last().filter(pred);
        let b = t.drop_last().filter(pred);
        assert(s[s.len() - 1].id == t[s.len() - 1].id);
        assert(a.push(s.last()).map_values(id_of) =~= a.map_values(id_of).push(s.last().id));
        assert(b.push(t.last()).map_values(id_of) =~= b.map_values(id_of).push(t.last().id));
    } else {
        assert(s.filter(pred).map_values(id_of) =~= t.filter(pred).map_values(id_of));
    }
}

/// The identifiers of the first nodes.
proof fn lemma_first_ids(s: Seq<Node>, n: int)
    ensures
        first(s, n).map_values(|node: Node| node.id) == first(
            s.map_values(|node: Node| node.id),
            n,
        ),
{
    assert(first(s, n).map_values(|node: Node| node.id) =~= first(
        s.map_values(|node: Node| node.id),
        n,
    ));
}

/// The choice depends on the identifiers and types of the nodes, on who is at the other ends of
/// the connections and on whether the host is pinned, and on nothing else: not on addresses, nor
/// on attempts made earlier, nor on the state of a connection.
pub proof fn law_choice_depends(one: HostView, other: HostView)
    requires
        one.info.config.pin == other.info.config.pin,
        one.nodes.len() == other.nodes.len(),
        forall|i: int|
            0 <= i < one.nodes.len() ==> (#[trigger] one.nodes[i]).id == (
            #[trigger] other.nodes[i]).id && one.nodes[i].peer_type == other.nodes[i].peer_type,
        forall|id: NodeId| #[trigger]
            met(one.connections, id) <==> met(other.connections, id),
    ensures
        one.peers_to_connect() == other.peers_to_connect(),
{
    let links = |n: Node| met(one.connections, n.id) && n.peer_type == PeerType::Required;
    let missing = |n: Node| !met(one.connections, n.id) && n.peer_type == PeerType::Required;
    let optional = |n: Node| !met(one.connections, n.id) && n.peer_type == PeerType::Optional;
    let required = |n: Node| n.peer_type == PeerType::Required;
    let id_of = |n: Node| n.id;
    assert(links =~= (|n: Node|
        met(other.connections, n.id) && n.peer_type == PeerType::Required));
    assert(missing =~= (|n: Node|
        !met(other.connections, n.id) && n.peer_type == PeerType::Required));
    assert(optional =~= (|n: Node|
        !met(other.connections, n.id) && n.peer_type == PeerType::Optional));
    lemma_choice(one);
    lemma_choice(other);
    lemma_filter_alike(one.nodes, other.nodes, links);
    lemma_filter_alike(one.nodes, other.nodes, missing);
    lemma_filter_alike(one.nodes, other.nodes, optional);
    lemma_filter_alike(one.nodes, other.nodes, required);
    let ids = |s: Seq<Node>| s.map_values(id_of);
    assert(ids(one.nodes.filter(links)).len() == ids(other.nodes.filter(links)).len());
    assert(ids(one.nodes.filter(required)).len() == ids(other.nodes.filter(required)).len());
    let room = IDEAL_PEERS - one.nodes.filter(links).len();
    let slots = IDEAL_PEERS + one.nodes.filter(required).len();
    lemma_first_ids(one.nodes.filter(missing), room);
    lemma_first_ids(other.nodes.filter(missing), room);
    lemma_first_ids(one.nodes.filter(optional), slots);
    lemma_first_ids(other.nodes.filter(optional), slots);
}

/// What comes of the wish to connect to a node. There is no second connection: a session with the
/// node, or else a handshake with it, is reported and nothing changes. Otherwise the address that
/// is known of the node with this identifier is dialed, and the time is remembered for this node
/// alone.
pub proof fn law_dial(
    host: HostView,
    id: NodeId,
    now: time::Tm,
    decision: ConnectDecision,
    after: HostView,
)
    requires
        host.wf(),
        connect_result(host, id, now, decision, after),
    ensures
        decision is AlreadyConnected <==> exists|token: usize| #[trigger]
            host.connections.contains_key(token) && host.connections[token] is Session && peer_id(
                host.connections[token],
            ) == id,
        decision is Dial <==> !met(host.connections, id),
        !(decision is Dial) ==> after == host,
        decision matches ConnectDecision::Dial(address) ==> {
            &&& exists|i: int| 0 <= i < host.nodes.len() && (#[trigger] host.nodes[i]).id == id
            &&& forall|i: int|
                0 <= i < host.nodes.len() && (#[trigger] host.nodes[i]).id == id ==> address
                    == host.nodes[i].address
        },
        after.info == host.info,
        after.connections == host.connections,
        after.free == host.free,
        after.timers == host.timers,
        after.handlers == host.handlers,
        after.nodes.len() == host.nodes.len(),
        forall|i: int|
            #![trigger after.nodes[i]]
            #![trigger host.nodes[i]]
            0 <= i < host.nodes.len() ==> {
                &&& after.nodes[i].id == host.nodes[i].id
                &&& after.nodes[i].address == host.nodes[i].address
                &&& after.nodes[i].peer_type == host.nodes[i].peer_type
                &&& after.nodes[i].last_attempted == (if decision is Dial && host.nodes[i].id
                    == id {
                    Some(now)
                } else {
                    host.nodes[i].last_attempted
                })
            },
{
    law_linked_by_connection(host, id);
    if decision is Dial {
        let k = choose|k: int|
            0 <= k < host.nodes.len() && (#[trigger] host.nodes[k]).id == id && decision
                == ConnectDecision::Dial(host.nodes[k].address);
        assert forall|i: int|
            0 <= i < host.nodes.len() && (#[trigger] host.nodes[i]).id == id implies decision
            == ConnectDecision::Dial(host.nodes[i].address) by {
            if i < k {
                assert(host.nodes[i].id != host.nodes[k].id);
            } else if k < i {
                assert(host.nodes[k].id != host.nodes[i].id);
            }
        }
    }
}

/// A node is dialed at the address that it was last added with, whatever was known of it before.
pub proof fn law_dial_added(
    host: HostView,
    node: Node,
    now: time::Tm,
    address: SocketAddress,
    after: HostView,
)
    requires
        host.wf(),
        connect_result(
            HostView { nodes: with_node(host.nodes, node), ..host },
            node.id,
            now,
            ConnectDecision::Dial(address),
            after,
        ),
    ensures
        address == node.address,
{
    let added = HostView { nodes: with_node(host.nodes, node), ..host };
    law_node_added(host.nodes, node, node.id);
    law_dial(added, node.id, now, ConnectDecision::Dial(address), after);
    let i = choose|i: int| 0 <= i < added.nodes.len() && added.nodes[i] == node;
    assert(added.nodes[i].id == node.id);
}

/// A failed attempt is no reason not to try again: dialing alone changes nothing in the choice.
pub proof fn law_dial_again(
    host: HostView,
    id: NodeId,
    now: time::Tm,
    decision: ConnectDecision,
    after: HostView,
)
    requires
        host.wf(),
        connect_result(host, id, now, decision, after),
    ensures
        after.peers_to_connect() == host.peers_to_connect(),
{
    law_dial(host, id, now, decision, after);
    law_choice_depends(host, after);
}

} // verus!
