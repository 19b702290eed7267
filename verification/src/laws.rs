//! What holds of the host as a whole.

use crate::action::{
    ActionView, ConnectDecision, HandlerEventView, HandshakeOutcome, SessionData, UtilError,
};
use crate::connection::{
    lemma_slot_emptied, slots_valid, ConnectionEntry, SessionEntry, SessionInfo,
};
use crate::context::{peer_disabled, reachable};
use crate::hash::{KeyPair, NodeId};
use crate::host::{
    connect_result, handshake_plan, initial_host, notice, start_result, with_handler, HostView,
};
use crate::node::{ids_distinct, node_known, with_node, Node, PeerType};
use crate::protocols::{all_distinct, listed};
use crate::seqs::first;
use crate::tokens::{
    connection_token, service_timer, PeerId, ProtocolId, StreamToken, TimerToken,
    FIRST_CONNECTION, IDEAL_PEERS, LAST_CONNECTION, MAX_CONNECTIONS, NODETABLE_RECEIVE,
    TCP_ACCEPT,
};
use vstd::prelude::*;
use vstd::set_lib::lemma_set_disjoint_lens;

verus! {

/// Every connection token.
spec fn all_slots() -> Seq<usize> {
    Seq::new(MAX_CONNECTIONS as nat, |i: int| (FIRST_CONNECTION + i) as usize)
}

/// Connections and free slots add up: the host never holds more connections than it may, and it
/// refuses one only when it holds that many.
pub proof fn law_connection_limit(host: HostView)
    requires
        host.wf(),
    ensures
        host.connections.dom().finite(),
        host.connections.dom().len() + host.free.len() == MAX_CONNECTIONS,
        host.free.len() == 0 <==> host.connections.dom().len() == MAX_CONNECTIONS,
{
    let slots = all_slots();
    let used = host.connections.dom();
    let free = host.free.to_set();
    assert(slots.no_duplicates());
    slots.unique_seq_to_set();
    host.free.unique_seq_to_set();
    assert forall|token: usize| slots.to_set().contains(token) <==> #[trigger] (used
        + free).contains(token) by {
        if connection_token(token) {
            assert(slots[token - FIRST_CONNECTION] == token);
            assert(host.connections.contains_key(token) != host.free.contains(token));
        } else {
            assert(!host.connections.contains_key(token) && !host.free.contains(token));
        }
    }
    assert(slots.to_set() =~= used + free);
    assert(used.subset_of(slots.to_set()));
    assert(slots.to_set().finite());
    assert(used.finite());
    assert forall|token: usize| !(used.contains(token) && free.contains(token)) by {
        assert(host.connections.contains_key(token) ==> !host.free.contains(token));
    }
    lemma_set_disjoint_lens(used, free);
}

/// No connection gets a token that the host keeps for its own sockets and timers.
pub proof fn law_tokens_apart(host: HostView, token: usize)
    requires
        host.wf(),
        host.connections.contains_key(token),
    ensures
        FIRST_CONNECTION <= token <= LAST_CONNECTION,
        !service_timer(token),
        token != TCP_ACCEPT,
        token != NODETABLE_RECEIVE,
{
    assert(connection_token(token));
}

/// A connection that was removed is gone: nothing can be read, written or sent, no handler hears
/// of its end again, and its token goes to the next connection.
pub proof fn law_removed_is_gone(
    host: HostView,
    token: StreamToken,
    protocol: Seq<char>,
    id: NodeId,
)
    requires
        host.wf(),
        host.connections.contains_key(token),
    ensures
        host.without_connection(token).wf(),
        !host.without_connection(token).in_session(token),
        !host.without_connection(token).in_handshake(token),
        !reachable(host.without_connection(token).connections, token, protocol),
        host.without_connection(token).kill_plan(token) == seq![ActionView::Forget { token }],
        host.without_connection(token).with_handshake(id).in_handshake(token),
{
    let after = host.without_connection(token);
    assert(!host.free.contains(token));
    lemma_slot_emptied(host.free, token);
    assert(slots_valid(after.connections, after.free));
    assert(after.kill_plan(token) =~= seq![ActionView::Forget { token }]);
}

/// Who is told that a peer came and who is told that it went are the same, in the same order.
pub proof fn law_disconnect_mirrors_connect(
    host: HostView,
    session: SessionEntry,
    token: StreamToken,
)
    ensures
        host.notices(session, token, true).len() == host.notices(session, token, false).len(),
        forall|i: int|
            #![trigger host.notices(session, token, true)[i]]
            0 <= i < host.notices(session, token, true).len() ==> exists|p: ProtocolId|
                host.notices(session, token, true)[i] == #[trigger] notice(p, token, true)
                    && host.notices(session, token, false)[i] == notice(p, token, false),
{
    let told = host.handlers.filter(|p: ProtocolId| session.capable(p@));
    assert forall|i: int|
        #![trigger host.notices(session, token, true)[i]]
        0 <= i < host.notices(session, token, true).len() implies exists|p: ProtocolId|
        host.notices(session, token, true)[i] == #[trigger] notice(p, token, true)
            && host.notices(session, token, false)[i] == notice(p, token, false) by {
        assert(host.notices(session, token, true)[i] == notice(told[i], token, true));
    }
}

/// Of a peer that came or went, exactly the handlers hear whose protocol it can be talked to in,
/// and each of them once.
pub proof fn law_heard_once(
    host: HostView,
    session: SessionEntry,
    token: StreamToken,
    connected: bool,
)
    requires
        host.wf(),
    ensures
        host.notices(session, token, connected).no_duplicates(),
        forall|p: ProtocolId|
            #![trigger notice(p, token, connected)]
            host.notices(session, token, connected).contains(notice(p, token, connected))
                <==> host.handlers.contains(p) && session.capable(p@),
{
    let pred = |p: ProtocolId| session.capable(p@);
    let told = host.handlers.filter(pred);
    let notices = host.notices(session, token, connected);
    assert forall|p: ProtocolId| notices.contains(#[trigger] notice(p, token, connected))
        <==> host.handlers.contains(p) && session.capable(p@) by {
        if notices.contains(notice(p, token, connected)) {
            let i = choose|i: int|
                0 <= i < notices.len() && notices[i] == notice(p, token, connected);
            assert(told[i] == p);
            host.handlers.lemma_filter_pred(pred, i);
            assert(told.contains(p));
            host.handlers.lemma_filter_contains_rev(pred, p);
        }
        if host.handlers.contains(p) && session.capable(p@) {
            let i = choose|i: int| 0 <= i < host.handlers.len() && host.handlers[i] == p;
            host.handlers.lemma_filter_contains(pred, i);
            let j = choose|j: int| 0 <= j < told.len() && told[j] == p;
            assert(notices[j] == notice(p, token, connected));
        }
    }
    lemma_filter_all_distinct(host.handlers, pred);
    assert forall|i: int, j: int|
        0 <= i < notices.len() && 0 <= j < notices.len() && i != j implies notices[i]
        != notices[j] by {
        assert(notices[i] == notice(told[i], token, connected));
        assert(notices[j] == notice(told[j], token, connected));
        if i < j {
            assert(told[i]@ != told[j]@);
        } else {
            assert(told[j]@ != told[i]@);
        }
    }
}

/// No handler hears of the end of a connection that never became ready.
pub proof fn law_unready_ends_quietly(host: HostView, token: StreamToken)
    requires
        host.in_session(token) ==> !host.connections[token]->Session_0.info.ready,
    ensures
        host.kill_plan(token) == seq![ActionView::Forget { token }],
{
    assert(host.kill_plan(token) =~= seq![ActionView::Forget { token }]);
}

/// However a session was read from, only handlers that are registered are called, and they can
/// respond exactly if there is a packet. Afterwards the session goes on, or, if reading failed, is
/// removed.
pub proof fn law_reading(
    host: HostView,
    token: StreamToken,
    result: Result<SessionData, UtilError>,
)
    requires
        host.wf(),
        host.in_session(token),
    ensures
        host.read_plan(token, result).len() > 0,
        host.read_plan(token, result).last() == (if result is Err {
            ActionView::Forget { token }
        } else {
            ActionView::Reregister { token }
        }),
        forall|i: int|
            0 <= i < host.read_plan(token, result).len() - 1 ==> {
                &&& #[trigger] host.read_plan(token, result)[i] matches ActionView::Notify {
                    protocol,
                    session,
                    event,
                }
                &&& listed(host.handlers, protocol@)
                &&& session == (if event is Read {
                    Some(token)
                } else {
                    None
                })
            },
{
    let plan = host.read_plan(token, result);
    let session = host.connections[token]->Session_0;
    let pred = |p: ProtocolId| session.capable(p@);
    let told = host.handlers.filter(pred);
    assert forall|i: int| 0 <= i < plan.len() - 1 implies {
        &&& #[trigger] plan[i] matches ActionView::Notify { protocol, session, event }
        &&& listed(host.handlers, protocol@)
        &&& session == (if event is Read {
            Some(token)
        } else {
            None
        })
    } by {
        if result matches Ok(SessionData::Packet { .. }) {
        } else {
            assert(told.contains(told[i]));
            host.handlers.lemma_filter_contains_rev(pred, told[i]);
            let connected = result is Ok;
            assert(plan[i] == notice(told[i], token, connected));
        }
    }
}

/// A timer that a handler registered comes back to the handler of its protocol, with its token and
/// without a packet to respond to. This leaves out the tokens that belong to the host and to
/// connections.
pub proof fn law_timer_reaches_handler(host: HostView, token: TimerToken, protocol: ProtocolId)
    requires
        listed(host.handlers, protocol@),
        !connection_token(token),
        !service_timer(token),
    ensures
        host.with_timer(token, protocol).timers.contains_key(token),
        host.with_timer(token, protocol).timeout_plan(token) == seq![
            ActionView::Notify {
                protocol,
                session: None,
                event: HandlerEventView::Timeout { timer: token },
            },
        ],
{
}

/// Once a protocol is disabled for a peer, nothing can be sent to it in that protocol, whatever the
/// session reports of itself later. What can be sent in another one stays the same unless the peer
/// was disconnected, and other peers are not affected.
pub proof fn law_disabled_stays_silent(
    before: Map<usize, ConnectionEntry>,
    peer: PeerId,
    protocol: ProtocolId,
    disconnected: bool,
    host: HostView,
    info: SessionInfo,
    other_peer: PeerId,
    other_protocol: Seq<char>,
)
    requires
        peer_disabled(before, peer, protocol, disconnected, host.connections),
        other_peer != peer,
        other_protocol != protocol@,
    ensures
        !reachable(host.connections, peer, protocol@),
        host.in_session(peer) ==> !reachable(
            host.with_session_info(peer, info).connections,
            peer,
            protocol@,
        ),
        !disconnected ==> reachable(host.connections, peer, other_protocol) == reachable(
            before,
            peer,
            other_protocol,
        ),
        disconnected ==> !reachable(host.connections, peer, other_protocol),
        reachable(host.connections, other_peer, protocol@) == reachable(
            before,
            other_peer,
            protocol@,
        ),
        reachable(host.connections, other_peer, other_protocol) == reachable(
            before,
            other_peer,
            other_protocol,
        ),
{
    let after = host.connections;
    if before.contains_key(peer) && before[peer] is Session && !disconnected {
        let s = before[peer]->Session_0;
        let t = after[peer]->Session_0;
        assert(t.disabled@[s.disabled@.len() as int]@ == protocol@);
        if listed(s.disabled@, other_protocol) {
            let i = choose|i: int|
                0 <= i < s.disabled@.len() && (#[trigger] s.disabled@[i])@ == other_protocol;
            assert(t.disabled@[i]@ == other_protocol);
        }
        if listed(t.disabled@, other_protocol) {
            let i = choose|i: int|
                0 <= i < t.disabled@.len() && (#[trigger] t.disabled@[i])@ == other_protocol;
            assert(s.disabled@[i]@ == other_protocol);
        }
    }
}

/// What can be sent to a peer depends on what was disabled, not on what the session reports of
/// itself: a protocol that the peer cannot be reached in stays so, however often it reports.
pub proof fn law_reports_change_no_reach(
    host: HostView,
    peer: PeerId,
    info: SessionInfo,
    protocol: Seq<char>,
)
    requires
        host.in_session(peer),
    ensures
        host.with_session_info(peer, info).in_session(peer),
        reachable(host.with_session_info(peer, info).connections, peer, protocol) == reachable(
            host.connections,
            peer,
            protocol,
        ),
{
}

/// A node that was added is known, nodes that were known stay known, and adding it again changes
/// nothing.
pub proof fn law_node_added(nodes: Seq<Node>, node: Node, id: NodeId)
    requires
        ids_distinct(nodes),
    ensures
        ids_distinct(with_node(nodes, node)),
        with_node(nodes, node).contains(node),
        node_known(with_node(nodes, node), id) <==> node_known(nodes, id) || id == node.id,
        with_node(with_node(nodes, node), node) == with_node(nodes, node),
{
    let after = with_node(nodes, node);
    if node_known(nodes, node.id) {
        let i = choose|i: int| 0 <= i < nodes.len() && (#[trigger] nodes[i]).id == node.id;
        assert(after[i] == node);
        if node_known(nodes, id) {
            let j = choose|j: int| 0 <= j < nodes.len() && (#[trigger] nodes[j]).id == id;
            assert(after[j].id == id);
        }
        if node_known(after, id) {
            let j = choose|j: int| 0 <= j < after.len() && (#[trigger] after[j]).id == id;
            assert(nodes[j].id == id);
        }
        assert forall|a: int, b: int|
            0 <= a < b < after.len() implies (#[trigger] after[a]).id != (#[trigger] after[b]).id
        by {
            assert(nodes[a].id != nodes[b].id);
        }
    } else {
        assert(after[nodes.len() as int] == node);
        if node_known(nodes, id) {
            let j = choose|j: int| 0 <= j < nodes.len() && (#[trigger] nodes[j]).id == id;
            assert(after[j].id == id);
        }
        if node_known(after, id) && id != node.id {
            let j = choose|j: int| 0 <= j < after.len() && (#[trigger] after[j]).id == id;
            assert(nodes[j].id == id);
        }
    }
    assert(node_known(after, node.id));
    assert(with_node(after, node) =~= after);
}

/// A protocol whose handler was registered has one handler, and registering it again adds none.
pub proof fn law_handler_added(handlers: Seq<ProtocolId>, protocol: ProtocolId)
    requires
        all_distinct(handlers),
    ensures
        all_distinct(with_handler(handlers, protocol)),
        listed(with_handler(handlers, protocol), protocol@),
        with_handler(with_handler(handlers, protocol), protocol) == with_handler(
            handlers,
            protocol,
        ),
{
    if !listed(handlers, protocol@) {
        assert(with_handler(handlers, protocol)[handlers.len() as int]@ == protocol@);
    }
}

/// The identifier is that of a required node.
pub open spec fn is_required(nodes: Seq<Node>, id: NodeId) -> bool {
    exists|i: int|
        0 <= i < nodes.len() && (#[trigger] nodes[i]).id == id && nodes[i].peer_type
            == PeerType::Required
}

/// The required nodes that the host connects to now.
spec fn chosen_required(host: HostView) -> Seq<Node> {
    first(host.wanted_required(), IDEAL_PEERS - host.linked_required().len())
}

/// The optional nodes that the host connects to now.
spec fn chosen_optional(host: HostView) -> Seq<Node> {
    if host.info.config.pin {
        Seq::empty()
    } else {
        first(host.wanted_optional(), host.open_slots())
    }
}

/// What is known of a node that is chosen.
proof fn lemma_chosen(host: HostView, i: int)
    requires
        0 <= i < chosen_required(host).len() + chosen_optional(host).len(),
    ensures
        ({
            let node = (chosen_required(host) + chosen_optional(host))[i];
            &&& host.nodes.contains(node)
            &&& !host.linked(node.id)
            &&& node.peer_type == (if i < chosen_required(host).len() {
                PeerType::Required
            } else {
                PeerType::Optional
            })
        }),
{
    let is_wanted = |n: Node|
        !host.linked(n.id) && (!host.info.config.pin || n.peer_type == PeerType::Required);
    let required = |n: Node| n.peer_type == PeerType::Required;
    let optional = |n: Node| n.peer_type == PeerType::Optional;
    let node = (chosen_required(host) + chosen_optional(host))[i];
    if i < chosen_required(host).len() {
        assert(node == host.wanted().filter(required)[i]);
        host.wanted().lemma_filter_pred(required, i);
        assert(host.wanted().filter(required).contains(node));
        host.wanted().lemma_filter_contains_rev(required, node);
    } else {
        let j = i - chosen_required(host).len();
        assert(node == host.wanted().filter(optional)[j]);
        host.wanted().lemma_filter_pred(optional, j);
        assert(host.wanted().filter(optional).contains(node));
        host.wanted().lemma_filter_contains_rev(optional, node);
    }
    let k = choose|k: int| 0 <= k < host.wanted().len() && host.wanted()[k] == node;
    assert(host.wanted() == host.nodes.filter(is_wanted));
    host.nodes.lemma_filter_pred(is_wanted, k);
    host.nodes.lemma_filter_contains_rev(is_wanted, node);
}

/// Filtering keeps identifiers distinct.
pub proof fn lemma_filter_ids_distinct(s: Seq<Node>, pred: spec_fn(Node) -> bool)
    requires
        ids_distinct(s),
    ensures
        ids_distinct(s.filter(pred)),
    decreases s.len(),
{
    reveal(Seq::filter);
    if s.len() > 0 {
        let rest = s.drop_last();
        lemma_filter_ids_distinct(rest, pred);
        if pred(s.last()) {
            let kept = rest.filter(pred);
            assert forall|i: int| 0 <= i < kept.len() implies (#[trigger] kept[i]).id
                != s.last().id by {
                assert(kept.contains(kept[i]));
                rest.lemma_filter_contains_rev(pred, kept[i]);
                let k = choose|k: int| 0 <= k < rest.len() && rest[k] == kept[i];
                assert(s[k].id != s[s.len() - 1].id);
            }
        }
    }
}

/// The host connects to nodes that it knows and is not linked to, to none of them twice, and, if
/// it is pinned, only to required ones.
pub proof fn law_who_is_connected_to(host: HostView)
    requires
        host.wf(),
    ensures
        host.peers_to_connect().no_duplicates(),
        forall|i: int|
            #![trigger host.peers_to_connect()[i]]
            0 <= i < host.peers_to_connect().len() ==> {
                &&& node_known(host.nodes, host.peers_to_connect()[i])
                &&& !host.linked(host.peers_to_connect()[i])
                &&& host.info.config.pin ==> is_required(host.nodes, host.peers_to_connect()[i])
            },
{
    let chosen = chosen_required(host) + chosen_optional(host);
    let ids = host.peers_to_connect();
    assert(ids =~= chosen.map_values(|n: Node| n.id));
    assert forall|i: int| #![trigger ids[i]] 0 <= i < ids.len() implies node_known(
        host.nodes,
        ids[i],
    ) && !host.linked(ids[i]) && (host.info.config.pin ==> is_required(host.nodes, ids[i])) by {
        lemma_chosen(host, i);
        let k = choose|k: int| 0 <= k < host.nodes.len() && host.nodes[k] == chosen[i];
        assert(host.nodes[k].id == ids[i]);
    }
    let is_wanted = |n: Node|
        !host.linked(n.id) && (!host.info.config.pin || n.peer_type == PeerType::Required);
    lemma_filter_ids_distinct(host.nodes, is_wanted);
    lemma_filter_ids_distinct(host.wanted(), |n: Node| n.peer_type == PeerType::Required);
    lemma_filter_ids_distinct(host.wanted(), |n: Node| n.peer_type == PeerType::Optional);
    assert forall|i: int, j: int| 0 <= i < j < ids.len() implies ids[i] != ids[j] by {
        lemma_chosen(host, i);
        lemma_chosen(host, j);
        let split = chosen_required(host).len();
        if j < split {
            assert(host.wanted_required()[i].id != host.wanted_required()[j].id);
        } else if i >= split {
            assert(host.wanted_optional()[i - split].id != host.wanted_optional()[j - split].id);
        } else {
            let a = choose|a: int| 0 <= a < host.nodes.len() && host.nodes[a] == chosen[i];
            let b = choose|b: int| 0 <= b < host.nodes.len() && host.nodes[b] == chosen[j];
            if a < b {
                assert(host.nodes[a].id != host.nodes[b].id);
            } else if b < a {
                assert(host.nodes[b].id != host.nodes[a].id);
            }
        }
    }
}

/// The chosen nodes are known by their identifiers to be required or not.
proof fn lemma_chosen_kinds(host: HostView)
    requires
        host.wf(),
    ensures
        ({
            let required = chosen_required(host).map_values(|n: Node| n.id);
            let optional = chosen_optional(host).map_values(|n: Node| n.id);
            &&& forall|i: int|
                0 <= i < required.len() ==> is_required(host.nodes, #[trigger] required[i])
            &&& forall|i: int|
                0 <= i < optional.len() ==> !is_required(host.nodes, #[trigger] optional[i])
        }),
{
    let id_of = |n: Node| n.id;
    let required = chosen_required(host).map_values(id_of);
    let optional = chosen_optional(host).map_values(id_of);
    let chosen = chosen_required(host) + chosen_optional(host);
    assert forall|i: int| 0 <= i < required.len() implies is_required(
        host.nodes,
        #[trigger] required[i],
    ) by {
        lemma_chosen(host, i);
        assert(chosen[i] == chosen_required(host)[i]);
        let k = choose|k: int| 0 <= k < host.nodes.len() && host.nodes[k] == chosen[i];
        assert(host.nodes[k].id == required[i]);
    }
    assert forall|i: int| 0 <= i < optional.len() implies !is_required(
        host.nodes,
        #[trigger] optional[i],
    ) by {
        let at = chosen_required(host).len() + i;
        lemma_chosen(host, at);
        assert(chosen[at] == chosen_optional(host)[i]);
        let a = choose|a: int| 0 <= a < host.nodes.len() && host.nodes[a] == chosen[at];
        if is_required(host.nodes, optional[i]) {
            let b = choose|b: int|
                0 <= b < host.nodes.len() && (#[trigger] host.nodes[b]).id == optional[i]
                    && host.nodes[b].peer_type == PeerType::Required;
            if a < b {
                assert(host.nodes[a].id != host.nodes[b].id);
            } else if b < a {
                assert(host.nodes[b].id != host.nodes[a].id);
            }
        }
    }
}

/// The host does not try to be linked to more required nodes than it wants to be, and it leaves
/// out none that is missing.
pub proof fn law_required_peers(host: HostView)
    requires
        host.wf(),
    ensures
        ({
            let required = host.peers_to_connect().filter(|id: NodeId| is_required(host.nodes, id));
            let missing = IDEAL_PEERS - host.linked_required().len();
            required.len() == (if missing <= 0 {
                0
            } else if missing < host.wanted_required().len() {
                missing
            } else {
                host.wanted_required().len() as int
            })
        }),
{
    let pred = |id: NodeId| is_required(host.nodes, id);
    let id_of = |n: Node| n.id;
    let required = chosen_required(host).map_values(id_of);
    let optional = chosen_optional(host).map_values(id_of);
    assert(host.peers_to_connect() =~= required + optional);
    lemma_chosen_kinds(host);
    Seq::filter_distributes_over_add(required, optional, pred);
    lemma_filter_all(required, pred);
    lemma_filter_none(optional, pred);
}

/// A filter that every item passes keeps everything.
proof fn lemma_filter_all<A>(s: Seq<A>, pred: spec_fn(A) -> bool)
    requires
        forall|i: int| 0 <= i < s.len() ==> pred(#[trigger] s[i]),
    ensures
        s.filter(pred).len() == s.len(),
    decreases s.len(),
{
    reveal(Seq::filter);
    if s.len() > 0 {
        lemma_filter_all(s.drop_last(), pred);
        assert(pred(s[s.len() - 1]));
    }
}

/// A filter that no item passes keeps nothing.
proof fn lemma_filter_none<A>(s: Seq<A>, pred: spec_fn(A) -> bool)
    requires
        forall|i: int| 0 <= i < s.len() ==> !pred(#[trigger] s[i]),
    ensures
        s.filter(pred).len() == 0,
    decreases s.len(),
{
    reveal(Seq::filter);
    if s.len() > 0 {
        lemma_filter_none(s.drop_last(), pred);
        assert(!pred(s[s.len() - 1]));
    }
}

/// Once there is a handshake with a node, the host neither picks it nor dials it again.
pub proof fn law_no_second_connection(
    host: HostView,
    id: NodeId,
    now: time::Tm,
    decision: ConnectDecision,
    after: HostView,
)
    requires
        host.wf(),
        host.free.len() > 0,
        connect_result(host.with_handshake(id), id, now, decision, after),
    ensures
        host.with_handshake(id).linked(id),
        !host.with_handshake(id).peers_to_connect().contains(id),
        !(decision is Dial),
        after == host.with_handshake(id),
{
    let with = host.with_handshake(id);
    assert(with.connections.contains_key(host.free[0]));
    if with.peers_to_connect().contains(id) {
        let i = choose|i: int|
            0 <= i < with.peers_to_connect().len() && with.peers_to_connect()[i] == id;
        assert(with.peers_to_connect() =~= (chosen_required(with) + chosen_optional(
            with,
        )).map_values(|n: Node| n.id));
        lemma_chosen(with, i);
    }
}

/// How many nodes the host can count depends on the required ones alone, linked or not.
pub proof fn law_countable(host: HostView)
    ensures
        host.linked_required().len() + host.wanted_required().len() == host.nodes.filter(
            |n: Node| n.peer_type == PeerType::Required,
        ).len(),
        host.countable() == (host.nodes.filter(
            |n: Node| n.peer_type == PeerType::Required,
        ).len() + (if host.info.config.pin {
            0
        } else {
            IDEAL_PEERS as int
        }) <= u32::MAX),
{
    let links = |n: Node| host.linked(n.id) && n.peer_type == PeerType::Required;
    let missing = |n: Node| !host.linked(n.id) && n.peer_type == PeerType::Required;
    let required = |n: Node| n.peer_type == PeerType::Required;
    let is_wanted = |n: Node|
        !host.linked(n.id) && (!host.info.config.pin || n.peer_type == PeerType::Required);
    lemma_filter_split(host.nodes, links, missing, required);
    lemma_filter_twice(host.nodes, is_wanted, required, missing);
}

/// Unless it is pinned, the host connects to all optional nodes that it is not linked to, but to
/// no more than the ideal number plus one for each required node. They come after the required
/// ones.
pub proof fn law_optional_peers(host: HostView)
    requires
        host.wf(),
    ensures
        ({
            let optional = host.peers_to_connect().filter(
                |id: NodeId| !is_required(host.nodes, id),
            );
            let unlinked = host.nodes.filter(
                |n: Node| !host.linked(n.id) && n.peer_type == PeerType::Optional,
            );
            let room = IDEAL_PEERS + host.nodes.filter(
                |n: Node| n.peer_type == PeerType::Required,
            ).len();
            optional.len() == (if host.info.config.pin {
                0
            } else if unlinked.len() < room {
                unlinked.len() as int
            } else {
                room
            })
        }),
        forall|i: int, j: int|
            #![trigger host.peers_to_connect()[i], host.peers_to_connect()[j]]
            0 <= i < j < host.peers_to_connect().len() && is_required(
                host.nodes,
                host.peers_to_connect()[j],
            ) ==> is_required(host.nodes, host.peers_to_connect()[i]),
{
    let pred = |id: NodeId| !is_required(host.nodes, id);
    let id_of = |n: Node| n.id;
    let ids = host.peers_to_connect();
    let required = chosen_required(host).map_values(id_of);
    let optional = chosen_optional(host).map_values(id_of);
    assert(ids =~= required + optional);
    lemma_chosen_kinds(host);
    Seq::filter_distributes_over_add(required, optional, pred);
    lemma_filter_none(required, pred);
    lemma_filter_all(optional, pred);
    let is_wanted = |n: Node|
        !host.linked(n.id) && (!host.info.config.pin || n.peer_type == PeerType::Required);
    let is_optional = |n: Node| n.peer_type == PeerType::Optional;
    let unlinked = |n: Node| !host.linked(n.id) && n.peer_type == PeerType::Optional;
    if !host.info.config.pin {
        lemma_filter_twice(host.nodes, is_wanted, is_optional, unlinked);
        law_countable(host);
    }
    assert forall|i: int, j: int|
        #![trigger ids[i], ids[j]]
        0 <= i < j < ids.len() && is_required(host.nodes, ids[j]) implies is_required(
        host.nodes,
        ids[i],
    ) by {
        let split = required.len();
        if j >= split {
            assert(ids[j] == optional[j - split]);
        } else {
            assert(ids[i] == required[i]);
        }
    }
}

/// Two filters that no item passes both keep together what a filter for either keeps.
pub proof fn lemma_filter_split<A>(
    s: Seq<A>,
    a: spec_fn(A) -> bool,
    b: spec_fn(A) -> bool,
    either: spec_fn(A) -> bool,
)
    requires
        forall|x: A| #[trigger] either(x) == (a(x) || b(x)) && !(a(x) && b(x)),
    ensures
        s.filter(a).len() + s.filter(b).len() == s.filter(either).len(),
    decreases s.len(),
{
    reveal(Seq::filter);
    if s.len() > 0 {
        lemma_filter_split(s.drop_last(), a, b, either);
        let last = either(s.last());
    }
}

/// Filtering twice keeps what filtering for both at once keeps.
pub proof fn lemma_filter_twice<A>(
    s: Seq<A>,
    a: spec_fn(A) -> bool,
    b: spec_fn(A) -> bool,
    both: spec_fn(A) -> bool,
)
    requires
        forall|x: A| #[trigger] both(x) == (a(x) && b(x)),
    ensures
        s.filter(a).filter(b) == s.filter(both),
    decreases s.len(),
{
    reveal(Seq::filter);
    if s.len() > 0 {
        let rest = s.drop_last();
        lemma_filter_twice(rest, a, b, both);
        let last = both(s.last());
        if a(s.last()) {
            assert(rest.filter(a).push(s.last()).drop_last() =~= rest.filter(a));
        }
    }
}

/// The node at the other end of a connection.
pub open spec fn peer_id(entry: ConnectionEntry) -> NodeId {
    match entry {
        ConnectionEntry::Handshake(h) => h.id,
        ConnectionEntry::Session(s) => s.info.id,
    }
}

/// No node is at the other end of two connections.
pub open spec fn one_connection_each(host: HostView) -> bool {
    forall|a: usize, b: usize|
        #![trigger host.connections.contains_key(a), host.connections.contains_key(b)]
        host.connections.contains_key(a) && host.connections.contains_key(b) && a != b
            ==> peer_id(host.connections[a]) != peer_id(host.connections[b])
}

/// Dialing a node and adding the handshake keeps at most one connection per node.
pub proof fn law_one_connection_per_node(
    host: HostView,
    id: NodeId,
    now: time::Tm,
    decision: ConnectDecision,
    dialed: HostView,
)
    requires
        host.wf(),
        one_connection_each(host),
        connect_result(host, id, now, decision, dialed),
    ensures
        one_connection_each(dialed),
        decision is Dial ==> one_connection_each(dialed.with_handshake(id)),
{
    if decision is Dial {
        assert(!host.linked(id));
        let after = dialed.with_handshake(id);
        assert forall|a: usize, b: usize|
            #![trigger after.connections.contains_key(a), after.connections.contains_key(b)]
            after.connections.contains_key(a) && after.connections.contains_key(b) && a
                != b implies peer_id(after.connections[a]) != peer_id(after.connections[b]) by {
            if host.connections.contains_key(a) {
                assert(peer_id(host.connections[a]) != id);
            }
            if host.connections.contains_key(b) {
                assert(peer_id(host.connections[b]) != id);
            }
        }
    }
}

/// Every capability that the host announces has a handler.
pub open spec fn capabilities_handled(host: HostView) -> bool {
    forall|i: int|
        0 <= i < host.info.capabilities.len() ==> listed(
            host.handlers,
            (#[trigger] host.info.capabilities[i]).protocol@,
        )
}

/// A new host announces no capability without a handler, and registering a handler keeps it so.
pub proof fn law_capabilities_are_handled(
    keys: KeyPair,
    nonce: Seq<u8>,
    host: HostView,
    protocol: ProtocolId,
    versions: Seq<u8>,
)
    requires
        capabilities_handled(host),
    ensures
        capabilities_handled(initial_host(keys, nonce)),
        capabilities_handled(host.with_protocol(protocol, versions)),
{
    let after = host.with_protocol(protocol, versions);
    assert(listed(after.handlers, protocol@)) by {
        if !listed(host.handlers, protocol@) {
            assert(after.handlers[host.handlers.len() as int]@ == protocol@);
        }
    }
    assert forall|i: int| 0 <= i < after.info.capabilities.len() implies listed(
        after.handlers,
        (#[trigger] after.info.capabilities[i]).protocol@,
    ) by {
        let n = host.info.capabilities.len();
        if i < n {
            let p = host.info.capabilities[i].protocol@;
            assert(listed(host.handlers, p));
            let k = choose|k: int|
                0 <= k < host.handlers.len() && (#[trigger] host.handlers[k])@ == p;
            assert(after.handlers[k]@ == p);
        }
    }
}

/// How often the event loop is told that the session goes on.
pub open spec fn reregistrations(plan: Seq<ActionView>, token: StreamToken) -> nat {
    plan.filter(|action: ActionView| action == ActionView::Reregister { token }).len()
}

/// The host once a plan on a connection was carried out, by handlers that leave the connection
/// alone.
pub open spec fn carried_out(
    host: HostView,
    plan: Seq<ActionView>,
    token: StreamToken,
) -> HostView {
    if plan.contains(ActionView::Forget { token }) {
        host.without_connection(token)
    } else {
        host
    }
}

/// How often a plan without surprises reregisters.
proof fn lemma_last_counts(plan: Seq<ActionView>, token: StreamToken)
    requires
        plan.len() > 0,
        forall|i: int| 0 <= i < plan.len() - 1 ==> (#[trigger] plan[i]) is Notify,
    ensures
        reregistrations(plan, token) == (if plan.last() == (ActionView::Reregister { token }) {
            1nat
        } else {
            0
        }),
        plan.contains(ActionView::Forget { token }) == (plan.last() == (ActionView::Forget {
            token,
        })),
{
    let pred = |action: ActionView| action == ActionView::Reregister { token };
    reveal(Seq::filter);
    let rest = plan.drop_last();
    assert forall|i: int| 0 <= i < rest.len() implies !pred(#[trigger] rest[i]) by {
        assert(plan[i] is Notify);
    }
    lemma_filter_none(rest, pred);
    assert(plan[plan.len() - 1] == plan.last());
}

/// What a readable or writable event leaves of a connection with a session: the session, which is
/// then reregistered once, or, if reading or writing failed, nothing.
pub proof fn law_session_event(
    host: HostView,
    token: StreamToken,
    info: SessionInfo,
    read: Result<SessionData, UtilError>,
    written: Result<(), UtilError>,
)
    requires
        host.wf(),
        host.in_session(token),
    ensures
        ({
            let now = host.with_session_info(token, info);
            let plan = now.read_plan(token, read);
            let end = carried_out(now, plan, token);
            &&& read is Ok ==> end == now && end.in_session(token)
            &&& read is Err ==> !end.connections.contains_key(token)
            &&& reregistrations(plan, token) == (if end.in_session(token) {
                1nat
            } else {
                0
            })
        }),
        ({
            let now = host.with_session_info(token, info);
            let plan = now.write_plan(token, written);
            let end = carried_out(now, plan, token);
            &&& written is Ok ==> end == now && end.in_session(token)
            &&& written is Err ==> !end.connections.contains_key(token)
            &&& reregistrations(plan, token) == (if end.in_session(token) {
                1nat
            } else {
                0
            })
        }),
{
    let now = host.with_session_info(token, info);
    assert(now.wf());
    law_reading(now, token, read);
    lemma_last_counts(now.read_plan(token, read), token);
    match written {
        Err(e) => {
            law_reading(now, token, Err(e));
            assert(now.write_plan(token, written) == now.read_plan(token, Err(e)));
        },
        Ok(_) => {},
    }
    lemma_last_counts(now.write_plan(token, written), token);
}

/// What a readable or writable event leaves of a connection in its handshake: the handshake, or,
/// if it is complete and a session could be created, a session, which is then reregistered once,
/// or nothing.
pub proof fn law_handshake_event(
    host: HostView,
    token: StreamToken,
    outcome: HandshakeOutcome,
    session: Result<SessionInfo, UtilError>,
    start_plan: Seq<ActionView>,
    started: HostView,
)
    requires
        host.wf(),
        host.in_handshake(token),
        start_result(
            host.with_handshake_info(token, outcome.info),
            token,
            session,
            start_plan,
            started,
        ),
    ensures
        ({
            let now = host.with_handshake_info(token, outcome.info);
            let plan = handshake_plan(token, outcome);
            let starts = plan.contains(ActionView::StartSession { token });
            let end = if starts {
                carried_out(started, start_plan, token)
            } else {
                carried_out(now, plan, token)
            };
            let told = reregistrations(plan, token) + if starts {
                reregistrations(start_plan, token)
            } else {
                0
            };
            &&& starts == (outcome.result is Ok && outcome.done)
            &&& end.in_handshake(token) == (outcome.result is Ok && !outcome.done)
            &&& end.in_session(token) == (starts && session is Ok)
            &&& told == (if end.in_session(token) {
                1nat
            } else {
                0
            })
        }),
{
    let plan = handshake_plan(token, outcome);
    let pred = |action: ActionView| action == ActionView::Reregister { token };
    lemma_filter_none(plan, pred);
    if outcome.result is Err {
        assert(plan[0] == ActionView::Forget { token });
    } else if outcome.done {
        assert(plan[0] == ActionView::StartSession { token });
        if session is Ok {
            lemma_last_counts(start_plan, token);
        } else {
            lemma_filter_none(start_plan, pred);
        }
    }
}

/// Filtering keeps protocols distinct.
pub proof fn lemma_filter_all_distinct(s: Seq<ProtocolId>, pred: spec_fn(ProtocolId) -> bool)
    requires
        all_distinct(s),
    ensures
        all_distinct(s.filter(pred)),
    decreases s.len(),
{
    reveal(Seq::filter);
    if s.len() > 0 {
        let rest = s.drop_last();
        lemma_filter_all_distinct(rest, pred);
        if pred(s.last()) {
            let kept = rest.filter(pred);
            assert forall|i: int| 0 <= i < kept.len() implies (#[trigger] kept[i])@
                != s.last()@ by {
                assert(kept.contains(kept[i]));
                rest.lemma_filter_contains_rev(pred, kept[i]);
                let k = choose|k: int| 0 <= k < rest.len() && rest[k] == kept[i];
                assert(s[k]@ != s[s.len() - 1]@);
            }
        }
    }
}

} // verus!
