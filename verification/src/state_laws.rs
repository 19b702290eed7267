//! What holds of the state of the host and of what changes it.

use crate::action::{
    views, Action, ActionView, HandlerEvent, HandlerEventView, NewHandshake, OutgoingPacket,
    UtilError,
};
use crate::connection::{
    lemma_slot_emptied, slots_valid, ConnectionEntry, HandshakeInfo, SessionEntry, SessionInfo,
};
use crate::context::{peer_disabled, peer_text, reachable, timer_request, timers_after};
use crate::hash::{keccak256, KeyPair, NodeId};
use crate::host::{handshake_made, initial_host, start_result, HostView};
use crate::info::HostInfoView;
use crate::laws::{law_connection_limit, law_handler_added, law_node_added};
use crate::node::{node_known, with_node, IpAddress, Node};
use crate::protocols::listed;
use crate::tokens::{
    connection_token, service_timer, PeerId, ProtocolId, StreamToken, TimerToken, DEFAULT_PORT,
    FIRST_CONNECTION, IDLE, LAST_CONNECTION, MAX_CONNECTIONS, NODETABLE_DISCOVERY,
    NODETABLE_MAINTAIN, NODETABLE_RECEIVE, TCP_ACCEPT,
};
use vstd::prelude::*;

verus! {

/// Nothing differs but what is connected with one token.
pub open spec fn same_elsewhere(
    before: Map<usize, ConnectionEntry>,
    after: Map<usize, ConnectionEntry>,
    token: usize,
) -> bool {
    forall|t: usize|
        #![trigger after.contains_key(t)]
        #![trigger before.contains_key(t)]
        t != token ==> after.contains_key(t) == before.contains_key(t) && (before.contains_key(t)
            ==> after[t] == before[t])
}

/// Nothing differs but the connections and the order of the free tokens.
pub open spec fn same_but_connections(before: HostView, after: HostView) -> bool {
    &&& after.info == before.info
    &&& after.timers == before.timers
    &&& after.nodes == before.nodes
    &&& after.handlers == before.handlers
}

/// A list of protocols names what was put into it, and nothing else.
pub proof fn law_listed(protocols: Seq<ProtocolId>, added: ProtocolId, protocol: Seq<char>)
    ensures
        !listed(Seq::empty(), protocol),
        listed(protocols.push(added), protocol) <==> listed(protocols, protocol) || added@
            == protocol,
        forall|i: int|
            0 <= i < protocols.len() ==> listed(protocols, (#[trigger] protocols[i])@),
{
    let after = protocols.push(added);
    if listed(protocols, protocol) {
        let i = choose|i: int|
            0 <= i < protocols.len() && (#[trigger] protocols[i])@ == protocol;
        assert(after[i]@ == protocol);
    }
    if added@ == protocol {
        assert(after[protocols.len() as int]@ == protocol);
    }
    if listed(after, protocol) && added@ != protocol {
        let i = choose|i: int| 0 <= i < after.len() && (#[trigger] after[i])@ == protocol;
        assert(protocols[i]@ == protocol);
    }
}

/// A node is known if it was put into the list, and only so.
pub proof fn law_known(nodes: Seq<Node>, added: Node, id: NodeId)
    ensures
        !node_known(Seq::empty(), id),
        node_known(nodes.push(added), id) <==> node_known(nodes, id) || added.id == id,
        forall|i: int| 0 <= i < nodes.len() ==> node_known(nodes, (#[trigger] nodes[i]).id),
{
    let after = nodes.push(added);
    if node_known(nodes, id) {
        let i = choose|i: int| 0 <= i < nodes.len() && (#[trigger] nodes[i]).id == id;
        assert(after[i].id == id);
    }
    if added.id == id {
        assert(after[nodes.len() as int].id == id);
    }
    if node_known(after, id) && added.id != id {
        let i = choose|i: int| 0 <= i < after.len() && (#[trigger] after[i]).id == id;
        assert(nodes[i].id == id);
    }
}

/// The tokens of connections are a contiguous range, one for each connection that the host may
/// hold. The tokens of the host itself differ from them and from each other.
pub proof fn law_tokens(token: usize)
    ensures
        connection_token(token) <==> FIRST_CONNECTION <= token <= LAST_CONNECTION,
        LAST_CONNECTION - FIRST_CONNECTION + 1 == MAX_CONNECTIONS,
        service_timer(token) ==> !connection_token(token),
        service_timer(IDLE) && service_timer(NODETABLE_MAINTAIN) && service_timer(
            NODETABLE_DISCOVERY,
        ),
        service_timer(token) ==> token == IDLE || token == NODETABLE_MAINTAIN || token
            == NODETABLE_DISCOVERY,
        !connection_token(TCP_ACCEPT) && !connection_token(NODETABLE_RECEIVE),
        seq![
            TCP_ACCEPT,
            IDLE,
            NODETABLE_RECEIVE,
            NODETABLE_MAINTAIN,
            NODETABLE_DISCOVERY,
        ].no_duplicates(),
{
}

/// What the host has to keep: each connection token is either in use or free, and free once; no
/// other token is either; no node and no handler occurs twice.
pub proof fn law_valid(host: HostView)
    ensures
        host.wf() <==> {
            &&& forall|t: usize|
                #![trigger host.connections.contains_key(t)]
                #![trigger host.free.contains(t)]
                if FIRST_CONNECTION <= t <= LAST_CONNECTION {
                    host.connections.contains_key(t) <==> !host.free.contains(t)
                } else {
                    !host.connections.contains_key(t) && !host.free.contains(t)
                }
            &&& host.free.no_duplicates()
            &&& forall|i: int, j: int|
                0 <= i < host.nodes.len() && 0 <= j < host.nodes.len() && (
                #[trigger] host.nodes[i]).id == (#[trigger] host.nodes[j]).id ==> i == j
            &&& forall|i: int, j: int|
                0 <= i < host.handlers.len() && 0 <= j < host.handlers.len() && (
                #[trigger] host.handlers[i])@ == (#[trigger] host.handlers[j])@ ==> i == j
        },
{
    if host.wf() {
        assert forall|i: int, j: int|
            0 <= i < host.nodes.len() && 0 <= j < host.nodes.len() && (#[trigger] host.nodes[i]).id
                == (#[trigger] host.nodes[j]).id implies i == j by {
            if i < j {
                assert(host.nodes[i].id != host.nodes[j].id);
            } else if j < i {
                assert(host.nodes[j].id != host.nodes[i].id);
            }
        }
        assert forall|i: int, j: int|
            0 <= i < host.handlers.len() && 0 <= j < host.handlers.len() && (
            #[trigger] host.handlers[i])@ == (#[trigger] host.handlers[j])@ implies i == j by {
            if i < j {
                assert(host.handlers[i]@ != host.handlers[j]@);
            } else if j < i {
                assert(host.handlers[j]@ != host.handlers[i]@);
            }
        }
    }
}

/// What a peer can be talked to in, and what can be sent to it and comes from it. A session needs
/// no capability for a packet, but the protocol must not be disabled, and what comes in needs a
/// handler.
pub proof fn law_reach(host: HostView, peer: PeerId, session: SessionEntry, protocol: Seq<char>)
    requires
        host.connections.contains_key(peer),
        host.connections[peer] == ConnectionEntry::Session(session),
    ensures
        host.in_session(peer),
        !host.in_handshake(peer),
        reachable(host.connections, peer, protocol) <==> !listed(session.disabled@, protocol),
        host.delivers(peer, protocol) <==> listed(host.handlers, protocol) && !listed(
            session.disabled@,
            protocol,
        ),
        session.capable(protocol) <==> listed(session.info.capabilities@, protocol) && !listed(
            session.disabled@,
            protocol,
        ),
        session.has_any_capability() <==> exists|i: int|
            0 <= i < session.info.capabilities@.len() && !listed(
                session.disabled@,
                (#[trigger] session.info.capabilities@[i])@,
            ),
{
    assert forall|i: int| 0 <= i < session.info.capabilities@.len() implies listed(
        session.info.capabilities@,
        (#[trigger] session.info.capabilities@[i])@,
    ) by {
        law_listed(session.info.capabilities@, session.info.capabilities@[i], protocol);
    }
}

/// Without a session there is nothing to send to or to hear from.
pub proof fn law_no_reach(host: HostView, peer: PeerId, protocol: Seq<char>)
    requires
        host.connections.contains_key(peer) ==> host.connections[peer] is Handshake,
    ensures
        !host.in_session(peer),
        host.in_handshake(peer) <==> host.connections.contains_key(peer),
        !reachable(host.connections, peer, protocol),
        !host.delivers(peer, protocol),
{
}

/// A node that was dialed gets a token that was not in use, for a handshake with it, unless the
/// host holds all the connections that it may. No other connection changes. The nonce is replaced
/// by its digest in either case, and the handshake goes by the new one.
pub proof fn law_handshake_added(host: HostView, id: NodeId, handshake: Option<NewHandshake>)
    requires
        host.wf(),
        handshake_made(host, id, handshake, host.with_handshake(id)),
    ensures
        ({
            let after = host.with_handshake(id);
            &&& after.wf()
            &&& handshake is Some <==> host.connections.dom().len() < MAX_CONNECTIONS
            &&& match handshake {
                Some(h) => {
                    &&& FIRST_CONNECTION <= h.token <= LAST_CONNECTION
                    &&& !host.connections.contains_key(h.token)
                    &&& after.connections.contains_key(h.token)
                    &&& after.connections[h.token] matches ConnectionEntry::Handshake(info)
                    &&& info.id == id
                    &&& h.id == id
                    &&& h.nonce@ == keccak256(host.info.nonce)
                    &&& same_elsewhere(host.connections, after.connections, h.token)
                },
                None => after.connections == host.connections,
            }
            &&& after.info == HostInfoView { nonce: keccak256(host.info.nonce), ..host.info }
            &&& after.timers == host.timers
            &&& after.nodes == host.nodes
            &&& after.handlers == host.handlers
        }),
{
    let after = host.with_handshake(id);
    law_connection_limit(host);
    if host.free.len() > 0 {
        let token = host.free[0];
        assert(host.free.contains(token));
        assert forall|t: usize| #[trigger] after.free.contains(t) <==> host.free.contains(t) && t
            != token by {
            if after.free.contains(t) {
                let i = choose|i: int| 0 <= i < after.free.len() && after.free[i] == t;
                assert(host.free[i + 1] == t);
            }
            if host.free.contains(t) && t != token {
                let i = choose|i: int| 0 <= i < host.free.len() && host.free[i] == t;
                assert(after.free[i - 1] == t);
            }
        }
        assert forall|t: usize|
            #![trigger after.connections.contains_key(t)]
            #![trigger after.free.contains(t)]
            if connection_token(t) {
                after.connections.contains_key(t) != after.free.contains(t)
            } else {
                !after.connections.contains_key(t) && !after.free.contains(t)
            } by {
            assert(host.connections.contains_key(t) ==> !host.free.contains(t));
        }
        assert(slots_valid(after.connections, after.free));
    }
}

/// A connection that is removed takes nothing with it: all other connections stay, and the other
/// free tokens keep their order behind the one that became free.
pub proof fn law_connection_removed(host: HostView, token: StreamToken)
    requires
        host.wf(),
        host.connections.contains_key(token),
    ensures
        host.without_connection(token).wf(),
        !host.without_connection(token).connections.contains_key(token),
        same_elsewhere(
            host.connections,
            host.without_connection(token).connections,
            token,
        ),
        host.without_connection(token).free.len() == host.free.len() + 1,
        host.without_connection(token).free[0] == token,
        host.without_connection(token).free.skip(1) == host.free,
        same_but_connections(host, host.without_connection(token)),
{
    let after = host.without_connection(token);
    assert(!host.free.contains(token));
    lemma_slot_emptied(host.free, token);
    assert(slots_valid(after.connections, after.free));
    assert(after.free.skip(1) =~= host.free);
}

/// What a session reports of itself is remembered as it is. What was disabled stays disabled, and
/// no other connection changes.
pub proof fn law_session_reported(
    host: HostView,
    token: StreamToken,
    session: SessionEntry,
    info: SessionInfo,
)
    requires
        host.wf(),
        host.connections.contains_key(token),
        host.connections[token] == ConnectionEntry::Session(session),
    ensures
        ({
            let after = host.with_session_info(token, info);
            &&& after.wf()
            &&& after.connections.contains_key(token)
            &&& after.connections[token] matches ConnectionEntry::Session(s)
            &&& s.info == info
            &&& s.disabled == session.disabled
            &&& same_elsewhere(host.connections, after.connections, token)
            &&& after.free == host.free
            &&& same_but_connections(host, after)
        }),
{
}

/// What a handshake reports of itself is remembered as it is, and no other connection changes.
pub proof fn law_handshake_reported(host: HostView, token: StreamToken, info: HandshakeInfo)
    requires
        host.wf(),
        host.connections.contains_key(token),
    ensures
        ({
            let after = host.with_handshake_info(token, info);
            &&& after.wf()
            &&& after.connections.contains_key(token)
            &&& after.connections[token] == ConnectionEntry::Handshake(info)
            &&& same_elsewhere(host.connections, after.connections, token)
            &&& after.free == host.free
            &&& same_but_connections(host, after)
        }),
{
}

/// A session that starts knows what it reported, has nothing disabled, and takes the place of the
/// handshake; it goes on. If there is no session the connection is gone, without further action. No
/// other connection changes.
pub proof fn law_session_started(
    host: HostView,
    token: StreamToken,
    session: Result<SessionInfo, UtilError>,
    plan: Seq<ActionView>,
    after: HostView,
)
    requires
        host.wf(),
        host.in_handshake(token),
        start_result(host, token, session, plan, after),
    ensures
        match session {
            Ok(info) => {
                &&& after.connections.contains_key(token)
                &&& after.connections[token] matches ConnectionEntry::Session(s)
                &&& s.info == info
                &&& s.disabled@.len() == 0
                &&& after.free == host.free
                &&& plan == seq![ActionView::Reregister { token }]
            },
            Err(_) => {
                &&& !after.connections.contains_key(token)
                &&& after.free.len() > 0
                &&& after.free[0] == token
                &&& plan.len() == 0
            },
        },
        same_elsewhere(host.connections, after.connections, token),
        same_but_connections(host, after),
        after.wf(),
{
    if session is Ok {
        assert(after.connections.contains_key(token));
    } else {
        law_connection_removed(host, token);
    }
}

/// Adding a node puts it in the place of the node with its identifier, or at the end. The other
/// nodes stay what and where they are, and nothing else changes. If there is no node to add,
/// nothing changes at all.
pub proof fn law_node_placed(host: HostView, node: Node, error: UtilError)
    requires
        host.wf(),
    ensures
        ({
            let after = host.with_parsed(Ok(node));
            &&& after.wf()
            &&& after.nodes.len() == host.nodes.len() + (if node_known(host.nodes, node.id) {
                0int
            } else {
                1
            })
            &&& forall|i: int|
                0 <= i < host.nodes.len() ==> #[trigger] after.nodes[i] == (if host.nodes[i].id
                    == node.id {
                    node
                } else {
                    host.nodes[i]
                })
            &&& !node_known(host.nodes, node.id) ==> after.nodes.last() == node
            &&& after.info == host.info
            &&& after.connections == host.connections
            &&& after.free == host.free
            &&& after.timers == host.timers
            &&& after.handlers == host.handlers
        }),
        host.with_parsed(Err(error)) == host,
{
    law_node_added(host.nodes, node, node.id);
    let after = with_node(host.nodes, node);
    assert forall|i: int| 0 <= i < host.nodes.len() implies #[trigger] after[i] == (
    if host.nodes[i].id == node.id {
        node
    } else {
        host.nodes[i]
    }) by {
        law_known(host.nodes, node, node.id);
    }
}

/// Registering a handler adds its protocol to the end of the list, unless it is there, and adds
/// one capability for each version, in order, behind those that were there. Nothing else changes.
pub proof fn law_handler_registered(host: HostView, protocol: ProtocolId, versions: Seq<u8>)
    requires
        host.wf(),
    ensures
        ({
            let after = host.with_protocol(protocol, versions);
            let had = host.info.capabilities.len();
            &&& after.wf()
            &&& listed(host.handlers, protocol@) ==> after.handlers == host.handlers
            &&& !listed(host.handlers, protocol@) ==> after.handlers == host.handlers.push(
                protocol,
            )
            &&& after.info.capabilities.len() == had + versions.len()
            &&& forall|i: int|
                0 <= i < had ==> #[trigger] after.info.capabilities[i]
                    == host.info.capabilities[i]
            &&& forall|i: int|
                0 <= i < versions.len() ==> {
                    let capability = #[trigger] after.info.capabilities[had + i];
                    &&& capability.protocol == protocol
                    &&& capability.version == versions[i]
                    &&& capability.packet_count == 0
                }
            &&& after.info == HostInfoView { capabilities: after.info.capabilities, ..host.info }
            &&& after.connections == host.connections
            &&& after.free == host.free
            &&& after.timers == host.timers
            &&& after.nodes == host.nodes
        }),
{
    law_handler_added(host.handlers, protocol);
}

/// A handler asks for a timer of the length it wants, in the name of its own protocol.
pub proof fn law_timer_requested(protocol: ProtocolId, ms: u64)
    ensures
        timer_request(protocol, ms).ms == ms,
        timer_request(protocol, ms).protocol == protocol,
{
}

/// A timer that the event loop granted belongs to the protocol of the handler that asked for it.
/// Nothing else changes, and nothing changes if the event loop refused.
pub proof fn law_timer_granted(
    timers: Map<TimerToken, ProtocolId>,
    protocol: ProtocolId,
    granted: TimerToken,
    error: UtilError,
    host: HostView,
)
    ensures
        ({
            let after = timers_after(timers, protocol, Ok(granted));
            &&& after.contains_key(granted)
            &&& after[granted] == protocol
            &&& forall|t: TimerToken|
                t != granted ==> (#[trigger] after.contains_key(t) <==> timers.contains_key(t))
                    && (timers.contains_key(t) ==> after[t] == timers[t])
        }),
        timers_after(timers, protocol, Err(error)) == timers,
        host.with_timer(granted, protocol).timers == timers_after(
            host.timers,
            protocol,
            Ok(granted),
        ),
        host.with_timer(granted, protocol).nodes == host.nodes,
        host.with_timer(granted, protocol).handlers == host.handlers,
        host.with_timer(granted, protocol).connections == host.connections,
{
}

/// A new host holds nothing: no connection, timer, node or handler. It listens on all interfaces,
/// it is not pinned, and all its tokens are free, in ascending order.
pub proof fn law_new_host(keys: KeyPair, nonce: Seq<u8>, token: usize)
    ensures
        ({
            let host = initial_host(keys, nonce);
            &&& host.wf()
            &&& !host.connections.contains_key(token)
            &&& !host.timers.contains_key(token)
            &&& host.nodes.len() == 0
            &&& host.handlers.len() == 0
            &&& host.free.len() == MAX_CONNECTIONS
            &&& forall|i: int|
                0 <= i < MAX_CONNECTIONS ==> #[trigger] host.free[i] == FIRST_CONNECTION + i
            &&& host.info.keys == keys
            &&& host.info.nonce == nonce
            &&& host.info.capabilities.len() == 0
            &&& host.info.protocol_version == 4
            &&& host.info.client_version == "parity"@
            &&& host.info.listen_port == 0
            &&& host.info.config.listen_address.port == DEFAULT_PORT
            &&& host.info.config.listen_address.ip matches IpAddress::V4(octets)
            &&& forall|i: int| 0 <= i < 4 ==> #[trigger] octets@[i] == 0
            &&& host.info.config.public_address == host.info.config.listen_address
            &&& host.info.config.nat_enabled
            &&& host.info.config.discovery_enabled
            &&& !host.info.config.pin
        }),
{
    let host = initial_host(keys, nonce);
    assert forall|t: usize| #[trigger] host.free.contains(t) <==> connection_token(t) by {
        if connection_token(t) {
            assert(host.free[t - FIRST_CONNECTION] == t);
        }
    }
    assert(slots_valid(host.connections, host.free));
}

/// Starting the host sets the port that it listens on to the configured one, and nothing else.
pub proof fn law_started(host: HostView)
    ensures
        host.initialized().info.listen_port == host.info.config.listen_address.port,
        host.initialized().info == (HostInfoView {
            listen_port: host.initialized().info.listen_port,
            ..host.info
        }),
        host.initialized().connections == host.connections,
        host.initialized().free == host.free,
        host.initialized().timers == host.timers,
        host.initialized().nodes == host.nodes,
        host.initialized().handlers == host.handlers,
{
}

/// Disabling a protocol for a peer disconnects it exactly if there is a session and every
/// capability of it is this protocol or was disabled before. If the session stays it keeps what it
/// reported and what was disabled, and this protocol is disabled too. No other connection changes,
/// and nothing happens without a session.
pub proof fn law_peer_disabled(
    before: Map<usize, ConnectionEntry>,
    peer: PeerId,
    protocol: ProtocolId,
    disconnected: bool,
    after: Map<usize, ConnectionEntry>,
)
    requires
        peer_disabled(before, peer, protocol, disconnected, after),
    ensures
        same_elsewhere(before, after, peer),
        match before[peer] {
            ConnectionEntry::Session(s) if before.contains_key(peer) => {
                &&& disconnected <==> forall|i: int|
                    0 <= i < s.info.capabilities@.len() ==> (
                    #[trigger] s.info.capabilities@[i])@ == protocol@ || listed(
                        s.disabled@,
                        s.info.capabilities@[i]@,
                    )
                &&& after.contains_key(peer) <==> !disconnected
                &&& !disconnected ==> {
                    &&& after[peer] matches ConnectionEntry::Session(t)
                    &&& t.info == s.info
                    &&& t.disabled@.len() == s.disabled@.len() + 1
                    &&& t.disabled@.drop_last() == s.disabled@
                    &&& t.disabled@.last() == protocol
                }
            },
            _ => !disconnected && after == before,
        },
{
    match before[peer] {
        ConnectionEntry::Session(s) if before.contains_key(peer) => {
            assert forall|i: int| 0 <= i < s.info.capabilities@.len() implies listed(
                s.info.capabilities@,
                (#[trigger] s.info.capabilities@[i])@,
            ) by {
                law_listed(s.info.capabilities@, protocol, protocol@);
            }
            if !disconnected {
                assert(after[peer]->Session_0.disabled@.drop_last() =~= s.disabled@);
            }
        },
        _ => {},
    }
}

/// A peer is described as its session reported it, and as unknown if there is no session.
pub proof fn law_peer_text(connections: Map<usize, ConnectionEntry>, peer: PeerId)
    ensures
        match connections[peer] {
            ConnectionEntry::Session(s) if connections.contains_key(peer) => peer_text(
                connections,
                peer,
            ) == s.info.client_version@,
            _ => peer_text(connections, peer) == "unknown"@,
        },
{
}

/// The model of an action or event is of the same kind and has the same contents.
pub proof fn law_models(
    actions: Seq<Action>,
    protocol: ProtocolId,
    session: Option<StreamToken>,
    event: HandlerEvent,
    versions: Vec<u8>,
    packet: OutgoingPacket,
    token: StreamToken,
    id: NodeId,
    ms: u64,
    enode: &'static str,
)
    ensures
        views(actions).len() == actions.len(),
        forall|i: int| 0 <= i < actions.len() ==> #[trigger] views(actions)[i] == actions[i]@,
        (Action::Notify { protocol, session, event })@ == (ActionView::Notify {
            protocol,
            session,
            event: event@,
        }),
        (Action::Install { protocol, versions })@ == (ActionView::Install {
            protocol,
            versions: versions@,
        }),
        (Action::ReadHandshake { token })@ == (ActionView::ReadHandshake { token }),
        (Action::ReadSession { token })@ == (ActionView::ReadSession { token }),
        (Action::WriteHandshake { token })@ == (ActionView::WriteHandshake { token }),
        (Action::WriteSession { token })@ == (ActionView::WriteSession { token }),
        (Action::StartSession { token })@ == (ActionView::StartSession { token }),
        (Action::Reregister { token })@ == (ActionView::Reregister { token }),
        (Action::Forget { token })@ == (ActionView::Forget { token }),
        (Action::Send(packet))@ == (ActionView::Send {
            peer: packet.peer,
            protocol: packet.protocol,
            packet_id: packet.packet_id,
            data: packet.data@,
        }),
        (Action::ConnectPeer { id })@ == (ActionView::ConnectPeer { id }),
        (Action::ListenTcp { token })@ == (ActionView::ListenTcp { token }),
        (Action::ListenUdp { token })@ == (ActionView::ListenUdp { token }),
        (Action::SetTimer { timer: token, ms })@ == (ActionView::SetTimer { timer: token, ms }),
        (Action::AddNode { enode })@ == (ActionView::AddNode { enode: enode@ }),
        match event {
            HandlerEvent::Initialize => event@ is Initialize,
            HandlerEvent::Connected { peer } => event@ == (HandlerEventView::Connected { peer }),
            HandlerEvent::Disconnected { peer } => event@ == (HandlerEventView::Disconnected {
                peer,
            }),
            HandlerEvent::Read { peer, packet_id, data } => event@ == (HandlerEventView::Read {
                peer,
                packet_id,
                data: data@,
            }),
            HandlerEvent::Timeout { timer } => event@ == (HandlerEventView::Timeout { timer }),
            HandlerEvent::Message => event@ is Message,
        },
{
}

} // verus!
