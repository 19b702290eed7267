//! What holds of the actions that follow an event.

use crate::action::{
    ActionView, HandlerEventView, HandshakeOutcome, NetworkIoMessage, SessionData, UtilError,
};
use crate::connection::{ConnectionEntry, SessionEntry, SessionInfo};
use crate::context::packet_for;
use crate::host::{
    add_plan, advanced_result, handshake_plan, message_result, notice, read_result, start_plan,
    written_result, HostView, BOOT_NODE_BRAZIL, BOOT_NODE_CPP, BOOT_NODE_GAV,
    BOOT_NODE_GAV_DEFAULT, BOOT_NODE_IRELAND, BOOT_NODE_LOCAL,
};
use crate::laws::{carried_out, law_heard_once, law_tokens_apart};
use crate::protocols::listed;
use crate::seqs::lemma_filter_order;
use crate::tokens::{
    PacketId, PeerId, ProtocolId, StreamToken, TimerToken, FIRST_CONNECTION, IDLE,
    LAST_CONNECTION, MAINTENANCE_TIMEOUT, NODETABLE_DISCOVERY, NODETABLE_MAINTAIN,
    NODETABLE_RECEIVE, NODETABLE_TIMEOUT, TCP_ACCEPT,
};
use vstd::prelude::*;

verus! {

/// A plan calls handlers with one event and nothing to respond to: all those whose protocol is
/// among the capabilities of the session and was not disabled, each of them once, in the order in
/// which they were registered, and no others.
pub open spec fn tells(
    plan: Seq<ActionView>,
    handlers: Seq<ProtocolId>,
    session: SessionEntry,
    event: HandlerEventView,
) -> bool {
    &&& plan.no_duplicates()
    &&& forall|i: int|
        0 <= i < plan.len() ==> {
            &&& #[trigger] plan[i] matches ActionView::Notify { protocol, session: None, event: e }
            &&& e == event
            &&& handlers.contains(protocol)
        }
    &&& forall|h: int|
        0 <= h < handlers.len() ==> (plan.contains(
            ActionView::Notify { protocol: #[trigger] handlers[h], session: None, event },
        ) <==> listed(session.info.capabilities@, handlers[h]@) && !listed(
            session.disabled@,
            handlers[h]@,
        ))
    &&& forall|a: int, b: int|
        #![trigger plan[a], plan[b]]
        0 <= a < b < plan.len() ==> exists|i: int, j: int|
            0 <= i < j < handlers.len() && #[trigger] handlers[i] == plan[a]->Notify_protocol
                && #[trigger] handlers[j] == plan[b]->Notify_protocol
}

/// Who hears of a peer that came or went.
proof fn lemma_tells(host: HostView, session: SessionEntry, token: StreamToken, connected: bool)
    requires
        host.wf(),
    ensures
        tells(
            host.notices(session, token, connected),
            host.handlers,
            session,
            if connected {
                HandlerEventView::Connected { peer: token }
            } else {
                HandlerEventView::Disconnected { peer: token }
            },
        ),
{
    let pred = |p: ProtocolId| session.capable(p@);
    let told = host.handlers.filter(pred);
    let plan = host.notices(session, token, connected);
    law_heard_once(host, session, token, connected);
    assert forall|i: int| 0 <= i < plan.len() implies #[trigger] plan[i] == notice(
        told[i],
        token,
        connected,
    ) && host.handlers.contains(told[i]) by {
        assert(told.contains(told[i]));
        host.handlers.lemma_filter_contains_rev(pred, told[i]);
    }
    assert forall|h: int| 0 <= h < host.handlers.len() implies (plan.contains(
        notice(#[trigger] host.handlers[h], token, connected),
    ) <==> session.capable(host.handlers[h]@)) by {
        assert(host.handlers.contains(host.handlers[h]));
    }
    assert forall|a: int, b: int|
        #![trigger plan[a], plan[b]]
        0 <= a < b < plan.len() implies exists|i: int, j: int|
        0 <= i < j < host.handlers.len() && #[trigger] host.handlers[i]
            == plan[a]->Notify_protocol && #[trigger] host.handlers[j]
            == plan[b]->Notify_protocol by {
        lemma_filter_order(host.handlers, pred, a, b);
    }
}

/// However a connection ends, be it by a timeout, an end of stream, or a failure to read or write,
/// its last action is the removal. If there was a session that is ready, the handlers of its
/// capabilities hear of it first. If there was none, or a handshake, or a session that is not
/// ready, the removal is all there is.
pub proof fn law_connection_ends(
    host: HostView,
    token: StreamToken,
    error: UtilError,
    plan: Seq<ActionView>,
)
    requires
        host.wf(),
        FIRST_CONNECTION <= token <= LAST_CONNECTION,
        plan == host.timeout_plan(token) || plan == host.hup_plan(token) || plan
            == host.kill_plan(token) || plan == host.read_plan(token, Err(error)) || plan
            == host.write_plan(token, Err(error)),
    ensures
        plan.len() > 0,
        plan.last() == (ActionView::Forget { token }),
        !carried_out(host, plan, token).connections.contains_key(token),
        match host.connections[token] {
            ConnectionEntry::Session(s) if host.connections.contains_key(token) && s.info.ready => {
                tells(
                    plan.drop_last(),
                    host.handlers,
                    s,
                    HandlerEventView::Disconnected { peer: token },
                )
            },
            _ => plan == seq![ActionView::Forget { token }],
        },
{
    assert(plan[plan.len() - 1] == ActionView::Forget { token });
    assert(plan.contains(ActionView::Forget { token }));
    match host.connections[token] {
        ConnectionEntry::Session(s) if host.connections.contains_key(token) && s.info.ready => {
            lemma_tells(host, s, token, false);
            assert(plan.drop_last() =~= host.notices(s, token, false));
        },
        _ => {
            assert(plan =~= seq![ActionView::Forget { token }]);
        },
    }
}

/// An end of stream on a socket that is no connection means nothing.
pub proof fn law_other_streams_end(host: HostView, token: StreamToken)
    requires
        token < FIRST_CONNECTION || LAST_CONNECTION < token,
    ensures
        host.hup_plan(token).len() == 0,
{
}

/// When a session became ready, the handlers of its capabilities hear that the peer is there, and
/// the session goes on.
pub proof fn law_peer_came(host: HostView, token: StreamToken, session: SessionEntry)
    requires
        host.wf(),
        host.connections.contains_key(token),
        host.connections[token] == ConnectionEntry::Session(session),
    ensures
        ({
            let plan = host.read_plan(token, Ok(SessionData::Ready));
            &&& plan.len() > 0
            &&& plan.last() == ActionView::Reregister { token }
            &&& tells(
                plan.drop_last(),
                host.handlers,
                session,
                HandlerEventView::Connected { peer: token },
            )
        }),
{
    let plan = host.read_plan(token, Ok(SessionData::Ready));
    lemma_tells(host, session, token, true);
    assert(plan.drop_last() =~= host.notices(session, token, true));
}

/// A packet of a protocol that has a handler and is not disabled goes to that handler, under the
/// packet id that the session reported, whatever the data holds. What the handler gets is the data
/// without its first byte. It can respond to the peer, and the session goes on.
pub proof fn law_packet_delivered(
    host: HostView,
    token: StreamToken,
    session: SessionEntry,
    data: Vec<u8>,
    protocol: ProtocolId,
    packet_id: PacketId,
)
    requires
        host.connections.contains_key(token),
        host.connections[token] == ConnectionEntry::Session(session),
        listed(host.handlers, protocol@),
        !listed(session.disabled@, protocol@),
        data@.len() > 0,
    ensures
        ({
            let result = Ok(SessionData::Packet { data, protocol, packet_id });
            let plan = host.read_plan(token, result);
            &&& plan.len() == 2
            &&& plan[0] matches ActionView::Notify { protocol: p, session: context, event }
            &&& p == protocol
            &&& context == Some(token)
            &&& event matches HandlerEventView::Read { peer, packet_id: id, data: payload }
            &&& peer == token
            &&& id == packet_id
            &&& seq![data@[0]] + payload == data@
            &&& plan[1] == ActionView::Reregister { token }
        }),
{
    assert(seq![data@[0]] + data@.skip(1) =~= data@);
}

/// A packet of a protocol without a handler, or of one that is disabled for the peer, is dropped.
/// The session goes on.
pub proof fn law_packet_dropped(
    host: HostView,
    token: StreamToken,
    session: SessionEntry,
    data: Vec<u8>,
    protocol: ProtocolId,
    packet_id: PacketId,
)
    requires
        host.connections.contains_key(token),
        host.connections[token] == ConnectionEntry::Session(session),
        !listed(host.handlers, protocol@) || listed(session.disabled@, protocol@),
    ensures
        host.read_plan(token, Ok(SessionData::Packet { data, protocol, packet_id })) == seq![
            ActionView::Reregister { token },
        ],
{
}

/// If a session got nothing out of what it read, or was written to, it goes on, and no handler is
/// called.
pub proof fn law_session_goes_on(host: HostView, token: StreamToken)
    ensures
        host.read_plan(token, Ok(SessionData::Nothing)) == seq![ActionView::Reregister { token }],
        host.write_plan(token, Ok(())) == seq![ActionView::Reregister { token }],
{
}

/// The host acts upon what a session reports now, not upon what it reported before. If reading or
/// writing failed, the handlers of the capabilities that the session has now hear that the peer is
/// gone, provided that it is ready now. If reading made it ready, they hear that the peer is
/// there. What was disabled counts as before, and the report is remembered.
pub proof fn law_report_counts(
    host: HostView,
    token: StreamToken,
    session: SessionEntry,
    info: SessionInfo,
    read: Result<SessionData, UtilError>,
    plan: Seq<ActionView>,
    after: HostView,
)
    requires
        host.wf(),
        host.connections.contains_key(token),
        host.connections[token] == ConnectionEntry::Session(session),
        read_result(host, token, info, read, plan, after) || (read is Err && written_result(
            host,
            token,
            info,
            Err(read->Err_0),
            plan,
            after,
        )),
    ensures
        after.connections.contains_key(token),
        after.connections[token] == ConnectionEntry::Session(
            SessionEntry { info, disabled: session.disabled },
        ),
        after.handlers == host.handlers,
        read is Err && !info.ready ==> plan == seq![ActionView::Forget { token }],
        read is Err && info.ready ==> {
            &&& plan.len() > 0
            &&& plan.last() == ActionView::Forget { token }
            &&& tells(
                plan.drop_last(),
                host.handlers,
                SessionEntry { info, disabled: session.disabled },
                HandlerEventView::Disconnected { peer: token },
            )
        },
        read matches Ok(SessionData::Ready) ==> {
            &&& plan.len() > 0
            &&& plan.last() == ActionView::Reregister { token }
            &&& tells(
                plan.drop_last(),
                host.handlers,
                SessionEntry { info, disabled: session.disabled },
                HandlerEventView::Connected { peer: token },
            )
        },
{
    let now = SessionEntry { info, disabled: session.disabled };
    assert(after.wf());
    match read {
        Err(error) => {
            law_tokens_apart(after, token);
            law_connection_ends(after, token, error, plan);
        },
        Ok(SessionData::Ready) => {
            law_peer_came(after, token, now);
        },
        _ => {},
    }
}

/// A packet that was read is dealt with as it came, whatever the session reports along with it.
pub proof fn law_report_changes_no_packet(
    host: HostView,
    token: StreamToken,
    session: SessionEntry,
    info: SessionInfo,
    data: Vec<u8>,
    protocol: ProtocolId,
    packet_id: PacketId,
    plan: Seq<ActionView>,
    after: HostView,
)
    requires
        host.connections.contains_key(token),
        host.connections[token] == ConnectionEntry::Session(session),
        read_result(
            host,
            token,
            info,
            Ok(SessionData::Packet { data, protocol, packet_id }),
            plan,
            after,
        ),
    ensures
        plan == host.read_plan(token, Ok(SessionData::Packet { data, protocol, packet_id })),
{
}

/// What a handshake reports is remembered before anything follows from its outcome.
pub proof fn law_handshake_report(
    host: HostView,
    token: StreamToken,
    outcome: HandshakeOutcome,
    plan: Seq<ActionView>,
    after: HostView,
)
    requires
        host.wf(),
        host.connections.contains_key(token),
        advanced_result(host, token, outcome, plan, after),
    ensures
        after.connections.contains_key(token),
        after.connections[token] == ConnectionEntry::Handshake(outcome.info),
        outcome.result is Err <==> plan == seq![ActionView::Forget { token }],
        outcome.result is Ok && outcome.done <==> plan == seq![
            ActionView::StartSession { token },
        ],
        outcome.result is Ok && !outcome.done <==> plan.len() == 0,
{
    let forget = seq![ActionView::Forget { token }];
    let start = seq![ActionView::StartSession { token }];
    assert(forget[0] != start[0]);
}

/// A round of maintenance connects to each of the chosen nodes in turn, and always ends by starting
/// the timer for the next round, even if there is nobody to connect to.
pub proof fn law_maintenance(host: HostView, plan: Seq<ActionView>)
    requires
        plan == host.maintenance_plan() || plan == host.timeout_plan(IDLE),
    ensures
        plan.len() == host.peers_to_connect().len() + 1,
        forall|i: int|
            0 <= i < host.peers_to_connect().len() ==> #[trigger] plan[i]
                == (ActionView::ConnectPeer { id: host.peers_to_connect()[i] }),
        plan.last() == (ActionView::SetTimer { timer: IDLE, ms: MAINTENANCE_TIMEOUT }),
        forall|i: int|
            0 <= i < plan.len() ==> ((#[trigger] plan[i]) is SetTimer <==> i == plan.len() - 1),
{
}

/// The timers of the node table do nothing yet.
pub proof fn law_node_table_timers(host: HostView)
    ensures
        host.timeout_plan(NODETABLE_MAINTAIN).len() == 0,
        host.timeout_plan(NODETABLE_DISCOVERY).len() == 0,
{
}

/// A timer that a handler registered, and that is neither one of the host nor one of a connection,
/// calls the handler of its protocol, if it is registered, and does nothing else. Other timers have
/// no part in this.
pub proof fn law_handler_timer(
    host: HostView,
    token: TimerToken,
    other: TimerToken,
    protocol: ProtocolId,
)
    requires
        host.timers.contains_key(token),
        token < FIRST_CONNECTION || LAST_CONNECTION < token,
        token != IDLE,
        token != NODETABLE_MAINTAIN,
        token != NODETABLE_DISCOVERY,
        other != token,
    ensures
        host.timeout_plan(token).len() <= 1,
        host.timeout_plan(token).len() == 1 <==> listed(host.handlers, host.timers[token]@),
        host.timeout_plan(token).len() == 1 ==> {
            &&& host.timeout_plan(token)[0] matches ActionView::Notify {
                protocol: p,
                session: None,
                event,
            }
            &&& p == host.timers[token]
            &&& event == HandlerEventView::Timeout { timer: token }
        },
        host.with_timer(other, protocol).timeout_plan(token) == host.timeout_plan(token),
{
}

/// What follows when a handshake was read from or written to is one action at most: the removal
/// if that failed, the start of a session if it is complete. No handler hears of it.
pub proof fn law_handshake_advances(token: StreamToken, outcome: HandshakeOutcome)
    ensures
        handshake_plan(token, outcome).len() <= 1,
        handshake_plan(token, outcome).contains(ActionView::Forget { token })
            <==> outcome.result is Err,
        handshake_plan(token, outcome).contains(ActionView::StartSession { token })
            <==> outcome.result is Ok && outcome.done,
        handshake_plan(token, outcome).len() == 0 <==> outcome.result is Ok && !outcome.done,
{
    let plan = handshake_plan(token, outcome);
    if outcome.result is Err {
        assert(plan[0] == ActionView::Forget { token });
    } else if outcome.done {
        assert(plan[0] == ActionView::StartSession { token });
    }
}

/// A connection that has data is read from, and one that has room is written to, as what it is: a
/// handshake or a session. Nothing is done for a token without a connection.
pub proof fn law_connection_served(host: HostView, token: StreamToken)
    ensures
        host.connections.contains_key(token) ==> {
            &&& host.readable_plan(token).len() == 1
            &&& host.writable_plan(token).len() == 1
            &&& match host.connections[token] {
                ConnectionEntry::Handshake(_) => {
                    &&& host.readable_plan(token)[0] == ActionView::ReadHandshake { token }
                    &&& host.writable_plan(token)[0] == ActionView::WriteHandshake { token }
                },
                ConnectionEntry::Session(_) => {
                    &&& host.readable_plan(token)[0] == ActionView::ReadSession { token }
                    &&& host.writable_plan(token)[0] == ActionView::WriteSession { token }
                },
            }
        },
        !host.connections.contains_key(token) ==> {
            &&& host.readable_plan(token).len() == 0
            &&& host.writable_plan(token).len() == 0
        },
{
}

/// A packet goes out unchanged, to the peer and in the protocol that was asked for, exactly if
/// there is a session with the peer in which the protocol is not disabled. It makes no difference
/// whether it is sent by a message or from within a handler.
pub proof fn law_packet_sent(
    host: HostView,
    peer: PeerId,
    protocol: ProtocolId,
    packet_id: PacketId,
    data: Vec<u8>,
)
    ensures
        ({
            let open = match host.connections[peer] {
                ConnectionEntry::Session(s) => host.connections.contains_key(peer) && !listed(
                    s.disabled@,
                    protocol@,
                ),
                ConnectionEntry::Handshake(_) => false,
            };
            let plan = host.send_plan(peer, protocol, packet_id, data@);
            let packet = packet_for(host.connections, peer, protocol, packet_id, data);
            &&& plan.len() == (if open {
                1int
            } else {
                0
            })
            &&& packet is Some <==> open
            &&& open ==> plan[0] == (ActionView::Send { peer, protocol, packet_id, data: data@ })
            &&& packet matches Some(p) ==> {
                &&& p.peer == peer
                &&& p.protocol == protocol
                &&& p.packet_id == packet_id
                &&& p.data == data
            }
        }),
{
}

/// A user message goes to every handler, once each, in the order in which they were registered.
pub proof fn law_user_message(host: HostView)
    ensures
        host.user_plan().len() == host.handlers.len(),
        forall|i: int|
            0 <= i < host.handlers.len() ==> {
                &&& #[trigger] host.user_plan()[i] matches ActionView::Notify {
                    protocol,
                    session: None,
                    event: HandlerEventView::Message,
                }
                &&& protocol == host.handlers[i]
            },
{
}

/// A handler is initialized first and then registered, for all of its versions.
pub proof fn law_handler_announced(protocol: ProtocolId, versions: Seq<u8>)
    ensures
        add_plan(protocol, versions).len() == 2,
        add_plan(protocol, versions)[0] matches ActionView::Notify {
            protocol: p,
            session: None,
            event: HandlerEventView::Initialize,
        } && p == protocol,
        add_plan(protocol, versions)[1] matches ActionView::Install { protocol: p, versions: v }
            && p == protocol && v == versions,
{
}

/// A handler is taken out of the message that brings it, and out of no other: the message is the
/// same afterwards, but for the handler. A handler that is brought is initialized, a packet is
/// sent if it can be, and a user message calls every handler.
pub proof fn law_message<Message, Handler>(
    host: HostView,
    before: NetworkIoMessage<Message, Handler>,
    taken: Option<Handler>,
    plan: Seq<ActionView>,
    after: NetworkIoMessage<Message, Handler>,
) where Message: Send
    requires
        message_result(host, before, taken, plan, after),
    ensures
        match before {
            NetworkIoMessage::AddHandler { handler, protocol, versions } => {
                &&& taken == handler
                &&& after matches NetworkIoMessage::AddHandler {
                    handler: left,
                    protocol: p,
                    versions: v,
                }
                &&& left is None
                &&& p == protocol
                &&& v == versions
                &&& plan.len() == 2
                &&& plan[0] is Notify
                &&& plan[1] == ActionView::Install { protocol, versions: versions@ }
            },
            NetworkIoMessage::Send { peer, packet_id, protocol, data } => {
                &&& taken is None
                &&& after == before
                &&& plan.len() <= 1
                &&& plan.len() == 1 <==> packet_for(
                    host.connections,
                    peer,
                    protocol,
                    packet_id,
                    data,
                ) is Some
                &&& plan.len() == 1 ==> plan[0] == (ActionView::Send {
                    peer,
                    protocol,
                    packet_id,
                    data: data@,
                })
            },
            NetworkIoMessage::User(_) => {
                &&& taken is None
                &&& after == before
                &&& plan.len() == host.handlers.len()
                &&& forall|i: int|
                    0 <= i < plan.len() ==> #[trigger] plan[i] == (ActionView::Notify {
                        protocol: host.handlers[i],
                        session: None,
                        event: HandlerEventView::Message,
                    })
            },
        },
{
}

/// The host listens, starts the timers that keep it going, and adds the nodes that it knows from
/// the start, which is all. The nodes come last.
pub proof fn law_start()
    ensures
        start_plan().len() == 10,
        start_plan().contains(ActionView::ListenTcp { token: TCP_ACCEPT }),
        start_plan().contains(ActionView::ListenUdp { token: NODETABLE_RECEIVE }),
        start_plan().contains(ActionView::SetTimer { timer: IDLE, ms: MAINTENANCE_TIMEOUT }),
        start_plan().contains(
            ActionView::SetTimer { timer: NODETABLE_MAINTAIN, ms: NODETABLE_TIMEOUT },
        ),
        start_plan().contains(ActionView::AddNode { enode: BOOT_NODE_LOCAL@ }),
        start_plan().contains(ActionView::AddNode { enode: BOOT_NODE_GAV@ }),
        start_plan().contains(ActionView::AddNode { enode: BOOT_NODE_GAV_DEFAULT@ }),
        start_plan().contains(ActionView::AddNode { enode: BOOT_NODE_IRELAND@ }),
        start_plan().contains(ActionView::AddNode { enode: BOOT_NODE_BRAZIL@ }),
        start_plan().contains(ActionView::AddNode { enode: BOOT_NODE_CPP@ }),
        forall|i: int, j: int|
            0 <= i < start_plan().len() && 0 <= j < start_plan().len() && (
            #[trigger] start_plan()[i]) is AddNode && !((#[trigger] start_plan()[j]) is AddNode)
                ==> j < i,
{
    let plan = start_plan();
    assert(plan[0] == ActionView::ListenTcp { token: TCP_ACCEPT });
    assert(plan[1] == ActionView::SetTimer { timer: IDLE, ms: MAINTENANCE_TIMEOUT });
    assert(plan[2] == ActionView::ListenUdp { token: NODETABLE_RECEIVE });
    assert(plan[3] == ActionView::SetTimer { timer: NODETABLE_MAINTAIN, ms: NODETABLE_TIMEOUT });
    assert(plan[4] == ActionView::AddNode { enode: BOOT_NODE_LOCAL@ });
    assert(plan[5] == ActionView::AddNode { enode: BOOT_NODE_GAV@ });
    assert(plan[6] == ActionView::AddNode { enode: BOOT_NODE_GAV_DEFAULT@ });
    assert(plan[7] == ActionView::AddNode { enode: BOOT_NODE_IRELAND@ });
    assert(plan[8] == ActionView::AddNode { enode: BOOT_NODE_BRAZIL@ });
    assert(plan[9] == ActionView::AddNode { enode: BOOT_NODE_CPP@ });
}

} // verus!
