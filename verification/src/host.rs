//! The host: connections, protocol handlers, timers and nodes.

use crate::action::{
    lemma_views_push, views, Action, ActionView, ConnectDecision, HandlerEvent, HandlerEventView,
    HandshakeOutcome, NetworkIoMessage, NewHandshake, OutgoingPacket, SessionData, UtilError,
};
use crate::connection::{
    handshake_with, session_with, slots_valid, ConnectionEntry, ConnectionTable, HandshakeInfo,
    SessionEntry, SessionInfo,
};
use crate::context::{can_reach, reachable, NetworkContext};
use crate::hash::{keccak256, KeyPair, NodeId, H256};
use crate::info::{
    capabilities_of, default_configuration, initial_info, HostInfo, HostInfoView,
    NetworkConfiguration,
};
use crate::laws::law_countable;
use crate::node::{
    find_node, ids_distinct, node_known, with_attempt, with_node, Node, PeerType,
};
use crate::protocols::{all_distinct, is_listed, listed};
use crate::seqs::{first, lemma_filter_next, lemma_filter_part, lemma_first_next};
use crate::tokens::{
    connection_token, is_connection_token, service_timer, PacketId, PeerId, ProtocolId,
    StreamToken, TimerToken, FIRST_CONNECTION, IDEAL_PEERS, IDLE, MAINTENANCE_TIMEOUT,
    MAX_CONNECTIONS, NODETABLE_DISCOVERY, NODETABLE_MAINTAIN, NODETABLE_RECEIVE,
    NODETABLE_TIMEOUT, TCP_ACCEPT,
};
use std::collections::HashMap;
use vstd::prelude::*;

verus! {

/// A node that the host knows from the start.
pub const BOOT_NODE_LOCAL: &'static str = "enode://c022e7a27affdd1632f2e67dffeb87f02bf506344bb142e08d12b28e7e5c6e5dbb8183a46a77bff3631b51c12e8cf15199f797feafdc8834aaf078ad1a2bcfa0@127.0.0.1:30303";

/// A node that the host knows from the start.
pub const BOOT_NODE_GAV: &'static str = "enode://5374c1bff8df923d3706357eeb4983cd29a63be40a269aaa2296ee5f3b2119a8978c0ed68b8f6fc84aad0df18790417daadf91a4bfbb786a16c9b0a199fa254a@gav.ethdev.com:30300";

/// A node that the host knows from the start.
pub const BOOT_NODE_GAV_DEFAULT: &'static str = "enode://e58d5e26b3b630496ec640f2530f3e7fa8a8c7dfe79d9e9c4aac80e3730132b869c852d3125204ab35bb1b1951f6f2d40996c1034fd8c5a69b383ee337f02ddc@gav.ethdev.com:30303";

/// A node that the host knows from the start.
pub const BOOT_NODE_IRELAND: &'static str = "enode://a979fb575495b8d6db44f750317d0f4622bf4c2aa3365d6af7c284339968eef29b69ad0dce72a4d8db5ebb4968de0e3bec910127f134779fbcb0cb6d3331163c@52.16.188.185:30303";

/// A node that the host knows from the start.
pub const BOOT_NODE_BRAZIL: &'static str = "enode://7f25d3eab333a6b98a8b5ed68d962bb22c876ffcd5561fca54e3c2ef27f754df6f7fd7c9b74cc919067abac154fb8e1f8385505954f161ae440abc355855e034@54.207.93.166:30303";

/// A node that the host knows from the start.
pub const BOOT_NODE_CPP: &'static str = "enode://5374c1bff8df923d3706357eeb4983cd29a63be40a269aaa2296ee5f3b2119a8978c0ed68b8f6fc84aad0df18790417daadf91a4bfbb786a16c9b0a199fa254a@92.51.165.126:30303";

/// Root IO handler. Manages protocol handlers, IO timers and network connections.
pub struct Host {
    info: HostInfo,
    connections: ConnectionTable,
    timers: HashMap<TimerToken, ProtocolId>,
    nodes: Vec<Node>,
    handlers: Vec<ProtocolId>,
}

/// The mathematical model of the host.
pub struct HostView {
    pub info: HostInfoView,
    /// The connections by token.
    pub connections: Map<usize, ConnectionEntry>,
    /// The tokens without a connection, in the order in which connections will get them.
    pub free: Seq<usize>,
    /// The protocols whose handlers registered timers.
    pub timers: Map<TimerToken, ProtocolId>,
    /// The nodes in the order in which they were added.
    pub nodes: Seq<Node>,
    /// The protocols that have a handler, in the order in which they were registered.
    pub handlers: Seq<ProtocolId>,
}

impl View for Host {
    type V = HostView;

    closed spec fn view(&self) -> HostView {
        HostView {
            info: self.info@,
            connections: self.connections@,
            free: self.connections.free(),
            timers: self.timers@,
            nodes: self.nodes@,
            handlers: self.handlers@,
        }
    }
}

/// How a handler hears of a peer that came or went. There is no packet to respond to.
pub open spec fn notice(protocol: ProtocolId, token: StreamToken, connected: bool) -> ActionView {
    ActionView::Notify {
        protocol,
        session: None,
        event: if connected {
            HandlerEventView::Connected { peer: token }
        } else {
            HandlerEventView::Disconnected { peer: token }
        },
    }
}

impl HostView {
    /// The host is valid: each connection token has one slot, and neither a node nor a handler
    /// is registered twice.
    pub open spec fn wf(self) -> bool {
        &&& slots_valid(self.connections, self.free)
        &&& ids_distinct(self.nodes)
        &&& all_distinct(self.handlers)
    }

    /// There is a session with the token.
    pub open spec fn in_session(self, token: StreamToken) -> bool {
        self.connections.contains_key(token) && self.connections[token] is Session
    }

    /// There is a handshake with the token.
    pub open spec fn in_handshake(self, token: StreamToken) -> bool {
        self.connections.contains_key(token) && self.connections[token] is Handshake
    }

    /// The handlers whose protocol the peer can be talked to in hear of the peer.
    pub open spec fn notices(
        self,
        session: SessionEntry,
        token: StreamToken,
        connected: bool,
    ) -> Seq<ActionView> {
        self.handlers.filter(|p: ProtocolId| session.capable(p@)).map_values(
            |p: ProtocolId| notice(p, token, connected),
        )
    }

    /// What ends a connection: if it has a session that is ready, its handlers hear of it. Then it
    /// is removed.
    pub open spec fn kill_plan(self, token: StreamToken) -> Seq<ActionView> {
        let heard = if self.connections.contains_key(token) {
            match self.connections[token] {
                ConnectionEntry::Session(s) if s.info.ready => self.notices(s, token, false),
                _ => Seq::empty(),
            }
        } else {
            Seq::empty()
        };
        heard.push(ActionView::Forget { token })
    }

    /// What an end of stream means: the end of the connection, if the socket is that of one.
    pub open spec fn hup_plan(self, stream: StreamToken) -> Seq<ActionView> {
        if connection_token(stream) {
            self.kill_plan(stream)
        } else {
            Seq::empty()
        }
    }

    /// How a connection with data is read from.
    pub open spec fn readable_plan(self, token: StreamToken) -> Seq<ActionView> {
        if self.in_handshake(token) {
            seq![ActionView::ReadHandshake { token }]
        } else if self.in_session(token) {
            seq![ActionView::ReadSession { token }]
        } else {
            Seq::empty()
        }
    }

    /// How a connection with room is written to.
    pub open spec fn writable_plan(self, token: StreamToken) -> Seq<ActionView> {
        if self.in_handshake(token) {
            seq![ActionView::WriteHandshake { token }]
        } else if self.in_session(token) {
            seq![ActionView::WriteSession { token }]
        } else {
            Seq::empty()
        }
    }

    /// What follows from the wish to send a packet.
    pub open spec fn send_plan(
        self,
        peer: PeerId,
        protocol: ProtocolId,
        packet_id: PacketId,
        data: Seq<u8>,
    ) -> Seq<ActionView> {
        if reachable(self.connections, peer, protocol@) {
            seq![ActionView::Send { peer, protocol, packet_id, data }]
        } else {
            Seq::empty()
        }
    }

    /// What follows from a user message.
    pub open spec fn user_plan(self) -> Seq<ActionView> {
        self.handlers.map_values(
            |protocol: ProtocolId|
                ActionView::Notify { protocol, session: None, event: HandlerEventView::Message },
        )
    }

    /// The host once it has started.
    pub open spec fn initialized(self) -> HostView {
        HostView {
            info: HostInfoView {
                listen_port: self.info.config.listen_address.port,
                ..self.info
            },
            ..self
        }
    }

    /// The host with new information on a handshake.
    pub open spec fn with_handshake_info(
        self,
        token: StreamToken,
        info: HandshakeInfo,
    ) -> HostView {
        HostView {
            connections: self.connections.insert(token, ConnectionEntry::Handshake(info)),
            ..self
        }
    }

    /// The host with new information on a session.
    pub open spec fn with_session_info(self, token: StreamToken, info: SessionInfo) -> HostView {
        HostView {
            connections: self.connections.insert(
                token,
                ConnectionEntry::Session(
                    SessionEntry { info, ..self.connections[token]->Session_0 },
                ),
            ),
            ..self
        }
    }

    /// The host without a connection. Its token is the next to be used.
    pub open spec fn without_connection(self, token: StreamToken) -> HostView {
        HostView {
            connections: self.connections.remove(token),
            free: seq![token] + self.free,
            ..self
        }
    }

    /// The host with a handshake for a node that was dialed, if there is room. In either case the
    /// nonce is used up.
    pub open spec fn with_handshake(self, id: NodeId) -> HostView {
        let info = HostInfoView { nonce: keccak256(self.info.nonce), ..self.info };
        if self.free.len() > 0 {
            HostView {
                info,
                connections: self.connections.insert(
                    self.free[0],
                    ConnectionEntry::Handshake(HandshakeInfo { id }),
                ),
                free: self.free.drop_first(),
                ..self
            }
        } else {
            HostView { info, ..self }
        }
    }

    /// The host with a node, unless the text that should have named it could not be made out.
    pub open spec fn with_parsed(self, parsed: Result<Node, UtilError>) -> HostView {
        match parsed {
            Ok(node) => HostView { nodes: with_node(self.nodes, node), ..self },
            Err(_) => self,
        }
    }

    /// The host with a timer that the handler of a protocol registered.
    pub open spec fn with_timer(self, token: TimerToken, protocol: ProtocolId) -> HostView {
        HostView { timers: self.timers.insert(token, protocol), ..self }
    }

    /// What follows when a session was read from.
    pub open spec fn read_plan(
        self,
        token: StreamToken,
        result: Result<SessionData, UtilError>,
    ) -> Seq<ActionView> {
        match result {
            Err(_) => self.kill_plan(token),
            Ok(SessionData::Nothing) => seq![ActionView::Reregister { token }],
            Ok(SessionData::Ready) => self.notices(
                self.connections[token]->Session_0,
                token,
                true,
            ).push(ActionView::Reregister { token }),
            Ok(SessionData::Packet { data, protocol, packet_id }) => if self.delivers(
                token,
                protocol@,
            ) {
                seq![
                    ActionView::Notify {
                        protocol,
                        session: Some(token),
                        event: HandlerEventView::Read {
                            peer: token,
                            packet_id,
                            data: data@.skip(1),
                        },
                    },
                    ActionView::Reregister { token },
                ]
            } else {
                seq![ActionView::Reregister { token }]
            },
        }
    }

    /// What follows when a session was written to.
    pub open spec fn write_plan(
        self,
        token: StreamToken,
        result: Result<(), UtilError>,
    ) -> Seq<ActionView> {
        if result is Err {
            self.kill_plan(token)
        } else {
            seq![ActionView::Reregister { token }]
        }
    }

    /// The host with a handler for some versions of a protocol.
    pub open spec fn with_protocol(self, protocol: ProtocolId, versions: Seq<u8>) -> HostView {
        HostView {
            handlers: with_handler(self.handlers, protocol),
            info: HostInfoView {
                capabilities: self.info.capabilities + capabilities_of(protocol, versions),
                ..self.info
            },
            ..self
        }
    }

    /// Packets of the protocol that the peer sends go to a handler.
    pub open spec fn delivers(self, token: StreamToken, protocol: Seq<char>) -> bool {
        listed(self.handlers, protocol) && reachable(self.connections, token, protocol)
    }

    /// The host is connected, or about to be, to the node.
    pub open spec fn linked(self, id: NodeId) -> bool {
        session_with(self.connections, id) || handshake_with(self.connections, id)
    }

    /// The required nodes that the host is linked to.
    pub open spec fn linked_required(self) -> Seq<Node> {
        self.nodes.filter(|n: Node| self.linked(n.id) && n.peer_type == PeerType::Required)
    }

    /// The nodes that the host would connect to: those it is not linked to, but only the required
    /// ones if it is pinned.
    pub open spec fn wanted(self) -> Seq<Node> {
        self.nodes.filter(
            |n: Node|
                !self.linked(n.id) && (!self.info.config.pin || n.peer_type == PeerType::Required),
        )
    }

    /// Those of the wanted nodes that are required.
    pub open spec fn wanted_required(self) -> Seq<Node> {
        self.wanted().filter(|n: Node| n.peer_type == PeerType::Required)
    }

    /// Those of the wanted nodes that are optional.
    pub open spec fn wanted_optional(self) -> Seq<Node> {
        self.wanted().filter(|n: Node| n.peer_type == PeerType::Optional)
    }

    /// How many optional nodes the host connects to, at most.
    pub open spec fn open_slots(self) -> int {
        IDEAL_PEERS + self.linked_required().len() + self.wanted_required().len()
    }

    /// The nodes can be counted in 32 bits.
    pub open spec fn countable(self) -> bool {
        if self.info.config.pin {
            self.linked_required().len() + self.wanted_required().len() <= u32::MAX
        } else {
            self.open_slots() <= u32::MAX
        }
    }

    /// The nodes to connect to now: required ones until there are enough links to required nodes,
    /// then optional ones while there are open slots.
    pub open spec fn peers_to_connect(self) -> Seq<NodeId> {
        let required = first(
            self.wanted_required(),
            IDEAL_PEERS - self.linked_required().len(),
        );
        let optional = if self.info.config.pin {
            Seq::empty()
        } else {
            first(self.wanted_optional(), self.open_slots())
        };
        (required + optional).map_values(|n: Node| n.id)
    }

    /// What a round of network maintenance consists of.
    pub open spec fn maintenance_plan(self) -> Seq<ActionView> {
        self.peers_to_connect().map_values(|id: NodeId| ActionView::ConnectPeer { id }).push(
            ActionView::SetTimer { timer: IDLE, ms: MAINTENANCE_TIMEOUT },
        )
    }

    /// What follows when a timer ran out.
    pub open spec fn timeout_plan(self, token: TimerToken) -> Seq<ActionView> {
        if token == IDLE {
            self.maintenance_plan()
        } else if connection_token(token) {
            self.kill_plan(token)
        } else if service_timer(token) {
            Seq::empty()
        } else if listed(self.handlers, self.timers[token]@) {
            seq![
                ActionView::Notify {
                    protocol: self.timers[token],
                    session: None,
                    event: HandlerEventView::Timeout { timer: token },
                },
            ]
        } else {
            Seq::empty()
        }
    }
}

/// A host that was just created.
pub open spec fn initial_host(keys: KeyPair, nonce: Seq<u8>) -> HostView {
    HostView {
        info: initial_info(keys, default_configuration(), nonce),
        connections: Map::empty(),
        free: Seq::new(MAX_CONNECTIONS as nat, |i: int| (FIRST_CONNECTION + i) as usize),
        timers: Map::empty(),
        nodes: Seq::empty(),
        handlers: Seq::empty(),
    }
}

/// What follows when a handshake was read from or written to.
pub open spec fn handshake_plan(token: StreamToken, outcome: HandshakeOutcome) -> Seq<ActionView> {
    if outcome.result is Err {
        seq![ActionView::Forget { token }]
    } else if outcome.done {
        seq![ActionView::StartSession { token }]
    } else {
        Seq::empty()
    }
}

/// What comes of reading from a session: the host remembers what the session reports of itself, and
/// acts upon it.
pub open spec fn read_result(
    before: HostView,
    token: StreamToken,
    info: SessionInfo,
    result: Result<SessionData, UtilError>,
    plan: Seq<ActionView>,
    after: HostView,
) -> bool {
    &&& after == before.with_session_info(token, info)
    &&& plan == after.read_plan(token, result)
}

/// What comes of writing to a session: the host remembers what the session reports of itself, and
/// acts upon it.
pub open spec fn written_result(
    before: HostView,
    token: StreamToken,
    info: SessionInfo,
    result: Result<(), UtilError>,
    plan: Seq<ActionView>,
    after: HostView,
) -> bool {
    &&& after == before.with_session_info(token, info)
    &&& plan == after.write_plan(token, result)
}

/// What comes of reading or writing in a handshake.
pub open spec fn advanced_result(
    before: HostView,
    token: StreamToken,
    outcome: HandshakeOutcome,
    plan: Seq<ActionView>,
    after: HostView,
) -> bool {
    &&& after == before.with_handshake_info(token, outcome.info)
    &&& plan == handshake_plan(token, outcome)
}

/// What comes of a complete handshake: a session under the same token, which goes on, or, if it
/// could not be created, nothing.
pub open spec fn start_result(
    before: HostView,
    token: StreamToken,
    session: Result<SessionInfo, UtilError>,
    plan: Seq<ActionView>,
    after: HostView,
) -> bool {
    match session {
        Ok(info) => {
            &&& after == (HostView {
                connections: before.connections.insert(token, after.connections[token]),
                ..before
            })
            &&& after.connections[token] matches ConnectionEntry::Session(s)
            &&& s.info == info
            &&& s.disabled@.len() == 0
            &&& plan == seq![ActionView::Reregister { token }]
        },
        Err(_) => {
            &&& after == before.without_connection(token)
            &&& plan == Seq::<ActionView>::empty()
        },
    }
}

/// The handshake that has to be created once a node was dialed, if there is room: in the next free
/// slot, and with the nonce that the host has afterwards.
pub open spec fn handshake_made(
    before: HostView,
    id: NodeId,
    handshake: Option<NewHandshake>,
    after: HostView,
) -> bool {
    &&& handshake is Some <==> before.free.len() > 0
    &&& handshake matches Some(h) ==> {
        &&& h.token == before.free[0]
        &&& h.id == id
        &&& h.nonce@ == after.info.nonce
    }
}

/// What comes of the wish to connect to a node at some time.
pub open spec fn connect_result(
    before: HostView,
    id: NodeId,
    now: time::Tm,
    decision: ConnectDecision,
    after: HostView,
) -> bool {
    if session_with(before.connections, id) {
        decision == ConnectDecision::AlreadyConnected && after == before
    } else if handshake_with(before.connections, id) {
        decision == ConnectDecision::AlreadyConnecting && after == before
    } else {
        &&& after == (HostView { nodes: with_attempt(before.nodes, id, now), ..before })
        &&& exists|i: int|
            0 <= i < before.nodes.len() && (#[trigger] before.nodes[i]).id == id && decision
                == ConnectDecision::Dial(before.nodes[i].address)
    }
}

/// What comes of a message: what is taken out of it and what has to be done.
pub open spec fn message_result<Message, Handler>(
    host: HostView,
    before: NetworkIoMessage<Message, Handler>,
    taken: Option<Handler>,
    plan: Seq<ActionView>,
    after: NetworkIoMessage<Message, Handler>,
) -> bool where Message: Send {
    match before {
        NetworkIoMessage::AddHandler { handler, protocol, versions } => {
            &&& taken == handler
            &&& after == NetworkIoMessage::<Message, Handler>::AddHandler {
                handler: None,
                protocol,
                versions,
            }
            &&& plan == add_plan(protocol, versions@)
        },
        NetworkIoMessage::Send { peer, packet_id, protocol, data } => {
            &&& taken is None
            &&& after == before
            &&& plan == host.send_plan(peer, protocol, packet_id, data@)
        },
        NetworkIoMessage::User(_) => {
            &&& taken is None
            &&& after == before
            &&& plan == host.user_plan()
        },
    }
}

/// What follows when a handler is to be registered.
pub open spec fn add_plan(protocol: ProtocolId, versions: Seq<u8>) -> Seq<ActionView> {
    seq![
        ActionView::Notify { protocol, session: None, event: HandlerEventView::Initialize },
        ActionView::Install { protocol, versions },
    ]
}

/// What the host does when it starts.
pub open spec fn start_plan() -> Seq<ActionView> {
    seq![
        ActionView::ListenTcp { token: TCP_ACCEPT },
        ActionView::SetTimer { timer: IDLE, ms: MAINTENANCE_TIMEOUT },
        ActionView::ListenUdp { token: NODETABLE_RECEIVE },
        ActionView::SetTimer { timer: NODETABLE_MAINTAIN, ms: NODETABLE_TIMEOUT },
        ActionView::AddNode { enode: BOOT_NODE_LOCAL@ },
        ActionView::AddNode { enode: BOOT_NODE_GAV@ },
        ActionView::AddNode { enode: BOOT_NODE_GAV_DEFAULT@ },
        ActionView::AddNode { enode: BOOT_NODE_IRELAND@ },
        ActionView::AddNode { enode: BOOT_NODE_BRAZIL@ },
        ActionView::AddNode { enode: BOOT_NODE_CPP@ },
    ]
}

/// The list of handlers with one for the protocol.
pub open spec fn with_handler(handlers: Seq<ProtocolId>, protocol: ProtocolId) -> Seq<ProtocolId> {
    if listed(handlers, protocol@) {
        handlers
    } else {
        handlers.push(protocol)
    }
}

/// Lists the handlers that hear of a peer.
fn capability_notices(
    handlers: &Vec<ProtocolId>,
    session: &SessionEntry,
    token: StreamToken,
    connected: bool,
) -> (actions: Vec<Action>)
    ensures
        views(actions@) == handlers@.filter(|p: ProtocolId| session.capable(p@)).map_values(
            |p: ProtocolId| notice(p, token, connected),
        ),
{
    let ghost pred = |p: ProtocolId| session.capable(p@);
    let ghost told = |p: ProtocolId| notice(p, token, connected);
    let mut actions: Vec<Action> = Vec::new();
    let mut i: usize = 0;
    proof {
        reveal(Seq::filter);
        assert(views(actions@) =~= handlers@.take(0).filter(pred).map_values(told));
    }
    while i < handlers.len()
        invariant
            i <= handlers.len(),
            pred == (|p: ProtocolId| session.capable(p@)),
            told == (|p: ProtocolId| notice(p, token, connected)),
            views(actions@) == handlers@.take(i as int).filter(pred).map_values(told),
        decreases handlers.len() - i,
    {
        proof {
            lemma_filter_next(handlers@, pred, i as int);
        }
        let protocol = handlers[i];
        if session.have_capability(protocol) {
            let event = if connected {
                HandlerEvent::Connected { peer: token }
            } else {
                HandlerEvent::Disconnected { peer: token }
            };
            let action = Action::Notify { protocol, session: None, event };
            proof {
                let kept = handlers@.take(i as int).filter(pred);
                assert(kept.push(protocol).map_values(told) =~= kept.map_values(told).push(
                    told(protocol),
                ));
                lemma_views_push(actions@, action);
            }
            actions.push(action);
        }
        i += 1;
    }
    assert(handlers@.take(i as int) =~= handlers@);
    actions
}

impl Host {
    /// A host without connections, nodes and handlers. The keys are fresh, and the first nonce is
    /// random.
    pub fn new(keys: KeyPair, nonce: H256) -> (host: Host)
        ensures
            host@.wf(),
            host@ == initial_host(keys, nonce@),
    {
        broadcast use vstd::std_specs::hash::group_hash_axioms;

        Host {
            info: HostInfo::new(keys, NetworkConfiguration::new(), nonce),
            connections: ConnectionTable::new(),
            timers: HashMap::new(),
            nodes: Vec::new(),
            handlers: Vec::new(),
        }
    }

    /// Decides who hears that a connection ends, which is then removed.
    pub fn kill_connection(&self, token: StreamToken) -> (actions: Vec<Action>)
        requires
            self@.wf(),
        ensures
            views(actions@) == self@.kill_plan(token),
    {
        let mut actions: Vec<Action> = Vec::new();
        match self.connections.get(token) {
            Some(ConnectionEntry::Session(s)) => {
                if s.info.ready {
                    actions = capability_notices(&self.handlers, s, token, false);
                }
            },
            _ => {},
        }
        proof {
            lemma_views_push(actions@, Action::Forget { token });
        }
        actions.push(Action::Forget { token });
        actions
    }

    /// Decides what an end of stream on a socket means.
    pub fn stream_hup(&self, stream: StreamToken) -> (actions: Vec<Action>)
        requires
            self@.wf(),
        ensures
            views(actions@) == self@.hup_plan(stream),
    {
        if is_connection_token(stream) {
            self.kill_connection(stream)
        } else {
            let actions: Vec<Action> = Vec::new();
            assert(views(actions@) =~= Seq::empty());
            actions
        }
    }

    /// Decides how to read from a connection that has data.
    pub fn connection_readable(&self, token: StreamToken) -> (actions: Vec<Action>)
        requires
            self@.wf(),
        ensures
            views(actions@) == self@.readable_plan(token),
    {
        let mut actions: Vec<Action> = Vec::new();
        match self.connections.get(token) {
            Some(ConnectionEntry::Handshake(_)) => {
                actions.push(Action::ReadHandshake { token });
                assert(views(actions@) =~= seq![ActionView::ReadHandshake { token }]);
            },
            Some(ConnectionEntry::Session(_)) => {
                actions.push(Action::ReadSession { token });
                assert(views(actions@) =~= seq![ActionView::ReadSession { token }]);
            },
            None => {
                assert(views(actions@) =~= Seq::empty());
            },
        }
        actions
    }

    /// Decides how to write to a connection that takes data.
    pub fn connection_writable(&self, token: StreamToken) -> (actions: Vec<Action>)
        requires
            self@.wf(),
        ensures
            views(actions@) == self@.writable_plan(token),
    {
        let mut actions: Vec<Action> = Vec::new();
        match self.connections.get(token) {
            Some(ConnectionEntry::Handshake(_)) => {
                actions.push(Action::WriteHandshake { token });
                assert(views(actions@) =~= seq![ActionView::WriteHandshake { token }]);
            },
            Some(ConnectionEntry::Session(_)) => {
                actions.push(Action::WriteSession { token });
                assert(views(actions@) =~= seq![ActionView::WriteSession { token }]);
            },
            None => {
                assert(views(actions@) =~= Seq::empty());
            },
        }
        actions
    }

    /// A handshake was read from or written to. If that failed the connection ends, and if the
    /// handshake is complete a session starts.
    pub fn handshake_advanced(&mut self, token: StreamToken, outcome: HandshakeOutcome) -> (actions:
        Vec<Action>)
        requires
            old(self)@.wf(),
            old(self)@.in_handshake(token),
        ensures
            final(self)@.wf(),
            advanced_result(old(self)@, token, outcome, views(actions@), final(self)@),
    {
        match self.connections.get_mut(token) {
            Some(entry) => {
                *entry = ConnectionEntry::Handshake(outcome.info);
            },
            None => {},
        }
        if outcome.result.is_err() {
            let actions = self.kill_connection(token);
            assert(views(actions@) =~= seq![ActionView::Forget { token }]);
            return actions;
        }
        let mut actions: Vec<Action> = Vec::new();
        if outcome.done {
            actions.push(Action::StartSession { token });
            assert(views(actions@) =~= seq![ActionView::StartSession { token }]);
        } else {
            assert(views(actions@) =~= Seq::empty());
        }
        actions
    }

    /// A session was written to. If that failed the connection ends.
    pub fn session_written(
        &mut self,
        token: StreamToken,
        info: SessionInfo,
        result: Result<(), UtilError>,
    ) -> (actions: Vec<Action>)
        requires
            old(self)@.wf(),
            old(self)@.in_session(token),
        ensures
            final(self)@.wf(),
            written_result(
                old(self)@,
                token,
                info,
                result,
                views(actions@),
                final(self)@,
            ),
    {
        match self.connections.get_mut(token) {
            Some(ConnectionEntry::Session(s)) => {
                s.info = info;
            },
            _ => {},
        }
        if result.is_err() {
            return self.kill_connection(token);
        }
        let mut actions: Vec<Action> = Vec::new();
        actions.push(Action::Reregister { token });
        assert(views(actions@) =~= seq![ActionView::Reregister { token }]);
        actions
    }

    /// A session was read from. If that failed the connection ends. If the session is now ready
    /// its handlers hear of it. A packet goes to the handler of its protocol, without its first
    /// byte, which is the packet id.
    pub fn session_read(
        &mut self,
        token: StreamToken,
        info: SessionInfo,
        result: Result<SessionData, UtilError>,
    ) -> (actions: Vec<Action>)
        requires
            old(self)@.wf(),
            old(self)@.in_session(token),
            result matches Ok(SessionData::Packet { data, protocol, packet_id }) ==> old(
                self,
            )@.delivers(token, protocol@) ==> data@.len() > 0,
        ensures
            final(self)@.wf(),
            read_result(
                old(self)@,
                token,
                info,
                result,
                views(actions@),
                final(self)@,
            ),
    {
        match self.connections.get_mut(token) {
            Some(ConnectionEntry::Session(s)) => {
                s.info = info;
            },
            _ => {},
        }
        let mut actions: Vec<Action> = Vec::new();
        match result {
            Err(_) => {
                return self.kill_connection(token);
            },
            Ok(SessionData::Nothing) => {},
            Ok(SessionData::Ready) => {
                if let Some(ConnectionEntry::Session(s)) = self.connections.get(token) {
                    actions = capability_notices(&self.handlers, s, token, true);
                }
            },
            Ok(SessionData::Packet { data, protocol, packet_id }) => {
                if self.delivers(token, protocol) {
                    let mut payload = data;
                    payload.remove(0);
                    assert(payload@ =~= data@.skip(1));
                    actions.push(
                        Action::Notify {
                            protocol,
                            session: Some(token),
                            event: HandlerEvent::Read { peer: token, packet_id, data: payload },
                        },
                    );
                }
            },
        }
        proof {
            lemma_views_push(actions@, Action::Reregister { token });
        }
        actions.push(Action::Reregister { token });
        assert(views(actions@) =~= self@.read_plan(token, result));
        actions
    }

    /// Tells whether packets of the protocol that the peer sends go to a handler.
    pub fn delivers(&self, token: StreamToken, protocol: ProtocolId) -> (yes: bool)
        requires
            self@.wf(),
        ensures
            yes == self@.delivers(token, protocol@),
    {
        is_listed(&self.handlers, protocol) && can_reach(&self.connections, token, protocol)
    }

    /// Tells whether there is a session with the token. Handlers may have ended it since it was
    /// last looked at.
    pub fn in_session(&self, token: StreamToken) -> (yes: bool)
        requires
            self@.wf(),
        ensures
            yes == self@.in_session(token),
    {
        matches!(self.connections.get(token), Some(ConnectionEntry::Session(_)))
    }

    /// A session was created out of a complete handshake, or could not be. It takes over the
    /// token of the handshake.
    pub fn start_session(
        &mut self,
        token: StreamToken,
        session: Result<SessionInfo, UtilError>,
    ) -> (actions: Vec<Action>)
        requires
            old(self)@.wf(),
            old(self)@.in_handshake(token),
        ensures
            final(self)@.wf(),
            start_result(old(self)@, token, session, views(actions@), final(self)@),
    {
        let ghost before = self@;
        let mut actions: Vec<Action> = Vec::new();
        self.connections.remove(token);
        match session {
            Ok(info) => {
                let entry = ConnectionEntry::Session(SessionEntry { info, disabled: Vec::new() });
                let place = self.connections.insert(entry);
                assert(place == Ok::<usize, ConnectionEntry>(token));
                actions.push(Action::Reregister { token });
                assert(views(actions@) =~= seq![ActionView::Reregister { token }]);
                assert(self@.free =~= before.free);
                assert(self@.connections =~= before.connections.insert(token, entry));
            },
            Err(_) => {
                assert(views(actions@) =~= Seq::<ActionView>::empty());
            },
        }
        actions
    }

    /// Removes a connection, which has to be there. Nothing else changes, and the token is the next
    /// to be used.
    pub fn remove_connection(&mut self, token: StreamToken) -> (entry: Option<ConnectionEntry>)
        requires
            old(self)@.wf(),
            old(self)@.connections.contains_key(token),
        ensures
            final(self)@.wf(),
            final(self)@ == old(self)@.without_connection(token),
            entry == Some(old(self)@.connections[token]),
    {
        self.connections.remove(token)
    }

    /// Decides what data on a socket means. Of the sockets that are no connections, the listening
    /// one and that of the node table are known; nothing is done for either.
    pub fn stream_readable(&self, stream: StreamToken) -> (actions: Vec<Action>)
        requires
            self@.wf(),
            connection_token(stream) || stream == NODETABLE_RECEIVE || stream == TCP_ACCEPT,
        ensures
            views(actions@) == self@.readable_plan(stream),
    {
        if is_connection_token(stream) {
            self.connection_readable(stream)
        } else {
            let actions: Vec<Action> = Vec::new();
            assert(views(actions@) =~= Seq::empty());
            actions
        }
    }

    /// Decides what room on a socket means. It has to be that of a connection.
    pub fn stream_writable(&self, stream: StreamToken) -> (actions: Vec<Action>)
        requires
            self@.wf(),
            connection_token(stream),
        ensures
            views(actions@) == self@.writable_plan(stream),
    {
        self.connection_writable(stream)
    }

    /// Tells whether there is a session with the node.
    pub fn have_session(&self, id: &NodeId) -> (yes: bool)
        requires
            self@.wf(),
        ensures
            yes == session_with(self@.connections, *id),
    {
        self.connections.have_session(id)
    }

    /// Tells whether there is a handshake with the node.
    pub fn connecting_to(&self, id: &NodeId) -> (yes: bool)
        requires
            self@.wf(),
        ensures
            yes == handshake_with(self@.connections, *id),
    {
        self.connections.connecting_to(id)
    }

    /// Tells whether the nodes can be counted in 32 bits.
    pub fn countable(&self) -> (yes: bool)
        ensures
            yes == self@.countable(),
    {
        let ghost required = |n: Node| n.peer_type == PeerType::Required;
        let mut count: usize = 0;
        let mut i: usize = 0;
        proof {
            reveal(Seq::filter);
            assert(self@.nodes.take(0).filter(required) =~= Seq::empty());
        }
        while i < self.nodes.len()
            invariant
                i <= self.nodes.len(),
                required == (|n: Node| n.peer_type == PeerType::Required),
                count == self@.nodes.take(i as int).filter(required).len(),
                count <= i,
            decreases self.nodes.len() - i,
        {
            proof {
                lemma_filter_next(self@.nodes, required, i as int);
            }
            if self.nodes[i].peer_type == PeerType::Required {
                count += 1;
            }
            i += 1;
        }
        proof {
            assert(self@.nodes.take(i as int) =~= self@.nodes);
            law_countable(self@);
        }
        if self.info.config.pin {
            count <= u32::MAX as usize
        } else {
            count <= (u32::MAX - IDEAL_PEERS) as usize
        }
    }

    /// Lists the nodes that the host should connect to now.
    pub fn connect_peers(&self) -> (ids: Vec<NodeId>)
        requires
            self@.wf(),
            self@.countable(),
        ensures
            ids@ == self@.peers_to_connect(),
    {
        let ghost host = self@;
        let ghost is_linked = |n: Node|
            host.linked(n.id) && n.peer_type == PeerType::Required;
        let ghost is_wanted = |n: Node|
            !host.linked(n.id) && (!host.info.config.pin || n.peer_type == PeerType::Required);
        let ghost is_required = |n: Node| n.peer_type == PeerType::Required;
        let ghost is_optional = |n: Node| n.peer_type == PeerType::Optional;
        let ghost id_of = |n: Node| n.id;
        let pin = self.info.config.pin;

        let mut to_connect: Vec<Node> = Vec::new();
        let mut req_conn: u32 = 0;
        let mut i: usize = 0;
        proof {
            reveal(Seq::filter);
            assert(host.linked_required() == host.nodes.filter(is_linked));
            assert(host.wanted() == host.nodes.filter(is_wanted));
            assert(host.wanted_required() == host.wanted().filter(is_required));
            assert(host.wanted_optional() == host.wanted().filter(is_optional));
            assert(host.nodes.take(0).filter(is_wanted) =~= Seq::empty());
            assert(host.nodes.take(0).filter(is_linked) =~= Seq::empty());
        }
        while i < self.nodes.len()
            invariant
                i <= self.nodes.len(),
                host == self@,
                host.wf(),
                host.countable(),
                pin == host.info.config.pin,
                is_linked == (|n: Node| host.linked(n.id) && n.peer_type == PeerType::Required),
                is_wanted == (|n: Node|
                    !host.linked(n.id) && (!host.info.config.pin || n.peer_type
                        == PeerType::Required)),
                host.linked_required() == host.nodes.filter(is_linked),
                to_connect@ == host.nodes.take(i as int).filter(is_wanted),
                req_conn == host.nodes.take(i as int).filter(is_linked).len(),
            decreases self.nodes.len() - i,
        {
            let node = self.nodes[i];
            proof {
                lemma_filter_next(host.nodes, is_wanted, i as int);
                lemma_filter_next(host.nodes, is_linked, i as int);
                lemma_filter_part(host.nodes, is_linked, i + 1);
            }
            let connected = self.have_session(&node.id) || self.connecting_to(&node.id);
            let required = node.peer_type == PeerType::Required;
            if connected && required {
                req_conn += 1;
            } else if !connected && (!pin || required) {
                to_connect.push(node);
            }
            i += 1;
        }
        assert(host.nodes.take(i as int) =~= host.nodes);

        let ghost links = req_conn as int;
        let ghost wanted = to_connect@;
        let mut ids: Vec<NodeId> = Vec::new();
        let mut j: usize = 0;
        proof {
            reveal(Seq::filter);
            assert(wanted.take(0).filter(is_required) =~= Seq::empty());
            assert(ids@ =~= first(wanted.take(0).filter(is_required), IDEAL_PEERS - links).map_values(
                id_of,
            ));
        }
        while j < to_connect.len()
            invariant
                j <= to_connect.len(),
                host.countable(),
                is_required == (|n: Node| n.peer_type == PeerType::Required),
                id_of == (|n: Node| n.id),
                wanted == to_connect@,
                wanted == host.wanted(),
                links == host.linked_required().len(),
                host.wanted_required() == wanted.filter(is_required),
                req_conn == links + wanted.take(j as int).filter(is_required).len(),
                ids@ == first(
                    wanted.take(j as int).filter(is_required),
                    IDEAL_PEERS - links,
                ).map_values(id_of),
            decreases to_connect.len() - j,
        {
            let node = to_connect[j];
            let ghost seen = wanted.take(j as int).filter(is_required);
            proof {
                lemma_filter_next(wanted, is_required, j as int);
                lemma_filter_part(wanted, is_required, j + 1);
                lemma_first_next(seen, node, IDEAL_PEERS - links);
                let kept = first(seen, IDEAL_PEERS - links);
                assert(kept.push(node).map_values(id_of) =~= kept.map_values(id_of).push(node.id));
            }
            if node.peer_type == PeerType::Required {
                if req_conn < IDEAL_PEERS {
                    ids.push(node.id);
                }
                req_conn += 1;
            }
            j += 1;
        }
        assert(wanted.take(j as int) =~= wanted);

        let ghost required = first(host.wanted_required(), IDEAL_PEERS - links);
        assert(ids@ == required.map_values(id_of));
        if pin {
            assert(ids@ =~= host.peers_to_connect());
            return ids;
        }
        let mut open_slots: u32 = IDEAL_PEERS + req_conn;
        let ghost slots = open_slots as int;
        let mut k: usize = 0;
        proof {
            reveal(Seq::filter);
            assert(wanted.take(0).filter(is_optional) =~= Seq::empty());
            assert(ids@ =~= (required + first(wanted.take(0).filter(is_optional), slots)).map_values(
                id_of,
            ));
        }
        while k < to_connect.len()
            invariant
                k <= to_connect.len(),
                is_optional == (|n: Node| n.peer_type == PeerType::Optional),
                id_of == (|n: Node| n.id),
                wanted == to_connect@,
                slots > 0,
                open_slots == (if wanted.take(k as int).filter(is_optional).len() < slots {
                    slots - wanted.take(k as int).filter(is_optional).len()
                } else {
                    0
                }),
                ids@ == (required + first(
                    wanted.take(k as int).filter(is_optional),
                    slots,
                )).map_values(id_of),
            decreases to_connect.len() - k,
        {
            let node = to_connect[k];
            let ghost seen = wanted.take(k as int).filter(is_optional);
            proof {
                lemma_filter_next(wanted, is_optional, k as int);
                lemma_first_next(seen, node, slots);
                let kept = first(seen, slots);
                assert((required + kept.push(node)).map_values(id_of) =~= (required
                    + kept).map_values(id_of).push(node.id));
            }
            if node.peer_type == PeerType::Optional && open_slots > 0 {
                open_slots -= 1;
                ids.push(node.id);
            }
            k += 1;
        }
        assert(wanted.take(k as int) =~= wanted);
        assert(ids@ =~= host.peers_to_connect());
        ids
    }

    /// Decides what a round of network maintenance consists of.
    pub fn maintain_network(&self) -> (actions: Vec<Action>)
        requires
            self@.wf(),
            self@.countable(),
        ensures
            views(actions@) == self@.maintenance_plan(),
    {
        let ids = self.connect_peers();
        let ghost connect = |id: NodeId| ActionView::ConnectPeer { id };
        let mut actions: Vec<Action> = Vec::new();
        let mut i: usize = 0;
        assert(views(actions@) =~= ids@.take(0).map_values(connect));
        while i < ids.len()
            invariant
                i <= ids.len(),
                connect == (|id: NodeId| ActionView::ConnectPeer { id }),
                views(actions@) == ids@.take(i as int).map_values(connect),
            decreases ids.len() - i,
        {
            let id = ids[i];
            proof {
                lemma_views_push(actions@, Action::ConnectPeer { id });
            }
            actions.push(Action::ConnectPeer { id });
            i += 1;
            assert(views(actions@) =~= ids@.take(i as int).map_values(connect));
        }
        assert(ids@.take(i as int) =~= ids@);
        proof {
            lemma_views_push(
                actions@,
                Action::SetTimer { timer: IDLE, ms: MAINTENANCE_TIMEOUT },
            );
        }
        actions.push(Action::SetTimer { timer: IDLE, ms: MAINTENANCE_TIMEOUT });
        actions
    }

    /// Decides what follows when a timer ran out. It has to be one of the host or of a connection,
    /// or one that a handler registered.
    pub fn timeout(&self, token: TimerToken) -> (actions: Vec<Action>)
        requires
            self@.wf(),
            token == IDLE ==> self@.countable(),
            connection_token(token) || service_timer(token) || self@.timers.contains_key(token),
        ensures
            views(actions@) == self@.timeout_plan(token),
    {
        broadcast use vstd::std_specs::hash::group_hash_axioms;

        if token == IDLE {
            return self.maintain_network();
        }
        if is_connection_token(token) {
            return self.kill_connection(token);
        }
        let mut actions: Vec<Action> = Vec::new();
        if token != NODETABLE_DISCOVERY && token != NODETABLE_MAINTAIN {
            if let Some(protocol) = self.timers.get(&token) {
                if is_listed(&self.handlers, protocol) {
                    actions.push(
                        Action::Notify {
                            protocol,
                            session: None,
                            event: HandlerEvent::Timeout { timer: token },
                        },
                    );
                }
            }
        }
        assert(views(actions@) =~= self@.timeout_plan(token));
        actions
    }

    /// Decides whether to connect to a node, and remembers the attempt with its time. The node has
    /// to be known, unless the host is linked to it.
    pub fn connect_peer_at(&mut self, id: &NodeId, now: time::Tm) -> (decision: ConnectDecision)
        requires
            old(self)@.wf(),
            old(self)@.linked(*id) || node_known(old(self)@.nodes, *id),
        ensures
            final(self)@.wf(),
            connect_result(old(self)@, *id, now, decision, final(self)@),
    {
        if self.have_session(id) {
            return ConnectDecision::AlreadyConnected;
        }
        if self.connecting_to(id) {
            return ConnectDecision::AlreadyConnecting;
        }
        let ghost before = self@;
        let mut decision = ConnectDecision::AlreadyConnected;
        if let Some(i) = find_node(&self.nodes, id) {
            let node = self.nodes[i];
            self.nodes.set(i, Node { last_attempted: Some(now), ..node });
            decision = ConnectDecision::Dial(node.address);
            assert(self@.nodes =~= with_attempt(before.nodes, *id, now));
        }
        decision
    }

    /// Decides whether to connect to a node, and remembers the attempt with the current time. The
    /// node has to be known, unless the host is linked to it.
    pub fn connect_peer(&mut self, id: &NodeId) -> (decision: ConnectDecision)
        requires
            old(self)@.wf(),
            old(self)@.linked(*id) || node_known(old(self)@.nodes, *id),
        ensures
            final(self)@.wf(),
            exists|now: time::Tm|
                call_ensures(time::now, (), now) && #[trigger] connect_result(
                    old(self)@,
                    *id,
                    now,
                    decision,
                    final(self)@,
                ),
    {
        let now = time::now();
        self.connect_peer_at(id, now)
    }

    /// A node was dialed: makes room for the handshake, unless there are too many connections. In
    /// either case the nonce is used up.
    pub fn add_handshake(&mut self, id: &NodeId) -> (handshake: Option<NewHandshake>)
        requires
            old(self)@.wf(),
        ensures
            final(self)@.wf(),
            final(self)@ == old(self)@.with_handshake(*id),
            handshake_made(old(self)@, *id, handshake, final(self)@),
    {
        let nonce = self.info.next_nonce();
        let entry = ConnectionEntry::Handshake(HandshakeInfo { id: *id });
        match self.connections.insert(entry) {
            Ok(token) => Some(NewHandshake { token, id: *id, nonce }),
            Err(_) => None,
        }
    }

    /// Adds a node, in the place of one with the same identifier. Nothing happens if the text that
    /// should have named the node could not be made out.
    pub fn add_node(&mut self, parsed: Result<Node, UtilError>)
        requires
            old(self)@.wf(),
        ensures
            final(self)@.wf(),
            final(self)@ == old(self)@.with_parsed(parsed),
    {
        let ghost before = self@;
        match parsed {
            Err(_) => {},
            Ok(node) => match find_node(&self.nodes, &node.id) {
                Some(i) => {
                    self.nodes.set(i, node);
                    assert(node_known(before.nodes, node.id));
                    assert(self@.nodes =~= with_node(before.nodes, node));
                },
                None => {
                    self.nodes.push(node);
                },
            },
        }
    }

    /// Registers the handler of a protocol, which adds a capability for each version.
    pub fn add_handler(&mut self, protocol: ProtocolId, versions: &Vec<u8>)
        requires
            old(self)@.wf(),
        ensures
            final(self)@.wf(),
            final(self)@ == old(self)@.with_protocol(protocol, versions@),
    {
        if !is_listed(&self.handlers, protocol) {
            self.handlers.push(protocol);
        }
        self.info.add_capabilities(protocol, versions);
    }

    /// Decides what a message means. A handler that is to be registered is taken out of its
    /// message, where it has to be.
    pub fn message<Message, Handler>(
        &self,
        message: &mut NetworkIoMessage<Message, Handler>,
    ) -> (plan: (Option<Handler>, Vec<Action>)) where Message: Send
        requires
            self@.wf(),
            *old(message) matches NetworkIoMessage::AddHandler { handler, protocol, versions }
                ==> handler is Some,
        ensures
            message_result(self@, *old(message), plan.0, views(plan.1@), *final(message)),
    {
        let mut actions: Vec<Action> = Vec::new();
        match message {
            NetworkIoMessage::AddHandler { handler, protocol, versions } => {
                let taken = handler.take();
                actions.push(
                    Action::Notify {
                        protocol: *protocol,
                        session: None,
                        event: HandlerEvent::Initialize,
                    },
                );
                actions.push(Action::Install { protocol: *protocol, versions: versions.clone() });
                assert(views(actions@) =~= seq![
                    ActionView::Notify {
                        protocol: *protocol,
                        session: None,
                        event: HandlerEventView::Initialize,
                    },
                    ActionView::Install { protocol: *protocol, versions: versions@ },
                ]);
                (taken, actions)
            },
            NetworkIoMessage::Send { peer, packet_id, protocol, data } => {
                if can_reach(&self.connections, *peer, *protocol) {
                    let packet = OutgoingPacket {
                        peer: *peer,
                        protocol: *protocol,
                        packet_id: *packet_id,
                        data: data.clone(),
                    };
                    actions.push(Action::Send(packet));
                    assert(views(actions@) =~= seq![
                        ActionView::Send {
                            peer: *peer,
                            protocol: *protocol,
                            packet_id: *packet_id,
                            data: data@,
                        },
                    ]);
                } else {
                    assert(views(actions@) =~= Seq::empty());
                }
                (None, actions)
            },
            NetworkIoMessage::User(_) => (None, self.message_notices()),
        }
    }

    /// Lists all handlers, for a user message.
    fn message_notices(&self) -> (actions: Vec<Action>)
        ensures
            views(actions@) == self@.user_plan(),
    {
        let ghost told = |protocol: ProtocolId|
            ActionView::Notify { protocol, session: None, event: HandlerEventView::Message };
        let mut actions: Vec<Action> = Vec::new();
        let mut i: usize = 0;
        assert(views(actions@) =~= self@.handlers.take(0).map_values(told));
        while i < self.handlers.len()
            invariant
                i <= self.handlers.len(),
                told == (|protocol: ProtocolId|
                    ActionView::Notify {
                        protocol,
                        session: None,
                        event: HandlerEventView::Message,
                    }),
                views(actions@) == self@.handlers.take(i as int).map_values(told),
            decreases self.handlers.len() - i,
        {
            let action = Action::Notify {
                protocol: self.handlers[i],
                session: None,
                event: HandlerEvent::Message,
            };
            proof {
                lemma_views_push(actions@, action);
            }
            actions.push(action);
            i += 1;
            assert(views(actions@) =~= self@.handlers.take(i as int).map_values(told));
        }
        assert(self@.handlers.take(i as int) =~= self@.handlers);
        actions
    }

    /// Initialize networking: listen, start the timers of the host and add the nodes that are
    /// known from the start.
    pub fn initialize(&mut self) -> (actions: Vec<Action>)
        requires
            old(self)@.wf(),
        ensures
            final(self)@.wf(),
            final(self)@ == old(self)@.initialized(),
            views(actions@) == start_plan(),
    {
        self.info.listen_port = self.info.config.listen_address.port;
        let mut actions: Vec<Action> = Vec::new();
        actions.push(Action::ListenTcp { token: TCP_ACCEPT });
        actions.push(Action::SetTimer { timer: IDLE, ms: MAINTENANCE_TIMEOUT });
        actions.push(Action::ListenUdp { token: NODETABLE_RECEIVE });
        actions.push(Action::SetTimer { timer: NODETABLE_MAINTAIN, ms: NODETABLE_TIMEOUT });
        actions.push(Action::AddNode { enode: BOOT_NODE_LOCAL });
        actions.push(Action::AddNode { enode: BOOT_NODE_GAV });
        actions.push(Action::AddNode { enode: BOOT_NODE_GAV_DEFAULT });
        actions.push(Action::AddNode { enode: BOOT_NODE_IRELAND });
        actions.push(Action::AddNode { enode: BOOT_NODE_BRAZIL });
        actions.push(Action::AddNode { enode: BOOT_NODE_CPP });
        assert(views(actions@) =~= start_plan());
        actions
    }

    /// The context that a handler is called with.
    pub fn context(&mut self, protocol: ProtocolId, session: Option<StreamToken>) -> (context:
        NetworkContext<'_>)
        ensures
            context.protocol == protocol,
            context.session == session,
            context.connections@ == old(self)@.connections,
            context.connections.free() == old(self)@.free,
            context.timers@ == old(self)@.timers,
            final(self)@ == (HostView {
                connections: (*final(context.connections))@,
                free: (*final(context.connections)).free(),
                timers: (*final(context.timers))@,
                ..old(self)@
            }),
    {
        NetworkContext::new(protocol, session, &mut self.connections, &mut self.timers)
    }

    /// What the host is and how it is configured.
    pub fn info(&self) -> (info: &HostInfo)
        ensures
            info@ == self@.info,
    {
        &self.info
    }

    /// What the host is and how it is configured, for change.
    pub fn info_mut(&mut self) -> (info: &mut HostInfo)
        ensures
            info@ == old(self)@.info,
            final(self)@ == (HostView { info: (*final(info))@, ..old(self)@ }),
    {
        &mut self.info
    }

    /// Tells whether a handler registered the timer.
    pub fn has_timer(&self, token: TimerToken) -> (yes: bool)
        ensures
            yes == self@.timers.contains_key(token),
    {
        broadcast use vstd::std_specs::hash::group_hash_axioms;

        self.timers.contains_key(&token)
    }

    /// Tells whether a node with the identifier was added.
    pub fn has_node(&self, id: &NodeId) -> (yes: bool)
        ensures
            yes == node_known(self@.nodes, *id),
    {
        find_node(&self.nodes, id).is_some()
    }

    /// The nodes that were added, in order.
    pub fn nodes(&self) -> (nodes: &Vec<Node>)
        ensures
            nodes@ == self@.nodes,
    {
        &self.nodes
    }

    /// The connection with the token, if there is one.
    pub fn connection(&self, token: StreamToken) -> (entry: Option<&ConnectionEntry>)
        requires
            self@.wf(),
        ensures
            entry == (if self@.connections.contains_key(token) {
                Some(&self@.connections[token])
            } else {
                None
            }),
    {
        self.connections.get(token)
    }
}

} // verus!
