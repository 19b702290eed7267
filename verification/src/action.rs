//! What the host asks for when something happened, and what it is told.
//!
//! The host itself touches no socket and calls no handler. An event is reported to it, and it
//! answers with the actions that have to follow, in order.

use crate::connection::HandshakeInfo;
use crate::hash::{NodeId, H256};
use crate::node::SocketAddress;
use crate::tokens::{PacketId, PeerId, ProtocolId, StreamToken, TimerToken};
use vstd::prelude::*;

verus! {

/// Why outside work failed.
#[derive(Clone, Copy, Debug, PartialEq, Eq, Structural)]
pub enum UtilError {
    /// A socket or the event loop failed.
    Io,
    /// The text does not name a node, or its address could not be resolved.
    Address,
    /// The peer broke the protocol.
    Protocol,
}

/// Messages used to communicate with the event loop from other threads.
pub enum NetworkIoMessage<Message, Handler> where Message: Send {
    /// Register a new protocol handler.
    AddHandler { handler: Option<Handler>, protocol: ProtocolId, versions: Vec<u8> },
    /// Send data over the network.
    Send { peer: PeerId, packet_id: PacketId, protocol: ProtocolId, data: Vec<u8> },
    /// User message
    User(Message),
}

/// What a session got out of what it read.
pub enum SessionData {
    /// Nothing yet.
    Nothing,
    /// Both ends have introduced themselves.
    Ready,
    /// A packet of a protocol.
    Packet { data: Vec<u8>, protocol: ProtocolId, packet_id: PacketId },
}

/// What became of reading or writing in a handshake.
pub struct HandshakeOutcome {
    /// What the handshake reports of itself afterwards.
    pub info: HandshakeInfo,
    /// The handshake is complete.
    pub done: bool,
    pub result: Result<(), UtilError>,
}

/// A packet for a peer.
#[derive(Debug, PartialEq, Eq)]
pub struct OutgoingPacket {
    pub peer: PeerId,
    pub protocol: ProtocolId,
    pub packet_id: PacketId,
    pub data: Vec<u8>,
}

/// A timer to be registered with the event loop.
#[derive(Clone, Copy, Debug, PartialEq, Eq)]
pub struct TimerRequest {
    pub ms: u64,
    pub protocol: ProtocolId,
}

/// A place in the connection table for a handshake that has to be created.
#[derive(Clone, Copy, Debug, PartialEq, Eq)]
pub struct NewHandshake {
    pub token: StreamToken,
    pub id: NodeId,
    pub nonce: H256,
}

/// Whether the host wants to connect to a node.
#[derive(Clone, Copy, Debug, PartialEq, Eq)]
pub enum ConnectDecision {
    /// There is a session with the node.
    AlreadyConnected,
    /// There is a handshake with the node.
    AlreadyConnecting,
    /// Connect to this address.
    Dial(SocketAddress),
}

/// What a protocol handler is called with.
#[derive(Debug, PartialEq, Eq)]
pub enum HandlerEvent {
    /// The handler is about to be registered.
    Initialize,
    /// A peer can be talked to.
    Connected { peer: PeerId },
    /// A peer is gone.
    Disconnected { peer: PeerId },
    /// A peer sent a packet.
    Read { peer: PeerId, packet_id: PacketId, data: Vec<u8> },
    /// A timer of the handler ran out.
    Timeout { timer: TimerToken },
    /// A user message came in.
    Message,
}

/// What has to be done.
#[derive(Debug, PartialEq, Eq)]
pub enum Action {
    /// Call the handler of a protocol, with a context for the session whose packet it is about.
    Notify { protocol: ProtocolId, session: Option<StreamToken>, event: HandlerEvent },
    /// Add the handler, for these versions.
    Install { protocol: ProtocolId, versions: Vec<u8> },
    /// Read from a connection in its handshake, and report the outcome.
    ReadHandshake { token: StreamToken },
    /// Read from a connection with a session, and report the outcome.
    ReadSession { token: StreamToken },
    /// Write to a connection in its handshake, and report the outcome.
    WriteHandshake { token: StreamToken },
    /// Write to a connection with a session, and report the outcome.
    WriteSession { token: StreamToken },
    /// Create a session out of a complete handshake, and report the outcome.
    StartSession { token: StreamToken },
    /// Tell the event loop that the session goes on, unless a handler ended it.
    Reregister { token: StreamToken },
    /// Close the connection and remove it, if it is still there.
    Forget { token: StreamToken },
    /// Send a packet.
    Send(OutgoingPacket),
    /// Connect to a node.
    ConnectPeer { id: NodeId },
    /// Listen for connections.
    ListenTcp { token: StreamToken },
    /// Listen for datagrams.
    ListenUdp { token: StreamToken },
    /// Start a timer.
    SetTimer { timer: TimerToken, ms: u64 },
    /// Resolve the address of a node, and add it.
    AddNode { enode: &'static str },
}

/// The mathematical model of what a handler is called with.
pub enum HandlerEventView {
    Initialize,
    Connected { peer: PeerId },
    Disconnected { peer: PeerId },
    Read { peer: PeerId, packet_id: PacketId, data: Seq<u8> },
    Timeout { timer: TimerToken },
    Message,
}

/// The mathematical model of an action.
pub enum ActionView {
    Notify { protocol: ProtocolId, session: Option<StreamToken>, event: HandlerEventView },
    Install { protocol: ProtocolId, versions: Seq<u8> },
    ReadHandshake { token: StreamToken },
    ReadSession { token: StreamToken },
    WriteHandshake { token: StreamToken },
    WriteSession { token: StreamToken },
    StartSession { token: StreamToken },
    Reregister { token: StreamToken },
    Forget { token: StreamToken },
    Send { peer: PeerId, protocol: ProtocolId, packet_id: PacketId, data: Seq<u8> },
    ConnectPeer { id: NodeId },
    ListenTcp { token: StreamToken },
    ListenUdp { token: StreamToken },
    SetTimer { timer: TimerToken, ms: u64 },
    AddNode { enode: Seq<char> },
}

impl View for HandlerEvent {
    type V = HandlerEventView;

    open spec fn view(&self) -> HandlerEventView {
        match *self {
            HandlerEvent::Initialize => HandlerEventView::Initialize,
            HandlerEvent::Connected { peer } => HandlerEventView::Connected { peer },
            HandlerEvent::Disconnected { peer } => HandlerEventView::Disconnected { peer },
            HandlerEvent::Read { peer, packet_id, data } => HandlerEventView::Read {
                peer,
                packet_id,
                data: data@,
            },
            HandlerEvent::Timeout { timer } => HandlerEventView::Timeout { timer },
            HandlerEvent::Message => HandlerEventView::Message,
        }
    }
}

impl View for Action {
    type V = ActionView;

    open spec fn view(&self) -> ActionView {
        match *self {
            Action::Notify { protocol, session, event } => ActionView::Notify {
                protocol,
                session,
                event: event@,
            },
            Action::Install { protocol, versions } => ActionView::Install {
                protocol,
                versions: versions@,
            },
            Action::ReadHandshake { token } => ActionView::ReadHandshake { token },
            Action::ReadSession { token } => ActionView::ReadSession { token },
            Action::WriteHandshake { token } => ActionView::WriteHandshake { token },
            Action::WriteSession { token } => ActionView::WriteSession { token },
            Action::StartSession { token } => ActionView::StartSession { token },
            Action::Reregister { token } => ActionView::Reregister { token },
            Action::Forget { token } => ActionView::Forget { token },
            Action::Send(packet) => ActionView::Send {
                peer: packet.peer,
                protocol: packet.protocol,
                packet_id: packet.packet_id,
                data: packet.data@,
            },
            Action::ConnectPeer { id } => ActionView::ConnectPeer { id },
            Action::ListenTcp { token } => ActionView::ListenTcp { token },
            Action::ListenUdp { token } => ActionView::ListenUdp { token },
            Action::SetTimer { timer, ms } => ActionView::SetTimer { timer, ms },
            Action::AddNode { enode } => ActionView::AddNode { enode: enode@ },
        }
    }
}

/// The models of some actions, in order.
pub open spec fn views(actions: Seq<Action>) -> Seq<ActionView> {
    actions.map_values(|action: Action| action@)
}

/// One action more.
pub proof fn lemma_views_push(actions: Seq<Action>, action: Action)
    ensures
        views(actions.push(action)) == views(actions).push(action@),
{
    assert(views(actions.push(action)) =~= views(actions).push(action@));
}

} // verus!
