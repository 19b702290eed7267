//! What a protocol handler can do while it is called.

use crate::action::{OutgoingPacket, TimerRequest, UtilError};
use crate::connection::{ConnectionEntry, ConnectionTable, SessionEntry};
use crate::protocols::{is_listed, listed};
use crate::tokens::{PacketId, PeerId, ProtocolId, StreamToken, TimerToken};
use std::collections::HashMap;
use vstd::prelude::*;

verus! {

/// IO access point. This is passed to all IO handlers and provides an interface to the IO
/// subsystem.
pub struct NetworkContext<'s> {
    pub protocol: ProtocolId,
    pub connections: &'s mut ConnectionTable,
    pub timers: &'s mut HashMap<TimerToken, ProtocolId>,
    /// The session whose packet is handled, if one is.
    pub session: Option<StreamToken>,
}

/// There is a session with the peer, and the protocol is not disabled for it.
pub open spec fn reachable(
    connections: Map<usize, ConnectionEntry>,
    peer: PeerId,
    protocol: Seq<char>,
) -> bool {
    &&& connections.contains_key(peer)
    &&& connections[peer] matches ConnectionEntry::Session(s)
    &&& !listed(s.disabled@, protocol)
}

/// The packet that goes out if something is to be sent to a peer.
pub open spec fn packet_for(
    connections: Map<usize, ConnectionEntry>,
    peer: PeerId,
    protocol: ProtocolId,
    packet_id: PacketId,
    data: Vec<u8>,
) -> Option<OutgoingPacket> {
    if reachable(connections, peer, protocol@) {
        Some(OutgoingPacket { peer, protocol, packet_id, data })
    } else {
        None
    }
}

/// What the event loop is asked for if the handler of a protocol wants a timer.
pub open spec fn timer_request(protocol: ProtocolId, ms: u64) -> TimerRequest {
    TimerRequest { ms, protocol }
}

/// The timers once the event loop answered a request of the handler of a protocol.
pub open spec fn timers_after(
    timers: Map<TimerToken, ProtocolId>,
    protocol: ProtocolId,
    answer: Result<TimerToken, UtilError>,
) -> Map<TimerToken, ProtocolId> {
    match answer {
        Ok(token) => timers.insert(token, protocol),
        Err(_) => timers,
    }
}

/// What is known of a peer as text.
pub open spec fn peer_text(connections: Map<usize, ConnectionEntry>, peer: PeerId) -> Seq<char> {
    if connections.contains_key(peer) {
        match connections[peer] {
            ConnectionEntry::Session(s) => s.info.client_version@,
            ConnectionEntry::Handshake(_) => "unknown"@,
        }
    } else {
        "unknown"@
    }
}

/// The session has a capability left once the protocol is disabled.
pub open spec fn capable_without(session: SessionEntry, protocol: Seq<char>) -> bool {
    exists|i: int|
        0 <= i < session.info.capabilities@.len() && session.capable(
            (#[trigger] session.info.capabilities@[i])@,
        ) && session.info.capabilities@[i]@ != protocol
}

/// What comes of disabling a protocol for a peer: the session remembers it, or, if no capability
/// is left, it is removed.
pub open spec fn peer_disabled(
    before: Map<usize, ConnectionEntry>,
    peer: PeerId,
    protocol: ProtocolId,
    disconnected: bool,
    after: Map<usize, ConnectionEntry>,
) -> bool {
    if before.contains_key(peer) {
        match before[peer] {
            ConnectionEntry::Session(s) => {
                &&& disconnected == !capable_without(s, protocol@)
                &&& disconnected ==> after == before.remove(peer)
                &&& !disconnected ==> {
                    &&& after == before.insert(peer, after[peer])
                    &&& after[peer] matches ConnectionEntry::Session(t)
                    &&& t.info == s.info
                    &&& t.disabled@ == s.disabled@.push(protocol)
                }
            },
            ConnectionEntry::Handshake(_) => !disconnected && after == before,
        }
    } else {
        !disconnected && after == before
    }
}

/// Tells whether a packet of the protocol can go to the peer.
pub fn can_reach(connections: &ConnectionTable, peer: PeerId, protocol: ProtocolId) -> (yes: bool)
    requires
        connections.wf(),
    ensures
        yes == reachable(connections@, peer, protocol@),
{
    match connections.get(peer) {
        Some(ConnectionEntry::Session(s)) => !is_listed(&s.disabled, protocol),
        _ => false,
    }
}

impl<'s> NetworkContext<'s> {
    /// The connections by token.
    pub open spec fn peers(&self) -> Map<usize, ConnectionEntry> {
        self.connections@
    }

    /// Create a new network IO access point. Takes references to all the data that can be updated
    /// within the IO handler.
    pub fn new(
        protocol: ProtocolId,
        session: Option<StreamToken>,
        connections: &'s mut ConnectionTable,
        timers: &'s mut HashMap<TimerToken, ProtocolId>,
    ) -> (context: NetworkContext<'s>)
        ensures
            context.protocol == protocol,
            context.session == session,
            *context.connections == *old(connections),
            *context.timers == *old(timers),
            *final(context.connections) == *final(connections),
            *final(context.timers) == *final(timers),
    {
        NetworkContext { protocol, session, connections, timers }
    }

    /// Send a packet over the network to another peer. There is a packet to be sent if there is a
    /// session with the peer in which the protocol is not disabled.
    pub fn send(&self, peer: PeerId, packet_id: PacketId, data: Vec<u8>) -> (packet: Result<
        Option<OutgoingPacket>,
        UtilError,
    >)
        requires
            self.connections.wf(),
        ensures
            packet == Ok::<Option<OutgoingPacket>, UtilError>(
                packet_for(self.peers(), peer, self.protocol, packet_id, data),
            ),
    {
        if can_reach(&*self.connections, peer, self.protocol) {
            Ok(Some(OutgoingPacket { peer, protocol: self.protocol, packet_id, data }))
        } else {
            Ok(None)
        }
    }

    /// Respond to a current network message. There has to be a packet in the context, and so a
    /// session that it came from.
    pub fn respond(&self, packet_id: PacketId, data: Vec<u8>) -> (packet: Result<
        Option<OutgoingPacket>,
        UtilError,
    >)
        requires
            self.connections.wf(),
            self.session is Some,
        ensures
            packet == Ok::<Option<OutgoingPacket>, UtilError>(
                packet_for(self.peers(), self.session->0, self.protocol, packet_id, data),
            ),
    {
        self.send(self.session.unwrap(), packet_id, data)
    }

    /// Disable current protocol capability for given peer. If no capabilities left peer gets
    /// disconnected: it is removed, and the result is true.
    pub fn disable_peer(&mut self, peer: PeerId) -> (disconnected: bool)
        requires
            old(self).connections.wf(),
        ensures
            final(self).connections.wf(),
            final(self).protocol == old(self).protocol,
            final(self).session == old(self).session,
            *final(self).timers == *old(self).timers,
            *final(final(self).connections) == *final(old(self).connections),
            *final(final(self).timers) == *final(old(self).timers),
            final(self).connections.free() == (if disconnected {
                seq![peer] + old(self).connections.free()
            } else {
                old(self).connections.free()
            }),
            peer_disabled(
                old(self).connections@,
                peer,
                old(self).protocol,
                disconnected,
                final(self).connections@,
            ),
    {
        let ghost before = self.connections@;
        let protocol = self.protocol;
        let mut left = true;
        match self.connections.get_mut(peer) {
            Some(ConnectionEntry::Session(s)) => {
                let ghost was = *s;
                s.disabled.push(protocol);
                left = s.have_any_capability();
                proof {
                    lemma_disabled(was, *s, protocol);
                }
            },
            _ => {},
        }
        if !left {
            self.connections.remove(peer);
            assert(self.connections@ =~= before.remove(peer));
            true
        } else {
            proof {
                let after = self.connections@;
                if before.contains_key(peer) {
                    assert(after =~= before.insert(peer, after[peer]));
                    if before[peer] is Handshake {
                        assert(after =~= before);
                    }
                }
            }
            false
        }
    }

    /// Register a new IO timer: this is what to ask the event loop for. Report what came of it
    /// with [`NetworkContext::timer_registered`].
    pub fn register_timer(&self, ms: u64) -> (request: TimerRequest)
        ensures
            request == timer_request(self.protocol, ms),
    {
        TimerRequest { ms, protocol: self.protocol }
    }

    /// The event loop answered a request for a timer. Returns a new timer token. The timeout will
    /// be handed to the handler of the protocol.
    pub fn timer_registered(&mut self, answer: Result<TimerToken, UtilError>) -> (token: Result<
        TimerToken,
        UtilError,
    >)
        ensures
            token == answer,
            final(self).protocol == old(self).protocol,
            final(self).session == old(self).session,
            *final(self).connections == *old(self).connections,
            *final(final(self).connections) == *final(old(self).connections),
            *final(final(self).timers) == *final(old(self).timers),
            final(self).timers@ == timers_after(old(self).timers@, old(self).protocol, answer),
    {
        broadcast use vstd::std_specs::hash::group_hash_axioms;

        match answer {
            Ok(token) => {
                self.timers.insert(token, self.protocol);
                Ok(token)
            },
            Err(e) => Err(e),
        }
    }

    /// Returns peer identification string
    pub fn peer_info(&self, peer: PeerId) -> (text: String)
        requires
            self.connections.wf(),
        ensures
            text@ == peer_text(self.peers(), peer),
    {
        match self.connections.get(peer) {
            Some(ConnectionEntry::Session(s)) => s.info.client_version.clone(),
            _ => "unknown".to_string(),
        }
    }
}

/// What is left once a protocol is disabled.
proof fn lemma_disabled(before: SessionEntry, after: SessionEntry, protocol: ProtocolId)
    requires
        after.info == before.info,
        after.disabled@ == before.disabled@.push(protocol),
    ensures
        after.has_any_capability() == capable_without(before, protocol@),
{
    assert forall|p: Seq<char>| #[trigger]
        listed(after.disabled@, p) == (listed(before.disabled@, p) || p == protocol@) by {
        if listed(before.disabled@, p) {
            let i = choose|i: int|
                0 <= i < before.disabled@.len() && (#[trigger] before.disabled@[i])@ == p;
            assert(after.disabled@[i]@ == p);
        }
        if p == protocol@ {
            assert(after.disabled@[before.disabled@.len() as int]@ == p);
        }
        if listed(after.disabled@, p) && p != protocol@ {
            let i = choose|i: int|
                0 <= i < after.disabled@.len() && (#[trigger] after.disabled@[i])@ == p;
            assert(before.disabled@[i]@ == p);
        }
    }
    if capable_without(before, protocol@) {
        let i = choose|i: int|
            0 <= i < before.info.capabilities@.len() && before.capable(
                (#[trigger] before.info.capabilities@[i])@,
            ) && before.info.capabilities@[i]@ != protocol@;
        assert(after.capable(after.info.capabilities@[i]@));
    }
    if after.has_any_capability() {
        let i = choose|i: int|
            0 <= i < after.info.capabilities@.len() && after.capable(
                (#[trigger] after.info.capabilities@[i])@,
            );
        assert(before.capable(before.info.capabilities@[i]@));
    }
}

} // verus!
