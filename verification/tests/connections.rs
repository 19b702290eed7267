use network_host::action::{OutgoingPacket, TimerRequest, UtilError};
use network_host::connection::{
    ConnectionEntry, ConnectionTable, HandshakeInfo, SessionEntry, SessionInfo,
};
use network_host::context::NetworkContext;
use network_host::hash::H512;
use network_host::protocols::{is_listed, same_protocol};
use network_host::tokens::{is_connection_token, FIRST_CONNECTION, LAST_CONNECTION};
use std::collections::HashMap;

fn id(n: u8) -> H512 {
    H512 { bytes: [n; 64] }
}

fn handshake(n: u8) -> ConnectionEntry {
    ConnectionEntry::Handshake(HandshakeInfo { id: id(n) })
}

fn session(n: u8, capabilities: Vec<&'static str>) -> ConnectionEntry {
    let info =
        SessionInfo { id: id(n), client_version: "peer".to_string(), capabilities, ready: true };
    ConnectionEntry::Session(SessionEntry { info, disabled: Vec::new() })
}

fn insert(table: &mut ConnectionTable, entry: ConnectionEntry) -> usize {
    match table.insert(entry) {
        Ok(token) => token,
        Err(_) => panic!("table is full"),
    }
}

#[test]
fn tokens_of_connections() {
    assert_eq!(FIRST_CONNECTION, 48);
    assert_eq!(LAST_CONNECTION, 1071);
    assert!(!is_connection_token(47));
    assert!(is_connection_token(48));
    assert!(is_connection_token(1071));
    assert!(!is_connection_token(1072));
}

#[test]
fn protocols_are_compared_as_text() {
    assert!(same_protocol("eth", "eth"));
    assert!(!same_protocol("eth", "etc"));
    assert!(!same_protocol("eth", "ethx"));
    assert!(is_listed(&vec!["bzz", "eth"], "eth"));
    assert!(!is_listed(&vec!["bzz", "eth"], "shh"));
}

#[test]
fn connections_get_ascending_tokens() {
    let mut table = ConnectionTable::new();
    assert_eq!(insert(&mut table, handshake(1)), 48);
    assert_eq!(insert(&mut table, handshake(2)), 49);
    assert!(matches!(table.get(48), Some(ConnectionEntry::Handshake(h)) if h.id == id(1)));
    assert!(matches!(table.get(49), Some(ConnectionEntry::Handshake(h)) if h.id == id(2)));
    assert!(table.get(50).is_none());
    assert!(table.get(0).is_none());
    assert!(table.get(5000).is_none());
    assert!(table.get_mut(5000).is_none());
}

#[test]
fn removed_token_is_used_next() {
    let mut table = ConnectionTable::new();
    for n in 0..4 {
        insert(&mut table, handshake(n));
    }
    assert!(matches!(table.remove(49), Some(ConnectionEntry::Handshake(h)) if h.id == id(1)));
    assert!(table.get(49).is_none());
    assert!(table.remove(50).is_some());
    assert_eq!(insert(&mut table, handshake(7)), 50);
    assert_eq!(insert(&mut table, handshake(8)), 49);
    assert_eq!(insert(&mut table, handshake(9)), 52);
}

#[test]
fn table_is_full_at_the_limit() {
    let mut table = ConnectionTable::new();
    for expected in 48..1072 {
        assert_eq!(insert(&mut table, handshake(1)), expected);
    }
    assert!(matches!(table.insert(handshake(2)), Err(ConnectionEntry::Handshake(h)) if h.id == id(2)));
    assert!(table.remove(500).is_some());
    assert_eq!(insert(&mut table, handshake(3)), 500);
}

#[test]
fn entries_change_in_place() {
    let mut table = ConnectionTable::new();
    let token = insert(&mut table, handshake(1));
    if let Some(entry) = table.get_mut(token) {
        *entry = session(1, vec!["eth"]);
    }
    assert!(matches!(table.get(token), Some(ConnectionEntry::Session(_))));
}

#[test]
fn sessions_and_handshakes_are_told_apart() {
    let mut table = ConnectionTable::new();
    insert(&mut table, handshake(1));
    insert(&mut table, session(2, vec![]));
    assert!(table.connecting_to(&id(1)));
    assert!(!table.have_session(&id(1)));
    assert!(table.have_session(&id(2)));
    assert!(!table.connecting_to(&id(2)));
    assert!(!table.have_session(&id(3)));
    assert!(!table.connecting_to(&id(3)));
}

#[test]
fn only_sessions_can_be_sent_to() {
    let mut table = ConnectionTable::new();
    let mut timers = HashMap::new();
    let open = insert(&mut table, session(1, vec!["eth"]));
    let pending = insert(&mut table, handshake(2));
    let context = NetworkContext::new("eth", Some(open), &mut table, &mut timers);
    let packet = OutgoingPacket { peer: open, protocol: "eth", packet_id: 3, data: vec![1, 2] };
    assert_eq!(context.send(open, 3, vec![1, 2]), Ok(Some(packet)));
    assert_eq!(context.send(pending, 3, vec![1, 2]), Ok(None));
    assert_eq!(context.send(99, 3, vec![1, 2]), Ok(None));
}

#[test]
fn respond_goes_to_the_session_of_the_context() {
    let mut table = ConnectionTable::new();
    let mut timers = HashMap::new();
    insert(&mut table, handshake(2));
    let open = insert(&mut table, session(1, vec!["eth"]));
    let context = NetworkContext::new("eth", Some(open), &mut table, &mut timers);
    let packet = OutgoingPacket { peer: open, protocol: "eth", packet_id: 0, data: vec![] };
    assert_eq!(context.respond(0, vec![]), Ok(Some(packet)));
}

#[test]
fn peers_are_described() {
    let mut table = ConnectionTable::new();
    let mut timers = HashMap::new();
    let open = insert(&mut table, session(1, vec!["eth"]));
    let pending = insert(&mut table, handshake(2));
    let context = NetworkContext::new("eth", None, &mut table, &mut timers);
    assert_eq!(context.peer_info(open), "peer");
    assert_eq!(context.peer_info(pending), "unknown");
    assert_eq!(context.peer_info(0), "unknown");
}

#[test]
fn disabled_protocol_is_not_sent() {
    let mut table = ConnectionTable::new();
    let mut timers = HashMap::new();
    let open = insert(&mut table, session(1, vec!["eth", "shh"]));
    {
        let mut context = NetworkContext::new("eth", None, &mut table, &mut timers);
        assert!(!context.disable_peer(open));
        assert_eq!(context.send(open, 1, vec![]), Ok(None));
    }
    let context = NetworkContext::new("shh", None, &mut table, &mut timers);
    assert!(matches!(context.send(open, 1, vec![]), Ok(Some(_))));
}

#[test]
fn peer_without_capabilities_is_disconnected() {
    let mut table = ConnectionTable::new();
    let mut timers = HashMap::new();
    let open = insert(&mut table, session(1, vec!["eth", "shh"]));
    {
        let mut context = NetworkContext::new("eth", None, &mut table, &mut timers);
        assert!(!context.disable_peer(open));
        assert!(!context.disable_peer(open));
    }
    {
        let mut context = NetworkContext::new("shh", None, &mut table, &mut timers);
        assert!(context.disable_peer(open));
        assert!(!context.disable_peer(open));
    }
    assert!(table.get(open).is_none());
}

#[test]
fn handshake_cannot_be_disabled() {
    let mut table = ConnectionTable::new();
    let mut timers = HashMap::new();
    let pending = insert(&mut table, handshake(1));
    let mut context = NetworkContext::new("eth", None, &mut table, &mut timers);
    assert!(!context.disable_peer(pending));
    assert!(matches!(table.get(pending), Some(ConnectionEntry::Handshake(_))));
}

#[test]
fn timers_are_remembered_with_their_protocol() {
    let mut table = ConnectionTable::new();
    let mut timers = HashMap::new();
    let mut context = NetworkContext::new("eth", None, &mut table, &mut timers);
    assert_eq!(context.register_timer(250), TimerRequest { ms: 250, protocol: "eth" });
    assert_eq!(context.timer_registered(Ok(2000)), Ok(2000));
    assert_eq!(context.timer_registered(Err(UtilError::Io)), Err(UtilError::Io));
    assert_eq!(timers.len(), 1);
    assert_eq!(timers.get(&2000), Some(&"eth"));
}
