use network_host::action::{
    Action, ConnectDecision, HandlerEvent, HandshakeOutcome, NetworkIoMessage, OutgoingPacket,
    SessionData, UtilError,
};
use network_host::connection::{ConnectionEntry, HandshakeInfo, SessionInfo};
use network_host::hash::{KeyPair, H256, H512};
use network_host::host::Host;
use network_host::node::{IpAddress, Node, PeerType, SocketAddress};
use network_host::tokens::{IDLE, NODETABLE_MAINTAIN, NODETABLE_RECEIVE, TCP_ACCEPT};

fn id(n: u8) -> H512 {
    H512 { bytes: [n; 64] }
}

fn new_host() -> Host {
    let keys = KeyPair { secret: H256 { bytes: [7; 32] }, public: H512 { bytes: [9; 64] } };
    Host::new(keys, H256 { bytes: [0; 32] })
}

fn node(n: u8, peer_type: PeerType) -> Node {
    let address = SocketAddress { ip: IpAddress::V4([10, 0, 0, n]), port: 30303 };
    Node { id: id(n), address, peer_type, last_attempted: None }
}

fn info(n: u8, capabilities: Vec<&'static str>, ready: bool) -> SessionInfo {
    SessionInfo { id: id(n), client_version: "peer".to_string(), capabilities, ready }
}

fn add_handshake(host: &mut Host, n: u8) -> usize {
    host.add_handshake(&id(n)).unwrap().token
}

fn add_session(host: &mut Host, n: u8, capabilities: Vec<&'static str>, ready: bool) -> usize {
    let token = add_handshake(host, n);
    let actions = host.start_session(token, Ok(info(n, capabilities, ready)));
    assert_eq!(actions, vec![Action::Reregister { token }]);
    token
}

fn told(protocol: &'static str, event: HandlerEvent) -> Action {
    Action::Notify { protocol, session: None, event }
}

fn two_handlers() -> Host {
    let mut host = new_host();
    host.add_handler("eth", &vec![62, 63]);
    host.add_handler("shh", &vec![2]);
    host
}

#[test]
fn start_listens_and_adds_nodes() {
    let mut host = new_host();
    assert_eq!(host.info().listen_port, 0);
    let actions = host.initialize();
    assert_eq!(host.info().listen_port, 30304);
    assert_eq!(actions.len(), 10);
    assert_eq!(actions[0], Action::ListenTcp { token: 33 });
    assert_eq!(actions[1], Action::SetTimer { timer: 34, ms: 1000 });
    assert_eq!(actions[2], Action::ListenUdp { token: 35 });
    assert_eq!(actions[3], Action::SetTimer { timer: 36, ms: 7200 });
    let ends = [
        "a0@127.0.0.1:30303",
        "@gav.ethdev.com:30300",
        "@gav.ethdev.com:30303",
        "@52.16.188.185:30303",
        "@54.207.93.166:30303",
        "@92.51.165.126:30303",
    ];
    for i in 0..6 {
        match &actions[4 + i] {
            Action::AddNode { enode } => {
                assert!(enode.starts_with("enode://"));
                assert!(enode.ends_with(ends[i]));
                assert_eq!(enode.find('@'), Some(8 + 128));
            },
            _ => panic!("not a node"),
        }
    }
}

#[test]
fn handshake_uses_token_and_nonce() {
    let mut host = new_host();
    let before = host.info().nonce;
    let handshake = host.add_handshake(&id(1)).unwrap();
    assert_eq!(handshake.token, 48);
    assert_eq!(handshake.id, id(1));
    assert_eq!(handshake.nonce, before.sha3());
    assert_eq!(host.info().nonce, handshake.nonce);
    assert!(host.connecting_to(&id(1)));
}

#[test]
fn full_host_refuses_but_uses_up_the_nonce() {
    let mut host = new_host();
    for _ in 0..1024 {
        add_handshake(&mut host, 1);
    }
    let before = host.info().nonce;
    assert!(host.add_handshake(&id(2)).is_none());
    assert_eq!(host.info().nonce, before.sha3());
    assert!(!host.connecting_to(&id(2)));
}

#[test]
fn readable_connections_are_read() {
    let mut host = new_host();
    let pending = add_handshake(&mut host, 1);
    let open = add_session(&mut host, 2, vec![], false);
    assert_eq!(host.stream_readable(pending), vec![Action::ReadHandshake { token: pending }]);
    assert_eq!(host.stream_readable(open), vec![Action::ReadSession { token: open }]);
    assert_eq!(host.stream_readable(900), vec![]);
    assert_eq!(host.stream_readable(NODETABLE_RECEIVE), vec![]);
    assert_eq!(host.stream_readable(TCP_ACCEPT), vec![]);
}

#[test]
fn writable_connections_are_written() {
    let mut host = new_host();
    let pending = add_handshake(&mut host, 1);
    let open = add_session(&mut host, 2, vec![], false);
    assert_eq!(host.stream_writable(pending), vec![Action::WriteHandshake { token: pending }]);
    assert_eq!(host.stream_writable(open), vec![Action::WriteSession { token: open }]);
    assert_eq!(host.stream_writable(900), vec![]);
}

#[test]
fn handshake_goes_on_ends_or_becomes_a_session() {
    let mut host = new_host();
    let token = add_handshake(&mut host, 1);
    let step = |done: bool, result: Result<(), UtilError>| HandshakeOutcome {
        info: HandshakeInfo { id: id(5) },
        done,
        result,
    };
    assert_eq!(host.handshake_advanced(token, step(false, Ok(()))), vec![]);
    assert!(host.connecting_to(&id(5)));
    assert_eq!(
        host.handshake_advanced(token, step(true, Ok(()))),
        vec![Action::StartSession { token }],
    );
    assert_eq!(
        host.handshake_advanced(token, step(true, Err(UtilError::Protocol))),
        vec![Action::Forget { token }],
    );
}

#[test]
fn session_takes_over_the_token() {
    let mut host = new_host();
    add_handshake(&mut host, 1);
    let token = add_session(&mut host, 2, vec!["eth"], false);
    assert_eq!(token, 49);
    assert!(host.have_session(&id(2)));
    assert!(!host.connecting_to(&id(2)));
    assert_eq!(add_handshake(&mut host, 3), 50);
}

#[test]
fn failed_session_frees_the_token() {
    let mut host = new_host();
    let token = add_handshake(&mut host, 1);
    assert_eq!(host.start_session(token, Err(UtilError::Io)), vec![]);
    assert!(host.connection(token).is_none());
    assert_eq!(add_handshake(&mut host, 2), token);
}

#[test]
fn ready_session_is_announced_to_capable_handlers() {
    let mut host = two_handlers();
    let token = add_session(&mut host, 1, vec![], false);
    let actions = host.session_read(token, info(1, vec!["shh", "bzz"], true), Ok(SessionData::Ready));
    assert_eq!(
        actions,
        vec![
            told("shh", HandlerEvent::Connected { peer: token }),
            Action::Reregister { token },
        ],
    );
}

#[test]
fn packet_goes_to_its_handler_without_the_id() {
    let mut host = two_handlers();
    let token = add_session(&mut host, 1, vec!["eth"], true);
    let data = SessionData::Packet { data: vec![9, 1, 2], protocol: "eth", packet_id: 9 };
    let actions = host.session_read(token, info(1, vec!["eth"], true), Ok(data));
    let event = HandlerEvent::Read { peer: token, packet_id: 9, data: vec![1, 2] };
    let delivered = Action::Notify { protocol: "eth", session: Some(token), event };
    assert_eq!(actions, vec![delivered, Action::Reregister { token }]);
}

#[test]
fn packets_go_to_handlers_of_open_sessions() {
    let mut host = two_handlers();
    let pending = add_handshake(&mut host, 1);
    let open = add_session(&mut host, 2, vec!["eth"], true);
    assert!(host.delivers(open, "eth"));
    assert!(!host.delivers(open, "bzz"));
    assert!(!host.delivers(pending, "eth"));
    assert!(host.in_session(open));
    assert!(!host.in_session(pending));
    assert!(!host.in_session(900));
}

#[test]
fn packet_without_handler_is_dropped() {
    let mut host = two_handlers();
    let token = add_session(&mut host, 1, vec!["bzz"], true);
    let data = SessionData::Packet { data: vec![], protocol: "bzz", packet_id: 9 };
    let actions = host.session_read(token, info(1, vec!["bzz"], true), Ok(data));
    assert_eq!(actions, vec![Action::Reregister { token }]);
}

#[test]
fn nothing_read_goes_on() {
    let mut host = two_handlers();
    let token = add_session(&mut host, 1, vec!["eth"], true);
    let actions = host.session_read(token, info(1, vec!["eth"], true), Ok(SessionData::Nothing));
    assert_eq!(actions, vec![Action::Reregister { token }]);
}

#[test]
fn failed_read_ends_a_ready_session() {
    let mut host = two_handlers();
    let token = add_session(&mut host, 1, vec!["eth", "shh"], true);
    let actions =
        host.session_read(token, info(1, vec!["eth", "shh"], true), Err(UtilError::Io));
    assert_eq!(
        actions,
        vec![
            told("eth", HandlerEvent::Disconnected { peer: token }),
            told("shh", HandlerEvent::Disconnected { peer: token }),
            Action::Forget { token },
        ],
    );
}

#[test]
fn write_goes_on_or_ends_the_session() {
    let mut host = two_handlers();
    let token = add_session(&mut host, 1, vec!["eth"], false);
    assert_eq!(
        host.session_written(token, info(1, vec!["eth"], false), Ok(())),
        vec![Action::Reregister { token }],
    );
    assert_eq!(
        host.session_written(token, info(1, vec!["eth"], false), Err(UtilError::Io)),
        vec![Action::Forget { token }],
    );
    assert_eq!(
        host.session_written(token, info(1, vec!["eth"], true), Err(UtilError::Io)),
        vec![
            told("eth", HandlerEvent::Disconnected { peer: token }),
            Action::Forget { token },
        ],
    );
}

#[test]
fn hup_ends_connections_only() {
    let mut host = two_handlers();
    let pending = add_handshake(&mut host, 1);
    let open = add_session(&mut host, 2, vec!["shh"], true);
    assert_eq!(host.stream_hup(pending), vec![Action::Forget { token: pending }]);
    assert_eq!(
        host.stream_hup(open),
        vec![
            told("shh", HandlerEvent::Disconnected { peer: open }),
            Action::Forget { token: open },
        ],
    );
    assert_eq!(host.stream_hup(TCP_ACCEPT), vec![]);
}

#[test]
fn removed_connection_is_gone() {
    let mut host = two_handlers();
    let open = add_session(&mut host, 2, vec!["shh"], true);
    assert!(matches!(host.remove_connection(open), Some(ConnectionEntry::Session(_))));
    assert!(host.connection(open).is_none());
    assert!(!host.have_session(&id(2)));
    assert_eq!(host.kill_connection(open), vec![Action::Forget { token: open }]);
    assert_eq!(add_handshake(&mut host, 4), open);
}

#[test]
fn connection_timeout_ends_it() {
    let mut host = two_handlers();
    let open = add_session(&mut host, 2, vec!["eth"], true);
    assert_eq!(host.timeout(open), host.stream_hup(open));
    assert_eq!(host.timeout(NODETABLE_MAINTAIN), vec![]);
}

#[test]
fn handler_timer_comes_back_to_the_handler() {
    let mut host = two_handlers();
    let answer = host.context("shh", None).timer_registered(Ok(4000));
    assert_eq!(answer, Ok(4000));
    assert!(host.has_timer(4000));
    assert!(!host.has_timer(4001));
    assert_eq!(
        host.timeout(4000),
        vec![told("shh", HandlerEvent::Timeout { timer: 4000 })],
    );
}

#[test]
fn timer_without_handler_is_ignored() {
    let mut host = two_handlers();
    host.context("bzz", None).timer_registered(Ok(4000)).unwrap();
    assert_eq!(host.timeout(4000), vec![]);
}

#[test]
fn disabled_protocol_hears_nothing_more() {
    let mut host = two_handlers();
    let open = add_session(&mut host, 2, vec!["eth", "shh"], true);
    assert!(!host.context("eth", Some(open)).disable_peer(open));
    assert_eq!(
        host.kill_connection(open),
        vec![
            told("shh", HandlerEvent::Disconnected { peer: open }),
            Action::Forget { token: open },
        ],
    );
    let data = SessionData::Packet { data: vec![9, 1], protocol: "eth", packet_id: 9 };
    let actions = host.session_read(open, info(2, vec!["eth", "shh"], true), Ok(data));
    assert_eq!(actions, vec![Action::Reregister { token: open }]);
}

#[test]
fn nodes_are_replaced_by_identifier() {
    let mut host = new_host();
    host.add_node(Ok(node(1, PeerType::Optional)));
    host.add_node(Ok(node(2, PeerType::Optional)));
    host.add_node(Ok(node(1, PeerType::Required)));
    host.add_node(Err(UtilError::Address));
    assert_eq!(host.nodes().len(), 2);
    assert_eq!(host.nodes()[0].id, id(1));
    assert_eq!(host.nodes()[0].peer_type, PeerType::Required);
    assert!(host.has_node(&id(2)));
    assert!(!host.has_node(&id(3)));
}

#[test]
fn maintenance_connects_required_nodes_first() {
    let mut host = new_host();
    host.add_node(Ok(node(1, PeerType::Optional)));
    host.add_node(Ok(node(2, PeerType::Required)));
    host.add_node(Ok(node(3, PeerType::Optional)));
    host.add_node(Ok(node(4, PeerType::Required)));
    add_handshake(&mut host, 3);
    add_session(&mut host, 4, vec![], false);
    assert_eq!(host.connect_peers(), vec![id(2), id(1)]);
    assert_eq!(
        host.timeout(IDLE),
        vec![
            Action::ConnectPeer { id: id(2) },
            Action::ConnectPeer { id: id(1) },
            Action::SetTimer { timer: IDLE, ms: 1000 },
        ],
    );
}

#[test]
fn ten_required_nodes_are_enough() {
    let mut host = new_host();
    for n in 1..16 {
        host.add_node(Ok(node(n, PeerType::Required)));
    }
    add_handshake(&mut host, 3);
    let ids = host.connect_peers();
    assert_eq!(ids.len(), 9);
    assert!(!ids.contains(&id(3)));
    assert_eq!(ids[8], id(10));
}

#[test]
fn optional_nodes_fill_the_open_slots() {
    let mut host = new_host();
    for n in 1..31 {
        host.add_node(Ok(node(n, PeerType::Optional)));
    }
    assert_eq!(host.connect_peers().len(), 10);
    host.add_node(Ok(node(40, PeerType::Required)));
    host.add_node(Ok(node(41, PeerType::Required)));
    add_handshake(&mut host, 41);
    let ids = host.connect_peers();
    assert_eq!(ids.len(), 1 + 12);
    assert_eq!(ids[0], id(40));
    assert_eq!(ids[1], id(1));
    assert_eq!(ids[12], id(12));
}

#[test]
fn few_nodes_are_countable() {
    let mut host = new_host();
    assert!(host.countable());
    host.add_node(Ok(node(1, PeerType::Required)));
    host.info_mut().config.pin = true;
    assert!(host.countable());
}

#[test]
fn pinned_host_connects_to_required_nodes_only() {
    let mut host = new_host();
    host.info_mut().config.pin = true;
    host.add_node(Ok(node(1, PeerType::Optional)));
    host.add_node(Ok(node(2, PeerType::Required)));
    assert_eq!(host.connect_peers(), vec![id(2)]);
}

#[test]
fn node_is_dialed_once() {
    let mut host = new_host();
    host.add_node(Ok(node(1, PeerType::Required)));
    assert_eq!(host.connect_peer(&id(1)), ConnectDecision::Dial(node(1, PeerType::Required).address));
    assert!(host.nodes()[0].last_attempted.is_some());
    let token = add_handshake(&mut host, 1);
    assert_eq!(host.connect_peer(&id(1)), ConnectDecision::AlreadyConnecting);
    host.start_session(token, Ok(info(1, vec![], false)));
    assert_eq!(host.connect_peer(&id(1)), ConnectDecision::AlreadyConnected);
    assert_eq!(host.connect_peers(), vec![]);
}

#[test]
fn attempt_is_remembered_with_its_time() {
    let mut host = new_host();
    host.add_node(Ok(node(1, PeerType::Required)));
    host.add_node(Ok(node(2, PeerType::Required)));
    let now = time::empty_tm();
    host.connect_peer_at(&id(2), now);
    assert!(host.nodes()[0].last_attempted.is_none());
    assert_eq!(host.nodes()[1].last_attempted, Some(now));
}

#[test]
fn attempt_gets_the_current_time() {
    let mut host = new_host();
    host.add_node(Ok(node(1, PeerType::Required)));
    let earliest = time::get_time().sec;
    host.connect_peer(&id(1));
    let latest = time::get_time().sec;
    let attempted = host.nodes()[0].last_attempted.unwrap().to_timespec().sec;
    assert!(earliest <= attempted && attempted <= latest);
}

#[test]
fn handler_message_initializes_and_installs() {
    let host = new_host();
    let mut message: NetworkIoMessage<u8, u16> =
        NetworkIoMessage::AddHandler { handler: Some(77), protocol: "eth", versions: vec![62] };
    let (handler, actions) = host.message(&mut message);
    assert_eq!(handler, Some(77));
    assert_eq!(
        actions,
        vec![
            Action::Notify { protocol: "eth", session: None, event: HandlerEvent::Initialize },
            Action::Install { protocol: "eth", versions: vec![62] },
        ],
    );
    assert!(matches!(message, NetworkIoMessage::AddHandler { handler: None, .. }));
}

#[test]
fn handler_adds_capabilities() {
    let mut host = two_handlers();
    host.add_handler("eth", &vec![64]);
    let versions: Vec<(&str, u8)> =
        host.info().capabilities.iter().map(|c| (c.protocol, c.version)).collect();
    assert_eq!(versions, vec![("eth", 62), ("eth", 63), ("shh", 2), ("eth", 64)]);
    let mut message: NetworkIoMessage<u8, u16> = NetworkIoMessage::User(1);
    assert_eq!(host.message(&mut message).1.len(), 2);
}

#[test]
fn send_message_needs_a_session() {
    let mut host = two_handlers();
    let pending = add_handshake(&mut host, 1);
    let open = add_session(&mut host, 2, vec!["eth"], true);
    let send = |peer: usize| -> NetworkIoMessage<u8, u16> {
        NetworkIoMessage::Send { peer, packet_id: 4, protocol: "eth", data: vec![5] }
    };
    let packet = OutgoingPacket { peer: open, protocol: "eth", packet_id: 4, data: vec![5] };
    assert_eq!(host.message(&mut send(open)), (None, vec![Action::Send(packet)]));
    assert_eq!(host.message(&mut send(pending)), (None, vec![]));
    assert_eq!(host.message(&mut send(7)), (None, vec![]));
}

#[test]
fn user_message_goes_to_every_handler() {
    let host = two_handlers();
    let mut message: NetworkIoMessage<u8, u16> = NetworkIoMessage::User(1);
    let (handler, actions) = host.message(&mut message);
    assert_eq!(handler, None);
    let heard = |protocol: &'static str| Action::Notify {
        protocol,
        session: None,
        event: HandlerEvent::Message,
    };
    assert_eq!(actions, vec![heard("eth"), heard("shh")]);
}
