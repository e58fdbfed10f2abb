use splinter::client::{Position, SplinterClient, SplinterServerConnection, KEEP_ALIVE_CAPACITY};
use splinter::commands::kick_command;
use splinter::error::SplinterError;
use splinter::kick::ClientKickReason;
use splinter::lifecycle::{
    complete_login, handle_client_login, handle_client_status, handle_handshake,
    improper_version_disconnect, status_event, status_pong, status_response, HandshakeRoute,
    LoginStep, StatusAction, StatusEvent, StatusState,
};
use splinter::packet::{HandshakeNextState, LazyDeserializedPacket, Packet, PacketKind, RawFrame, WriteOp};
use splinter::playersave::{PlInfo, PlInfoPlayer};
use splinter::proxy::{SplinterConfig, SplinterProxy};
use splinter::version::{PacketSchema, ProtocolVersion};
use splinter::zoning::{Zone, Zoner};

fn config() -> SplinterConfig {
    SplinterConfig {
        proxy_address: "127.0.0.1:25565".to_string(),
        simulation_servers: vec![
            (0, "127.0.0.1:25400".to_string()),
            (1, "127.0.0.1:25401".to_string()),
        ],
        server_status: "{\"description\":\"splinter\"}".to_string(),
        improper_version_disconnect_message: "Your client version is not supported".to_string(),
    }
}

fn proxy() -> SplinterProxy {
    SplinterProxy::new(config(), PlInfo::new())
}

fn handshake(version: i32, next_state: HandshakeNextState) -> Packet {
    Packet::Handshake { version, next_state }
}

#[test]
fn status_probe_unknown_version() {
    let first = handshake(1, HandshakeNextState::Status);
    let route = handle_handshake(Some(&first));
    assert_eq!(
        route,
        HandshakeRoute::Status { schema: PacketSchema::S753, unsupported: Some(1) }
    );
    let mut sent = vec![status_response(&config())];
    let mut state = StatusState::Serving;
    let reads = vec![Some(Packet::StatusRequest), Some(Packet::StatusPing { payload: 42 })];
    for read in &reads {
        let (next, action) = handle_client_status(state, status_event(read.as_ref()));
        state = next;
        match action {
            StatusAction::Pong(payload) => sent.push(status_pong(payload)),
            StatusAction::Nothing | StatusAction::Report(_) | StatusAction::Close => {}
        }
    }
    assert_eq!(
        sent,
        vec![
            Packet::StatusResponse { response: "{\"description\":\"splinter\"}".to_string() },
            Packet::StatusPong { payload: 42 },
        ]
    );
    assert_eq!(state, StatusState::Closed);
    assert!(!sent.iter().any(|p| p.kind() == PacketKind::LoginDisconnect));
    assert_eq!(route.error(), Some(SplinterError::UnsupportedVersion(1)));
}

#[test]
fn status_probe_supported_versions() {
    for (number, schema) in [(753, PacketSchema::S753), (754, PacketSchema::S753), (755, PacketSchema::S755)] {
        let route = handle_handshake(Some(&handshake(number, HandshakeNextState::Status)));
        assert_eq!(route, HandshakeRoute::Status { schema, unsupported: None });
        assert_eq!(route.error(), None);
    }
}

#[test]
fn login_version_1_is_refused() {
    let route = handle_handshake(Some(&handshake(1, HandshakeNextState::Login)));
    assert_eq!(route, HandshakeRoute::Refused { number: 1 });
    assert_eq!(route.error(), Some(SplinterError::UnsupportedVersion(1)));
    assert_eq!(
        improper_version_disconnect(&config()),
        Packet::LoginDisconnect { message: "Your client version is not supported".to_string() }
    );
}

#[test]
fn login_routes_of_supported_versions() {
    assert_eq!(
        handle_handshake(Some(&handshake(753, HandshakeNextState::Login))),
        HandshakeRoute::Login { version: ProtocolVersion::V753 }
    );
    assert_eq!(
        handle_handshake(Some(&handshake(754, HandshakeNextState::Login))),
        HandshakeRoute::Login { version: ProtocolVersion::V754 }
    );
    assert_eq!(
        handle_handshake(Some(&handshake(755, HandshakeNextState::Login))),
        HandshakeRoute::Login { version: ProtocolVersion::V755 }
    );
}

#[test]
fn first_packet_must_be_a_handshake() {
    let route = handle_handshake(Some(&Packet::StatusRequest));
    assert_eq!(route, HandshakeRoute::Invalid);
    assert_eq!(route.error(), Some(SplinterError::ProtocolError));
    assert_eq!(
        handle_handshake(Some(&Packet::LoginStart { name: "alice".to_string() })),
        HandshakeRoute::Invalid
    );
}

#[test]
fn peer_that_closes_at_once_is_no_error() {
    let route = handle_handshake(None);
    assert_eq!(route, HandshakeRoute::Closed);
    assert_eq!(route.error(), None);
}

#[test]
fn status_session_steps() {
    let serving = StatusState::Serving;
    assert_eq!(
        handle_client_status(serving, StatusEvent::Request),
        (StatusState::Serving, StatusAction::Nothing)
    );
    assert_eq!(
        handle_client_status(serving, StatusEvent::Ping(-7)),
        (StatusState::Closed, StatusAction::Pong(-7))
    );
    assert_eq!(
        handle_client_status(serving, StatusEvent::Other(PacketKind::LoginStart)),
        (StatusState::Serving, StatusAction::Report(PacketKind::LoginStart))
    );
    assert_eq!(
        handle_client_status(serving, StatusEvent::Eof),
        (StatusState::Closed, StatusAction::Close)
    );
    for event in [StatusEvent::Request, StatusEvent::Ping(1), StatusEvent::Eof] {
        assert_eq!(
            handle_client_status(StatusState::Closed, event),
            (StatusState::Closed, StatusAction::Nothing)
        );
    }
}

#[test]
fn status_events_of_reads() {
    assert_eq!(status_event(None), StatusEvent::Eof);
    assert_eq!(status_event(Some(&Packet::StatusRequest)), StatusEvent::Request);
    assert_eq!(status_event(Some(&Packet::StatusPing { payload: 3 })), StatusEvent::Ping(3));
    assert_eq!(
        status_event(Some(&Packet::Other { packet_id: 1 })),
        StatusEvent::Other(PacketKind::Other)
    );
}

#[test]
fn login_version_753() {
    let mut proxy = proxy();
    let route = handle_handshake(Some(&handshake(753, HandshakeNextState::Login)));
    let version = match route {
        HandshakeRoute::Login { version } => version,
        other => panic!("unexpected route {:?}", other),
    };
    let start = Packet::LoginStart { name: "alice".to_string() };
    assert_eq!(handle_client_login(&proxy, Some(&start)), LoginStep::Connect(0));
    let order =
        complete_login(&mut proxy, version, "alice".to_string(), 0, 0xabc, Position { x: 0, y: 64, z: 0 })
            .ok()
            .unwrap();
    assert_eq!(order.uuid, 1);
    assert_eq!(order.active_server_id, 0);
    assert!(!order.connect);
    assert_eq!(order.success, Packet::LoginSuccess { uuid: 1, username: "alice".to_string() });
    assert_eq!(proxy.players.len(), 1);
    let client = &proxy.players[0];
    assert_eq!(client.name, "alice");
    assert_eq!(client.uuid, 1);
    assert!(client.alive);
    assert_eq!(client.version, ProtocolVersion::V753);
    assert_eq!(client.active_server_id, 0);
    assert_eq!(client.servers, vec![SplinterServerConnection { id: 0, client_uuid: 0xabc, alive: true }]);
    assert_eq!(client.server().id, 0);
    assert_eq!(proxy.mapping.map_uuid_proxy_to_server(1), Ok((0, 0xabc)));
}

#[test]
fn login_opens_the_backend_that_owns_the_spawn() {
    let mut proxy = proxy();
    let order = complete_login(
        &mut proxy,
        ProtocolVersion::V753,
        "bob".to_string(),
        0,
        5,
        Position { x: 100, y: 64, z: -100 },
    )
    .ok()
    .unwrap();
    assert_eq!(order.active_server_id, 1);
    assert!(order.connect);
    assert_eq!(proxy.players[0].active_server_id, 1);
    assert_eq!(proxy.players[0].server().id, 1);
}

#[test]
fn two_logins_get_fresh_uuids() {
    let mut proxy = proxy();
    let at = Position { x: 0, y: 0, z: 0 };
    let a = complete_login(&mut proxy, ProtocolVersion::V753, "a".to_string(), 0, 10, at).ok().unwrap();
    let b = complete_login(&mut proxy, ProtocolVersion::V754, "b".to_string(), 0, 11, at).ok().unwrap();
    assert_eq!(a.uuid, 1);
    assert_eq!(b.uuid, 2);
    assert_eq!(proxy.players.len(), 2);
}

#[test]
fn login_of_a_live_uuid_is_refused() {
    let mut proxy = proxy();
    let at = Position { x: 0, y: 0, z: 0 };
    complete_login(&mut proxy, ProtocolVersion::V753, "a".to_string(), 0, 10, at).ok().unwrap();
    let again = complete_login(&mut proxy, ProtocolVersion::V753, "a".to_string(), 0, 10, at);
    assert_eq!(again.err(), Some(SplinterError::ProtocolError));
    assert_eq!(proxy.players.len(), 1);
}

#[test]
fn login_fails_where_no_backend_owns_the_spawn() {
    let mut proxy = proxy();
    proxy.zoner = Zoner { zones: vec![(0, Zone::Rectangle { x1: 0, z1: 0, x2: 1, z2: 1 })], default: None };
    let res = complete_login(
        &mut proxy,
        ProtocolVersion::V753,
        "a".to_string(),
        0,
        10,
        Position { x: 5, y: 0, z: 5 },
    );
    assert_eq!(res.err(), Some(SplinterError::Unzoned));
    assert_eq!(proxy.players.len(), 0);
    assert_eq!(proxy.mapping.map_uuid_proxy_to_server(1), Err(SplinterError::NotMapped));
}

#[test]
fn login_fails_where_the_owning_backend_is_not_registered() {
    let mut proxy = proxy();
    proxy.zoner = Zoner { zones: vec![], default: Some(9) };
    let res = complete_login(
        &mut proxy,
        ProtocolVersion::V753,
        "a".to_string(),
        0,
        10,
        Position { x: 5, y: 0, z: 5 },
    );
    assert_eq!(res.err(), Some(SplinterError::UnknownServer(9)));
    assert_eq!(proxy.players.len(), 0);
}

#[test]
fn login_needs_a_login_start() {
    let proxy = proxy();
    assert_eq!(handle_client_login(&proxy, Some(&Packet::StatusRequest)), LoginStep::Reject);
    assert_eq!(handle_client_login(&proxy, None), LoginStep::Reject);
}

#[test]
fn login_needs_a_backend() {
    let mut cfg = config();
    cfg.simulation_servers = vec![];
    let proxy = SplinterProxy::new(cfg, PlInfo::new());
    let start = Packet::LoginStart { name: "alice".to_string() };
    assert_eq!(handle_client_login(&proxy, Some(&start)), LoginStep::NoBackend);
}

#[test]
fn new_proxy_state() {
    let proxy = proxy();
    assert!(proxy.is_alive());
    assert_eq!(proxy.config, config());
    assert!(proxy.players.is_empty());
    assert_eq!(proxy.servers.len(), 2);
    assert_eq!(proxy.servers[0].id, 0);
    assert_eq!(proxy.servers[0].address, "127.0.0.1:25400");
    assert_eq!(proxy.servers[1].id, 1);
    assert!(proxy.has_server(1));
    assert!(!proxy.has_server(2));
    assert!(proxy.tags.is_none());
    assert_eq!(
        proxy.zoner,
        Zoner {
            zones: vec![
                (0, Zone::Rectangle { x1: -4, z1: -4, x2: 4, z2: 4 }),
                (1, Zone::InvertedRectangle { x1: -3, z1: -3, x2: 3, z2: 3 }),
            ],
            default: None,
        }
    );
}

#[test]
fn configured_backend_that_comes_twice_keeps_its_place_and_last_address() {
    let mut cfg = config();
    cfg.simulation_servers = vec![
        (5, "a:1".to_string()),
        (6, "b:2".to_string()),
        (5, "c:3".to_string()),
    ];
    let proxy = SplinterProxy::new(cfg, PlInfo::new());
    assert_eq!(proxy.servers.len(), 2);
    assert_eq!((proxy.servers[0].id, proxy.servers[0].address.as_str()), (5, "c:3"));
    assert_eq!((proxy.servers[1].id, proxy.servers[1].address.as_str()), (6, "b:2"));
}

fn logged_in(names: &[&str]) -> SplinterProxy {
    let mut proxy = proxy();
    for (i, name) in names.iter().enumerate() {
        complete_login(
            &mut proxy,
            ProtocolVersion::V753,
            name.to_string(),
            0,
            100 + i as u128,
            Position { x: i as i32, y: 64, z: -(i as i32) },
        )
        .ok()
        .unwrap();
    }
    proxy
}

#[test]
fn shutdown_kick() {
    let mut proxy = logged_in(&["alice", "bob"]);
    let orders = proxy.shutdown();
    assert_eq!(orders.len(), 2);
    for (order, name) in orders.iter().zip(["alice", "bob"]) {
        assert_eq!(order.client.name, name);
        assert!(!order.client.alive);
        assert_eq!(
            order.packet,
            WriteOp::Encode(Packet::PlayDisconnect { reason: "Server shut down".to_string() })
        );
    }
    assert!(proxy.players.is_empty());
    assert!(!proxy.is_alive());
    assert_eq!(
        proxy.player_data.players,
        vec![
            PlInfoPlayer { uuid: 1, x: 0, y: 64, z: 0, name: "alice".to_string() },
            PlInfoPlayer { uuid: 2, x: 1, y: 64, z: -1, name: "bob".to_string() },
        ]
    );
}

#[test]
fn shutdown_without_clients() {
    let mut proxy = proxy();
    assert!(proxy.shutdown().is_empty());
    assert!(!proxy.is_alive());
    assert!(proxy.player_data.players.is_empty());
}

#[test]
fn kick_removes_the_client_and_keeps_its_position() {
    let mut proxy = logged_in(&["alice", "bob", "carol"]);
    let reason = ClientKickReason::Kicked("console".to_string(), Some("bye".to_string()));
    let order = proxy.kick_client(2, &reason).ok().unwrap();
    assert_eq!(order.client.name, "bob");
    assert!(!order.client.alive);
    assert_eq!(
        order.packet,
        WriteOp::Encode(Packet::PlayDisconnect { reason: "Kicked by console because \"bye\"".to_string() })
    );
    assert_eq!(proxy.players.iter().map(|c| c.uuid).collect::<Vec<_>>(), vec![1, 3]);
    assert_eq!(
        proxy.player_data.players,
        vec![PlInfoPlayer { uuid: 2, x: 1, y: 64, z: -1, name: "bob".to_string() }]
    );
    assert!(proxy.is_alive());
}

#[test]
fn kick_of_an_unknown_client_fails() {
    let mut proxy = logged_in(&["alice"]);
    let res = proxy.kick_client(77, &ClientKickReason::TimedOut);
    assert_eq!(res.err(), Some(SplinterError::UnknownClient(77)));
    assert_eq!(proxy.players.len(), 1);
    assert!(proxy.player_data.players.is_empty());
}

#[test]
fn player_record_is_replaced_in_place() {
    let mut data = PlInfo::new();
    data.insert(PlInfoPlayer { uuid: 1, x: 0, y: 0, z: 0, name: "a".to_string() });
    data.insert(PlInfoPlayer { uuid: 2, x: 0, y: 0, z: 0, name: "b".to_string() });
    data.insert(PlInfoPlayer { uuid: 1, x: 9, y: 9, z: 9, name: "a2".to_string() });
    assert_eq!(
        data.players,
        vec![
            PlInfoPlayer { uuid: 1, x: 9, y: 9, z: 9, name: "a2".to_string() },
            PlInfoPlayer { uuid: 2, x: 0, y: 0, z: 0, name: "b".to_string() },
        ]
    );
    assert_eq!(data.position_of(2), Some(1));
    assert_eq!(data.position_of(3), None);
}

#[test]
fn find_client_by_name_finds_the_first_of_the_name() {
    let proxy = logged_in(&["alice", "bob", "alice"]);
    assert_eq!(proxy.find_client_by_name("alice").map(|c| c.uuid), Some(1));
    assert_eq!(proxy.find_client_by_name("bob").map(|c| c.uuid), Some(2));
    assert_eq!(proxy.find_client_by_name("carol").map(|c| c.uuid), None);
    assert_eq!(proxy.find_client_by_name("").map(|c| c.uuid), None);
    assert_eq!(proxy.client_index(3), Some(2));
    assert_eq!(proxy.client_index(4), None);
}

#[test]
fn add_client_refuses_a_second_client_with_one_uuid() {
    let mut proxy = proxy();
    let at = Position { x: 0, y: 0, z: 0 };
    let first = SplinterClient::new("a".to_string(), 9, ProtocolVersion::V753, 0, 9, at);
    let second = SplinterClient::new("b".to_string(), 9, ProtocolVersion::V753, 0, 9, at);
    assert_eq!(proxy.add_client(first), Ok(()));
    assert_eq!(proxy.add_client(second), Err(SplinterError::ProtocolError));
    assert_eq!(proxy.players.len(), 1);
    assert_eq!(proxy.players[0].name, "a");
}

#[test]
fn remove_client_of_unknown_uuid_changes_nothing() {
    let mut proxy = logged_in(&["alice"]);
    assert_eq!(proxy.remove_client(5), None);
    assert_eq!(proxy.players.len(), 1);
    let gone = proxy.remove_client(1).unwrap();
    assert_eq!(gone.name, "alice");
    assert!(!gone.alive);
    assert!(proxy.players.is_empty());
}

#[test]
fn client_connections() {
    let at = Position { x: 0, y: 0, z: 0 };
    let mut client = SplinterClient::new("a".to_string(), 9, ProtocolVersion::V753, 3, 9, at);
    assert_eq!(client.connection_index(3), Some(0));
    assert_eq!(client.connection_index(4), None);
    assert!(client.ensure_connection(4));
    assert!(!client.ensure_connection(4));
    assert!(!client.ensure_connection(3));
    assert_eq!(
        client.servers,
        vec![
            SplinterServerConnection { id: 3, client_uuid: 9, alive: true },
            SplinterServerConnection { id: 4, client_uuid: 9, alive: true },
        ]
    );
    assert_eq!(client.active_server_id, 3);
    assert!(client.switch_server(7));
    assert_eq!(client.active_server_id, 7);
    assert_eq!(client.server(), SplinterServerConnection { id: 7, client_uuid: 9, alive: true });
    assert!(!client.switch_server(3));
    assert_eq!(client.server().id, 3);
    assert!(client.close_connection(4));
    assert!(!client.close_connection(5));
    assert_eq!(client.servers[1], SplinterServerConnection { id: 4, client_uuid: 9, alive: false });
    assert_eq!(client.servers.len(), 3);
}

#[test]
fn keep_alive_queue() {
    let at = Position { x: 0, y: 0, z: 0 };
    let mut client = SplinterClient::new("a".to_string(), 9, ProtocolVersion::V753, 3, 9, at);
    assert!(!client.keep_alive_overdue(1_000_000, 0));
    client.keep_alive_sent(1000);
    client.keep_alive_sent(2000);
    client.keep_alive_sent(3000);
    assert!(!client.keep_alive_overdue(1500, 500));
    assert!(client.keep_alive_overdue(1501, 500));
    assert!(client.keep_alive_received(1000));
    assert_eq!(client.keep_alive_waiting, vec![2000, 3000]);
    assert!(!client.keep_alive_overdue(2500, 500));
    assert!(!client.keep_alive_received(1000));
    assert!(client.keep_alive_received(3000));
    assert_eq!(client.keep_alive_waiting, vec![2000]);
    assert!(client.keep_alive_overdue(2501, 500));
    assert!(client.keep_alive_received(2000));
    assert!(!client.keep_alive_overdue(i64::MAX, 0));
}

#[test]
fn keep_alive_with_extreme_times_does_not_overflow() {
    let at = Position { x: 0, y: 0, z: 0 };
    let mut client = SplinterClient::new("a".to_string(), 9, ProtocolVersion::V753, 3, 9, at);
    client.keep_alive_sent(i64::MIN);
    assert!(client.keep_alive_overdue(i64::MAX, i64::MAX));
    assert!(!client.keep_alive_overdue(i64::MIN, 0));
}

#[test]
fn keep_alive_answer_removes_the_oldest_equal_nonce() {
    let at = Position { x: 0, y: 0, z: 0 };
    let mut client = SplinterClient::new("a".to_string(), 9, ProtocolVersion::V753, 3, 9, at);
    for nonce in [5, 7, 5, 9] {
        client.keep_alive_sent(nonce);
    }
    assert!(client.keep_alive_received(5));
    assert_eq!(client.keep_alive_waiting, vec![7, 5, 9]);
}

#[test]
fn kick_packet_of_a_client() {
    let at = Position { x: 0, y: 0, z: 0 };
    let client = SplinterClient::new("a".to_string(), 9, ProtocolVersion::V753, 3, 9, at);
    assert_eq!(
        client.send_kick_v753(&ClientKickReason::TimedOut),
        WriteOp::Encode(Packet::PlayDisconnect { reason: "Timed out".to_string() })
    );
    let raw = RawFrame { kind: PacketKind::Other, id: 1, data: vec![9] };
    assert_eq!(
        client.write_packet_v753(LazyDeserializedPacket::from_raw_packet(raw.clone())),
        WriteOp::Forward(raw)
    );
}

#[test]
fn kick_command_kicks_the_named_player() {
    let mut proxy = logged_in(&["alice", "bob"]);
    let args = vec!["bob".to_string(), "too".to_string(), "loud".to_string()];
    let order = kick_command(&mut proxy, &args, "console").ok().unwrap();
    assert_eq!(order.client.uuid, 2);
    assert_eq!(
        order.packet,
        WriteOp::Encode(Packet::PlayDisconnect {
            reason: "Kicked by console because \"tooloud\"".to_string()
        })
    );
    assert_eq!(proxy.players.len(), 1);
    assert_eq!(proxy.players[0].name, "alice");
    assert_eq!(proxy.player_data.players.len(), 1);
}

#[test]
fn kick_command_without_reason() {
    let mut proxy = logged_in(&["alice"]);
    let order = kick_command(&mut proxy, &vec!["alice".to_string()], "op").ok().unwrap();
    assert_eq!(
        order.packet,
        WriteOp::Encode(Packet::PlayDisconnect { reason: "Kicked by op".to_string() })
    );
    assert!(proxy.players.is_empty());
}

#[test]
fn kick_command_needs_an_argument() {
    let mut proxy = logged_in(&["alice"]);
    assert_eq!(kick_command(&mut proxy, &vec![], "op").err(), Some(SplinterError::MissingArgument));
    assert_eq!(proxy.players.len(), 1);
}

#[test]
fn kick_command_for_an_unknown_player_fails() {
    let mut proxy = logged_in(&["alice"]);
    assert_eq!(
        kick_command(&mut proxy, &vec!["bob".to_string(), "x".to_string()], "op").err(),
        Some(SplinterError::UnknownPlayer("bob".to_string()))
    );
    assert_eq!(proxy.players.len(), 1);
    assert!(proxy.player_data.players.is_empty());
}

#[test]
fn keep_alive_queue_is_bounded() {
    let at = Position { x: 0, y: 0, z: 0 };
    let mut client = SplinterClient::new("a".to_string(), 9, ProtocolVersion::V753, 3, 9, at);
    for nonce in 0..300 {
        client.keep_alive_sent(nonce);
    }
    assert_eq!(client.keep_alive_waiting.len(), KEEP_ALIVE_CAPACITY);
    assert_eq!(client.keep_alive_waiting, (0..256).collect::<Vec<i64>>());
    assert!(client.keep_alive_received(0));
    client.keep_alive_sent(999);
    assert_eq!(client.keep_alive_waiting.len(), KEEP_ALIVE_CAPACITY);
    assert_eq!(client.keep_alive_waiting.last(), Some(&999));
}

#[test]
fn connection_learns_the_uuid_of_its_backend() {
    let at = Position { x: 0, y: 0, z: 0 };
    let mut client = SplinterClient::new("a".to_string(), 9, ProtocolVersion::V753, 3, 33, at);
    assert_eq!(client.server(), SplinterServerConnection { id: 3, client_uuid: 33, alive: true });
    client.ensure_connection(4);
    assert!(client.set_connection_uuid(4, 44));
    assert!(!client.set_connection_uuid(5, 55));
    assert_eq!(
        client.servers,
        vec![
            SplinterServerConnection { id: 3, client_uuid: 33, alive: true },
            SplinterServerConnection { id: 4, client_uuid: 44, alive: true },
        ]
    );
}
