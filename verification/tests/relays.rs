use splinter::client::{Position, SplinterClient, SplinterServerConnection};
use splinter::dictionary::{init, Dictionaries};
use splinter::error::SplinterError;
use splinter::lifecycle::complete_login;
use splinter::mapping::SplinterMapping;
use splinter::packet::{
    EntityRef, LazyDeserializedPacket, Packet, PacketDestination, PacketKind, PacketSender, RawFrame, WriteOp,
};
use splinter::playersave::{PlInfo, PlInfoPlayer};
use splinter::proxy::{SplinterConfig, SplinterProxy};
use splinter::relay::{
    client_relay_reads, default_passes, handle_client_relay, handle_server_relay, handle_write_failure,
    needs_decoding, run_relay_passes, send_packet, server_relay_reads, Delivery, RelayPass, RelayRead,
    RelayStep,
};
use splinter::tags::{WireTag, WireTags};
use splinter::version::ProtocolVersion;
use splinter::zoning::{Zone, Zoner};

fn dictionaries() -> Dictionaries {
    init(
        r#"[{"id": 1, "name": "stone"}, {"id": 2, "name": "dirt"}]"#,
        r#"[{"id": 10, "name": "stick"}]"#,
        r#"[{"id": 20, "name": "water"}]"#,
        r#"[{"id": 30, "name": "pig"}]"#,
    )
    .ok()
    .unwrap()
}

fn proxy_with(servers: &[u64], zoner: Zoner) -> SplinterProxy {
    let config = SplinterConfig {
        proxy_address: "127.0.0.1:25565".to_string(),
        simulation_servers: servers.iter().map(|id| (*id, format!("127.0.0.1:{}", 25400 + id))).collect(),
        server_status: "{}".to_string(),
        improper_version_disconnect_message: "no".to_string(),
    };
    let mut proxy = SplinterProxy::new(config, PlInfo::new());
    proxy.zoner = zoner;
    proxy
}

fn split_world() -> Zoner {
    Zoner {
        zones: vec![
            (0, Zone::Rectangle { x1: -4, z1: -4, x2: 4, z2: 4 }),
            (1, Zone::InvertedRectangle { x1: -4, z1: -4, x2: 4, z2: 4 }),
        ],
        default: None,
    }
}

fn login(proxy: &mut SplinterProxy, name: &str, entry: u64, spawn: (i32, i32)) -> u128 {
    complete_login(
        proxy,
        ProtocolVersion::V753,
        name.to_string(),
        entry,
        1000,
        Position { x: spawn.0, y: 64, z: spawn.1 },
    )
    .ok()
    .unwrap()
    .uuid
}

fn entities(ids: &[(i32, i32)], uuids: &[u128]) -> Packet {
    Packet::PlayEntities {
        packet_id: 0x04,
        entities: ids.iter().map(|(id, entity_type)| EntityRef { id: *id, entity_type: *entity_type }).collect(),
        uuids: uuids.to_vec(),
    }
}

fn decoded(packet: Packet) -> RelayRead {
    RelayRead::Packet(LazyDeserializedPacket::from_packet(packet))
}

fn raw(kind: PacketKind, data: &[u8]) -> RawFrame {
    RawFrame { kind, id: 0x10, data: data.to_vec() }
}

fn delivered(step: RelayStep) -> (Delivery, Vec<(u128, u64)>) {
    match step {
        RelayStep::Deliver { delivery, connects } => (delivery, connects),
        other => panic!("expected a delivery, got {:?}", other),
    }
}

#[test]
fn entity_id_rewrite() {
    let zoner = Zoner { zones: vec![], default: Some(7) };
    let mut proxy = proxy_with(&[7], zoner);
    let dicts = dictionaries();
    let passes = default_passes();
    let uuid = login(&mut proxy, "alice", 7, (0, 0));
    let step = handle_server_relay(&mut proxy, &passes, &dicts, uuid, 7, decoded(entities(&[(1000, 42)], &[])));
    let (delivery, connects) = delivered(step);
    assert_eq!(delivery, Delivery::ToClient(WriteOp::Encode(entities(&[(1, 42)], &[]))));
    assert!(connects.is_empty());
    let again = handle_server_relay(&mut proxy, &passes, &dicts, uuid, 7, decoded(entities(&[(1000, 42)], &[])));
    assert_eq!(delivered(again).0, Delivery::ToClient(WriteOp::Encode(entities(&[(1, 42)], &[]))));
    let other = handle_server_relay(&mut proxy, &passes, &dicts, uuid, 7, decoded(entities(&[(1001, 42)], &[])));
    assert_eq!(delivered(other).0, Delivery::ToClient(WriteOp::Encode(entities(&[(2, 42)], &[]))));
    assert_eq!(proxy.mapping.map_eid_proxy_to_server(1), Ok((7, 1000)));
}

#[test]
fn entity_ids_from_the_client_go_back_to_backend_ids() {
    let zoner = Zoner { zones: vec![], default: Some(7) };
    let mut proxy = proxy_with(&[7], zoner);
    let dicts = dictionaries();
    let passes = default_passes();
    let uuid = login(&mut proxy, "alice", 7, (0, 0));
    handle_server_relay(&mut proxy, &passes, &dicts, uuid, 7, decoded(entities(&[(1000, 42), (55, 1)], &[])));
    let step = handle_client_relay(&mut proxy, &passes, &dicts, uuid, decoded(entities(&[(2, 0), (1, 0)], &[])));
    assert_eq!(
        delivered(step).0,
        Delivery::ToServer(7, WriteOp::Encode(entities(&[(55, 0), (1000, 0)], &[])))
    );
}

#[test]
fn packet_with_an_unmapped_entity_id_from_the_client_is_dropped() {
    let zoner = Zoner { zones: vec![], default: Some(7) };
    let mut proxy = proxy_with(&[7], zoner);
    let dicts = dictionaries();
    let passes = default_passes();
    let uuid = login(&mut proxy, "alice", 7, (0, 0));
    let step = handle_client_relay(&mut proxy, &passes, &dicts, uuid, decoded(entities(&[(5, 0)], &[])));
    assert_eq!(delivered(step).0, Delivery::Dropped);
}

#[test]
fn uuids_are_rewritten_both_ways() {
    let zoner = Zoner { zones: vec![], default: Some(7) };
    let mut proxy = proxy_with(&[7], zoner);
    let dicts = dictionaries();
    let passes = default_passes();
    let uuid = login(&mut proxy, "alice", 7, (0, 0));
    assert_eq!(uuid, 1);
    let step = handle_server_relay(&mut proxy, &passes, &dicts, uuid, 7, decoded(entities(&[], &[1000, 9999])));
    assert_eq!(delivered(step).0, Delivery::ToClient(WriteOp::Encode(entities(&[], &[1, 2]))));
    let back = handle_client_relay(&mut proxy, &passes, &dicts, uuid, decoded(entities(&[], &[2])));
    assert_eq!(delivered(back).0, Delivery::ToServer(7, WriteOp::Encode(entities(&[], &[9999]))));
    let unknown = handle_client_relay(&mut proxy, &passes, &dicts, uuid, decoded(entities(&[], &[3])));
    assert_eq!(delivered(unknown).0, Delivery::Dropped);
}

#[test]
fn zone_transition() {
    let mut proxy = proxy_with(&[0, 1], split_world());
    let dicts = dictionaries();
    let passes = default_passes();
    let uuid = login(&mut proxy, "alice", 0, (0, 0));
    assert_eq!(proxy.players[0].active_server_id, 0);
    let step = handle_client_relay(
        &mut proxy,
        &passes,
        &dicts,
        uuid,
        decoded(Packet::PlayPosition { x: 10, y: 64, z: 0 }),
    );
    let (delivery, connects) = delivered(step);
    assert_eq!(
        delivery,
        Delivery::ToServer(1, WriteOp::Encode(Packet::PlayPosition { x: 10, y: 64, z: 0 }))
    );
    assert_eq!(connects, vec![(uuid, 1)]);
    let client = &proxy.players[0];
    assert_eq!(client.active_server_id, 1);
    assert_eq!(client.position, Position { x: 10, y: 64, z: 0 });
    assert_eq!(
        client.servers,
        vec![
            SplinterServerConnection { id: 0, client_uuid: 1000, alive: true },
            SplinterServerConnection { id: 1, client_uuid: uuid, alive: true },
        ]
    );
    let next = handle_client_relay(
        &mut proxy,
        &passes,
        &dicts,
        uuid,
        RelayRead::Packet(LazyDeserializedPacket::from_raw_packet(raw(PacketKind::Other, &[1, 2]))),
    );
    let (delivery, connects) = delivered(next);
    assert_eq!(delivery, Delivery::ToServer(1, WriteOp::Forward(raw(PacketKind::Other, &[1, 2]))));
    assert!(connects.is_empty());
}

#[test]
fn moving_back_opens_no_second_connection() {
    let mut proxy = proxy_with(&[0, 1], split_world());
    let dicts = dictionaries();
    let passes = default_passes();
    let uuid = login(&mut proxy, "alice", 0, (0, 0));
    for (x, expected, opens) in [(10, 1, true), (0, 0, false), (20, 1, false)] {
        let step = handle_client_relay(
            &mut proxy,
            &passes,
            &dicts,
            uuid,
            decoded(Packet::PlayPosition { x, y: 64, z: 0 }),
        );
        let (delivery, connects) = delivered(step);
        assert_eq!(
            delivery,
            Delivery::ToServer(expected, WriteOp::Encode(Packet::PlayPosition { x, y: 64, z: 0 }))
        );
        assert_eq!(connects.len(), if opens { 1 } else { 0 });
        assert_eq!(proxy.players[0].active_server_id, expected);
    }
    assert_eq!(proxy.players[0].servers.len(), 2);
}

#[test]
fn moving_inside_a_zone_only_records_the_position() {
    let mut proxy = proxy_with(&[0, 1], split_world());
    let dicts = dictionaries();
    let passes = default_passes();
    let uuid = login(&mut proxy, "alice", 0, (0, 0));
    let step = handle_client_relay(
        &mut proxy,
        &passes,
        &dicts,
        uuid,
        decoded(Packet::PlayPosition { x: 4, y: 70, z: -4 }),
    );
    let (delivery, connects) = delivered(step);
    assert_eq!(
        delivery,
        Delivery::ToServer(0, WriteOp::Encode(Packet::PlayPosition { x: 4, y: 70, z: -4 }))
    );
    assert!(connects.is_empty());
    assert_eq!(proxy.players[0].position, Position { x: 4, y: 70, z: -4 });
    assert_eq!(proxy.players[0].active_server_id, 0);
}

#[test]
fn no_handover_to_a_backend_that_is_not_registered() {
    let zoner = Zoner { zones: vec![(0, Zone::Rectangle { x1: -4, z1: -4, x2: 4, z2: 4 })], default: Some(9) };
    let mut proxy = proxy_with(&[0, 1], zoner);
    let dicts = dictionaries();
    let passes = default_passes();
    let uuid = login(&mut proxy, "alice", 0, (0, 0));
    let step = handle_client_relay(
        &mut proxy,
        &passes,
        &dicts,
        uuid,
        decoded(Packet::PlayPosition { x: 50, y: 64, z: 0 }),
    );
    let (delivery, connects) = delivered(step);
    assert_eq!(
        delivery,
        Delivery::ToServer(0, WriteOp::Encode(Packet::PlayPosition { x: 50, y: 64, z: 0 }))
    );
    assert!(connects.is_empty());
    assert_eq!(proxy.players[0].active_server_id, 0);
    assert_eq!(proxy.players[0].position, Position { x: 50, y: 64, z: 0 });
}

#[test]
fn raw_packets_pass_through_unchanged() {
    let mut proxy = proxy_with(&[0, 1], split_world());
    let dicts = dictionaries();
    let passes = default_passes();
    let uuid = login(&mut proxy, "alice", 0, (0, 0));
    let frame = raw(PacketKind::PlayPosition, &[9, 9, 9]);
    let step = handle_client_relay(
        &mut proxy,
        &passes,
        &dicts,
        uuid,
        RelayRead::Packet(LazyDeserializedPacket::from_raw_packet(frame.clone())),
    );
    assert_eq!(delivered(step).0, Delivery::ToServer(0, WriteOp::Forward(frame.clone())));
    assert_eq!(proxy.players[0].active_server_id, 0);
    let down = handle_server_relay(
        &mut proxy,
        &passes,
        &dicts,
        uuid,
        0,
        RelayRead::Packet(LazyDeserializedPacket::from_raw_packet(frame.clone())),
    );
    assert_eq!(delivered(down).0, Delivery::ToClient(WriteOp::Forward(frame)));
}

#[test]
fn tags_pass_keeps_tags_by_name() {
    let mut proxy = proxy_with(&[0, 1], split_world());
    let dicts = dictionaries();
    let passes = default_passes();
    let uuid = login(&mut proxy, "alice", 0, (0, 0));
    let wire = WireTags {
        block_tags: vec![WireTag { name: "ground".to_string(), entries: vec![2, 1] }],
        item_tags: vec![],
        fluid_tags: vec![WireTag { name: "wet".to_string(), entries: vec![20] }],
        entity_tags: vec![],
    };
    let step = handle_server_relay(
        &mut proxy,
        &passes,
        &dicts,
        uuid,
        0,
        decoded(Packet::PlayTags { tags: wire.clone() }),
    );
    assert_eq!(
        delivered(step).0,
        Delivery::ToClient(WriteOp::Encode(Packet::PlayTags { tags: wire }))
    );
    let kept = proxy.tags.as_ref().unwrap();
    assert_eq!(kept.blocks.name_at(0), "ground");
    assert_eq!(kept.blocks.members_at(0), &vec!["dirt".to_string(), "stone".to_string()]);
    assert_eq!(kept.fluids.members_at(0), &vec!["water".to_string()]);
}

#[test]
fn tags_packet_with_an_unknown_id_is_dropped() {
    let mut proxy = proxy_with(&[0, 1], split_world());
    let dicts = dictionaries();
    let passes = default_passes();
    let uuid = login(&mut proxy, "alice", 0, (0, 0));
    let wire = WireTags {
        block_tags: vec![WireTag { name: "ground".to_string(), entries: vec![2, 77] }],
        item_tags: vec![],
        fluid_tags: vec![],
        entity_tags: vec![],
    };
    let step = handle_server_relay(&mut proxy, &passes, &dicts, uuid, 0, decoded(Packet::PlayTags { tags: wire }));
    assert_eq!(delivered(step).0, Delivery::Dropped);
    assert!(proxy.tags.is_none());
}

#[test]
fn tags_from_the_client_are_not_looked_into() {
    let mut proxy = proxy_with(&[0, 1], split_world());
    let dicts = dictionaries();
    let passes = default_passes();
    let uuid = login(&mut proxy, "alice", 0, (0, 0));
    let wire = WireTags {
        block_tags: vec![WireTag { name: "ground".to_string(), entries: vec![77] }],
        item_tags: vec![],
        fluid_tags: vec![],
        entity_tags: vec![],
    };
    let step =
        handle_client_relay(&mut proxy, &passes, &dicts, uuid, decoded(Packet::PlayTags { tags: wire.clone() }));
    assert_eq!(
        delivered(step).0,
        Delivery::ToServer(0, WriteOp::Encode(Packet::PlayTags { tags: wire }))
    );
    assert!(proxy.tags.is_none());
}

#[test]
fn passes_run_in_order() {
    let mut proxy = proxy_with(&[0, 1], split_world());
    let dicts = dictionaries();
    let uuid = login(&mut proxy, "alice", 0, (0, 0));
    let sender = PacketSender::Proxy(uuid);
    let start = PacketDestination::Server(0);
    let packet = || LazyDeserializedPacket::from_packet(entities(&[(77, 0)], &[]));
    let (_, after_ids, _) =
        run_relay_passes(&vec![RelayPass::EntityIds, RelayPass::Zoning], &mut proxy, &dicts, sender, packet(), start);
    assert_eq!(after_ids, PacketDestination::Nowhere);
    let (_, none, _) = run_relay_passes(&vec![], &mut proxy, &dicts, sender, packet(), start);
    assert_eq!(none, PacketDestination::Server(0));
    let moved = || LazyDeserializedPacket::from_packet(Packet::PlayPosition { x: 10, y: 0, z: 0 });
    let (_, once, connects) =
        run_relay_passes(&vec![RelayPass::Zoning, RelayPass::Zoning], &mut proxy, &dicts, sender, moved(), start);
    assert_eq!(once, PacketDestination::Server(1));
    assert_eq!(connects, vec![(uuid, 1)]);
}

#[test]
fn zoning_does_not_revive_a_suppressed_packet() {
    let mut proxy = proxy_with(&[0, 1], split_world());
    let dicts = dictionaries();
    let uuid = login(&mut proxy, "alice", 0, (0, 0));
    let moved = LazyDeserializedPacket::from_packet(Packet::PlayPosition { x: 10, y: 0, z: 0 });
    let (_, destination, connects) = run_relay_passes(
        &vec![RelayPass::Zoning],
        &mut proxy,
        &dicts,
        PacketSender::Proxy(uuid),
        moved,
        PacketDestination::Nowhere,
    );
    assert_eq!(destination, PacketDestination::Nowhere);
    assert!(connects.is_empty());
    assert_eq!(proxy.players[0].active_server_id, 0);
    assert_eq!(proxy.players[0].position, Position { x: 10, y: 0, z: 0 });
}

#[test]
fn decoding_is_needed_only_where_a_pass_looks() {
    let passes = default_passes();
    let client = PacketSender::Proxy(1);
    let server = PacketSender::Server(0, 1);
    assert!(needs_decoding(&passes, client, PacketKind::PlayPosition));
    assert!(!needs_decoding(&passes, server, PacketKind::PlayPosition));
    assert!(needs_decoding(&passes, server, PacketKind::PlayTags));
    assert!(!needs_decoding(&passes, client, PacketKind::PlayTags));
    assert!(needs_decoding(&passes, client, PacketKind::PlayEntities));
    assert!(needs_decoding(&passes, server, PacketKind::PlayEntities));
    assert!(!needs_decoding(&passes, client, PacketKind::Other));
    assert!(!needs_decoding(&passes, server, PacketKind::PlayDisconnect));
    assert!(!needs_decoding(&vec![], client, PacketKind::PlayPosition));
    assert!(!needs_decoding(&vec![RelayPass::Tags], client, PacketKind::PlayEntities));
    assert!(RelayPass::Uuids.inspects(client, PacketKind::PlayEntities));
    assert!(!RelayPass::Zoning.inspects(server, PacketKind::PlayPosition));
}

#[test]
fn default_chain() {
    assert_eq!(
        default_passes(),
        vec![
            RelayPass::Tags,
            RelayPass::EntityIds,
            RelayPass::Uuids,
            RelayPass::KeepAlive,
            RelayPass::Zoning,
        ]
    );
}

#[test]
fn dispatch_of_each_destination() {
    let at = Position { x: 0, y: 0, z: 0 };
    let client = SplinterClient::new("a".to_string(), 9, ProtocolVersion::V753, 3, 9, at);
    let packet = || LazyDeserializedPacket::from_packet(Packet::Other { packet_id: 1 });
    let op = || WriteOp::Encode(Packet::Other { packet_id: 1 });
    assert_eq!(send_packet(&client, PacketDestination::Client, packet()), Delivery::ToClient(op()));
    assert_eq!(send_packet(&client, PacketDestination::Server(3), packet()), Delivery::ToServer(3, op()));
    assert_eq!(send_packet(&client, PacketDestination::Server(4), packet()), Delivery::Undeliverable(4));
    assert_eq!(send_packet(&client, PacketDestination::Nowhere, packet()), Delivery::Dropped);
    assert_eq!(Delivery::Undeliverable(4).error(), Some(SplinterError::UnknownServer(4)));
    assert_eq!(Delivery::Dropped.error(), None);
    assert_eq!(Delivery::ToClient(op()).error(), None);
}

#[test]
fn read_errors_are_skipped() {
    let mut proxy = proxy_with(&[0, 1], split_world());
    let dicts = dictionaries();
    let passes = default_passes();
    let uuid = login(&mut proxy, "alice", 0, (0, 0));
    assert_eq!(handle_client_relay(&mut proxy, &passes, &dicts, uuid, RelayRead::Failed), RelayStep::Skip);
    assert_eq!(handle_server_relay(&mut proxy, &passes, &dicts, uuid, 0, RelayRead::Failed), RelayStep::Skip);
    assert_eq!(proxy.players.len(), 1);
    assert!(proxy.players[0].alive);
}

#[test]
fn client_that_closes_is_torn_down() {
    let mut proxy = proxy_with(&[0, 1], split_world());
    let dicts = dictionaries();
    let passes = default_passes();
    let uuid = login(&mut proxy, "alice", 0, (2, -2));
    assert_eq!(handle_client_relay(&mut proxy, &passes, &dicts, uuid, RelayRead::Closed), RelayStep::Stop);
    assert!(proxy.players.is_empty());
    assert_eq!(
        proxy.player_data.players,
        vec![PlInfoPlayer { uuid, x: 2, y: 64, z: -2, name: "alice".to_string() }]
    );
    assert_eq!(handle_client_relay(&mut proxy, &passes, &dicts, uuid, RelayRead::Closed), RelayStep::Stop);
    assert_eq!(
        handle_client_relay(&mut proxy, &passes, &dicts, uuid, decoded(Packet::Other { packet_id: 1 })),
        RelayStep::Stop
    );
    assert_eq!(proxy.player_data.players.len(), 1);
}

#[test]
fn backend_that_closes_loses_its_connection_only() {
    let mut proxy = proxy_with(&[0, 1], split_world());
    let dicts = dictionaries();
    let passes = default_passes();
    let uuid = login(&mut proxy, "alice", 0, (0, 0));
    assert_eq!(handle_server_relay(&mut proxy, &passes, &dicts, uuid, 0, RelayRead::Closed), RelayStep::Stop);
    assert_eq!(proxy.players.len(), 1);
    assert!(proxy.players[0].alive);
    assert_eq!(proxy.players[0].servers, vec![SplinterServerConnection { id: 0, client_uuid: 1000, alive: false }]);
    assert_eq!(
        handle_server_relay(&mut proxy, &passes, &dicts, uuid, 0, decoded(Packet::Other { packet_id: 1 })),
        RelayStep::Stop
    );
}

#[test]
fn backend_loop_without_a_connection_stops() {
    let mut proxy = proxy_with(&[0, 1], split_world());
    let dicts = dictionaries();
    let passes = default_passes();
    let uuid = login(&mut proxy, "alice", 0, (0, 0));
    assert_eq!(
        handle_server_relay(&mut proxy, &passes, &dicts, uuid, 1, decoded(Packet::Other { packet_id: 1 })),
        RelayStep::Stop
    );
    assert_eq!(
        handle_server_relay(&mut proxy, &passes, &dicts, 99, 0, decoded(Packet::Other { packet_id: 1 })),
        RelayStep::Stop
    );
    assert_eq!(proxy.players[0].servers.len(), 1);
    assert!(proxy.players[0].servers[0].alive);
}

#[test]
fn failed_write_to_the_client_is_fatal() {
    let mut proxy = proxy_with(&[0, 1], split_world());
    let dicts = dictionaries();
    let passes = default_passes();
    let uuid = login(&mut proxy, "alice", 0, (0, 0));
    assert_eq!(
        handle_write_failure(&mut proxy, uuid, PacketDestination::Server(0)),
        SplinterError::IoTransient
    );
    assert!(proxy.players[0].alive);
    assert_eq!(handle_write_failure(&mut proxy, uuid, PacketDestination::Client), SplinterError::IoFatal);
    assert!(!proxy.players[0].alive);
    assert_eq!(proxy.players.len(), 1);
    assert_eq!(
        handle_server_relay(&mut proxy, &passes, &dicts, uuid, 0, decoded(Packet::Other { packet_id: 1 })),
        RelayStep::Stop
    );
    assert_eq!(
        handle_client_relay(&mut proxy, &passes, &dicts, uuid, decoded(Packet::Other { packet_id: 1 })),
        RelayStep::Stop
    );
    assert!(proxy.players.is_empty());
    assert_eq!(proxy.player_data.players.len(), 1);
}

#[test]
fn failed_write_for_an_unknown_client_changes_nothing() {
    let mut proxy = proxy_with(&[0, 1], split_world());
    login(&mut proxy, "alice", 0, (0, 0));
    assert_eq!(handle_write_failure(&mut proxy, 99, PacketDestination::Client), SplinterError::IoFatal);
    assert!(proxy.players[0].alive);
}

#[test]
fn packets_keep_their_order_and_are_written_at_most_once() {
    let mut proxy = proxy_with(&[0, 1], split_world());
    let dicts = dictionaries();
    let passes = default_passes();
    let uuid = login(&mut proxy, "alice", 0, (0, 0));
    let mut to_client: Vec<i32> = Vec::new();
    for n in 0..20 {
        let read = if n % 5 == 4 {
            decoded(Packet::PlayTags {
                tags: WireTags {
                    block_tags: vec![WireTag { name: "bad".to_string(), entries: vec![999] }],
                    item_tags: vec![],
                    fluid_tags: vec![],
                    entity_tags: vec![],
                },
            })
        } else {
            decoded(Packet::Other { packet_id: n })
        };
        match delivered(handle_server_relay(&mut proxy, &passes, &dicts, uuid, 0, read)).0 {
            Delivery::ToClient(WriteOp::Encode(Packet::Other { packet_id })) => to_client.push(packet_id),
            Delivery::Dropped => assert_eq!(n % 5, 4),
            other => panic!("unexpected delivery {:?}", other),
        }
    }
    let expected: Vec<i32> = (0..20).filter(|n| n % 5 != 4).collect();
    assert_eq!(to_client, expected);
}

#[test]
fn keep_alives_are_queued_and_answered() {
    let mut proxy = proxy_with(&[0, 1], split_world());
    let dicts = dictionaries();
    let passes = default_passes();
    let uuid = login(&mut proxy, "alice", 0, (0, 0));
    for id in [1000, 2000] {
        let step =
            handle_server_relay(&mut proxy, &passes, &dicts, uuid, 0, decoded(Packet::PlayKeepAlive { id }));
        assert_eq!(
            delivered(step).0,
            Delivery::ToClient(WriteOp::Encode(Packet::PlayKeepAlive { id }))
        );
    }
    assert_eq!(proxy.players[0].keep_alive_waiting, vec![1000, 2000]);
    let answer =
        handle_client_relay(&mut proxy, &passes, &dicts, uuid, decoded(Packet::PlayKeepAlive { id: 1000 }));
    assert_eq!(
        delivered(answer).0,
        Delivery::ToServer(0, WriteOp::Encode(Packet::PlayKeepAlive { id: 1000 }))
    );
    assert_eq!(proxy.players[0].keep_alive_waiting, vec![2000]);
    let stray =
        handle_client_relay(&mut proxy, &passes, &dicts, uuid, decoded(Packet::PlayKeepAlive { id: 5 }));
    assert_eq!(
        delivered(stray).0,
        Delivery::ToServer(0, WriteOp::Encode(Packet::PlayKeepAlive { id: 5 }))
    );
    assert_eq!(proxy.players[0].keep_alive_waiting, vec![2000]);
}

#[test]
fn keep_alives_of_one_client_do_not_touch_another() {
    let mut proxy = proxy_with(&[0, 1], split_world());
    let dicts = dictionaries();
    let passes = default_passes();
    let alice = login(&mut proxy, "alice", 0, (0, 0));
    let bob = complete_login(
        &mut proxy,
        ProtocolVersion::V753,
        "bob".to_string(),
        0,
        2000,
        Position { x: 1, y: 64, z: 1 },
    )
    .ok()
    .unwrap()
    .uuid;
    handle_server_relay(&mut proxy, &passes, &dicts, bob, 0, decoded(Packet::PlayKeepAlive { id: 7 }));
    assert!(proxy.players[0].keep_alive_waiting.is_empty());
    assert_eq!(proxy.players[1].keep_alive_waiting, vec![7]);
    handle_client_relay(&mut proxy, &passes, &dicts, alice, decoded(Packet::PlayKeepAlive { id: 7 }));
    assert_eq!(proxy.players[1].keep_alive_waiting, vec![7]);
}

#[test]
fn timed_out_clients_are_kicked() {
    let mut proxy = proxy_with(&[0, 1], split_world());
    for (i, name) in ["a", "b", "c", "d"].iter().enumerate() {
        complete_login(
            &mut proxy,
            ProtocolVersion::V753,
            name.to_string(),
            0,
            500 + i as u128,
            Position { x: i as i32, y: 0, z: 0 },
        )
        .ok()
        .unwrap();
    }
    proxy.players[0].keep_alive_sent(1_000);
    proxy.players[1].keep_alive_sent(9_000);
    proxy.players[3].keep_alive_sent(2_000);
    let orders = proxy.kick_timed_out(10_000, 5_000);
    assert_eq!(orders.iter().map(|o| o.client.name.as_str()).collect::<Vec<_>>(), vec!["a", "d"]);
    for order in &orders {
        assert!(!order.client.alive);
        assert_eq!(
            order.packet,
            WriteOp::Encode(Packet::PlayDisconnect { reason: "Timed out".to_string() })
        );
    }
    assert_eq!(proxy.players.iter().map(|c| c.name.as_str()).collect::<Vec<_>>(), vec!["b", "c"]);
    assert_eq!(
        proxy.player_data.players,
        vec![
            PlInfoPlayer { uuid: 1, x: 0, y: 0, z: 0, name: "a".to_string() },
            PlInfoPlayer { uuid: 4, x: 3, y: 0, z: 0, name: "d".to_string() },
        ]
    );
    assert!(proxy.kick_timed_out(10_000, 5_000).is_empty());
    assert_eq!(proxy.players.len(), 2);
    let late = proxy.kick_timed_out(14_001, 5_000);
    assert_eq!(late.len(), 1);
    assert_eq!(late[0].client.name, "b");
}

#[test]
fn nobody_is_kicked_exactly_at_the_threshold() {
    let mut proxy = proxy_with(&[0, 1], split_world());
    login(&mut proxy, "alice", 0, (0, 0));
    proxy.players[0].keep_alive_sent(1_000);
    assert!(proxy.kick_timed_out(6_000, 5_000).is_empty());
    assert_eq!(proxy.kick_timed_out(6_001, 5_000).len(), 1);
}

#[test]
fn packet_is_dropped_when_entity_ids_run_out() {
    let zoner = Zoner { zones: vec![], default: Some(7) };
    let mut proxy = proxy_with(&[7], zoner);
    proxy.mapping = SplinterMapping::with_limits(2, 10);
    let dicts = dictionaries();
    let passes = default_passes();
    let uuid = login(&mut proxy, "alice", 7, (0, 0));
    let step =
        handle_server_relay(&mut proxy, &passes, &dicts, uuid, 7, decoded(entities(&[(1, 0), (2, 0), (3, 0)], &[])));
    assert_eq!(delivered(step).0, Delivery::Dropped);
    assert_eq!(proxy.mapping.map_eid_proxy_to_server(1), Ok((7, 1)));
    assert_eq!(proxy.mapping.map_eid_proxy_to_server(2), Ok((7, 2)));
    let known = handle_server_relay(&mut proxy, &passes, &dicts, uuid, 7, decoded(entities(&[(2, 0), (1, 0)], &[])));
    assert_eq!(delivered(known).0, Delivery::ToClient(WriteOp::Encode(entities(&[(2, 0), (1, 0)], &[]))));
}

#[test]
fn login_fails_when_uuids_run_out() {
    let mut proxy = proxy_with(&[0, 1], split_world());
    proxy.mapping = SplinterMapping::with_limits(10, 1);
    login(&mut proxy, "alice", 0, (0, 0));
    let second = complete_login(
        &mut proxy,
        ProtocolVersion::V753,
        "bob".to_string(),
        0,
        2000,
        Position { x: 0, y: 0, z: 0 },
    );
    assert_eq!(second.err(), Some(SplinterError::IdsExhausted));
    assert_eq!(proxy.players.len(), 1);
}

#[test]
fn client_that_sends_what_cannot_be_decoded_is_torn_down() {
    let mut proxy = proxy_with(&[0, 1], split_world());
    let dicts = dictionaries();
    let passes = default_passes();
    let uuid = login(&mut proxy, "alice", 0, (2, -2));
    assert_eq!(handle_client_relay(&mut proxy, &passes, &dicts, uuid, RelayRead::Malformed), RelayStep::Stop);
    assert!(proxy.players.is_empty());
    assert_eq!(proxy.player_data.players.len(), 1);
    assert_eq!(RelayRead::Malformed.error(), Some(SplinterError::ProtocolError));
    assert_eq!(RelayRead::Failed.error(), Some(SplinterError::IoTransient));
    assert_eq!(RelayRead::Closed.error(), None);
}

#[test]
fn backend_that_sends_what_cannot_be_decoded_loses_its_connection() {
    let mut proxy = proxy_with(&[0, 1], split_world());
    let dicts = dictionaries();
    let passes = default_passes();
    let uuid = login(&mut proxy, "alice", 0, (0, 0));
    assert_eq!(handle_server_relay(&mut proxy, &passes, &dicts, uuid, 0, RelayRead::Malformed), RelayStep::Stop);
    assert_eq!(proxy.players.len(), 1);
    assert!(proxy.players[0].alive);
    assert!(!proxy.players[0].servers[0].alive);
}

#[test]
fn loops_read_only_while_alive() {
    let mut proxy = proxy_with(&[0, 1], split_world());
    let dicts = dictionaries();
    let passes = default_passes();
    let uuid = login(&mut proxy, "alice", 0, (0, 0));
    assert!(client_relay_reads(&proxy, uuid));
    assert!(server_relay_reads(&proxy, uuid, 0));
    assert!(!server_relay_reads(&proxy, uuid, 1));
    assert!(!client_relay_reads(&proxy, 99));
    assert!(!server_relay_reads(&proxy, 99, 0));
    handle_server_relay(&mut proxy, &passes, &dicts, uuid, 0, RelayRead::Closed);
    assert!(client_relay_reads(&proxy, uuid));
    assert!(!server_relay_reads(&proxy, uuid, 0));
    handle_write_failure(&mut proxy, uuid, PacketDestination::Client);
    assert!(!client_relay_reads(&proxy, uuid));
    handle_client_relay(&mut proxy, &passes, &dicts, uuid, RelayRead::Closed);
    assert!(!client_relay_reads(&proxy, uuid));
}

fn chain_in_another_order() -> Vec<RelayPass> {
    vec![RelayPass::Zoning, RelayPass::Uuids, RelayPass::KeepAlive, RelayPass::EntityIds, RelayPass::Tags]
}

#[test]
fn identifiers_return_whatever_the_order_of_the_chain() {
    let zoner = Zoner { zones: vec![], default: Some(7) };
    let mut proxy = proxy_with(&[7], zoner);
    let dicts = dictionaries();
    let to_client = chain_in_another_order();
    let to_server = default_passes();
    let uuid = login(&mut proxy, "alice", 7, (0, 0));
    let sent = entities(&[(1000, 42), (55, 1), (1000, 9)], &[9999, 1000]);
    let step = handle_server_relay(&mut proxy, &to_client, &dicts, uuid, 7, decoded(sent.clone()));
    let seen = entities(&[(1, 42), (2, 1), (1, 9)], &[2, 1]);
    assert_eq!(delivered(step).0, Delivery::ToClient(WriteOp::Encode(seen.clone())));
    let back = handle_client_relay(&mut proxy, &to_server, &dicts, uuid, decoded(seen.clone()));
    assert_eq!(delivered(back).0, Delivery::ToServer(7, WriteOp::Encode(sent.clone())));
    let back = handle_client_relay(&mut proxy, &to_client, &dicts, uuid, decoded(seen));
    assert_eq!(delivered(back).0, Delivery::ToServer(7, WriteOp::Encode(sent)));
    // looking the identifiers up allocated nothing: the next new ones follow
    assert_eq!(proxy.mapping.map_eid_proxy_to_server(3), Err(SplinterError::NotMapped));
    assert_eq!(proxy.mapping.map_eid_server_to_proxy(7, 77, 0), Ok(3));
    assert_eq!(proxy.mapping.map_uuid_server_to_proxy(7, 77), Ok(3));
}

#[test]
fn known_identifiers_allocate_nothing() {
    let zoner = Zoner { zones: vec![], default: Some(7) };
    let mut proxy = proxy_with(&[7], zoner);
    let dicts = dictionaries();
    let uuid = login(&mut proxy, "alice", 7, (0, 0));
    let first =
        handle_server_relay(&mut proxy, &default_passes(), &dicts, uuid, 7, decoded(entities(&[(1000, 42)], &[9999])));
    assert_eq!(delivered(first).0, Delivery::ToClient(WriteOp::Encode(entities(&[(1, 42)], &[2]))));
    let other =
        handle_server_relay(&mut proxy, &default_passes(), &dicts, uuid, 7, decoded(entities(&[(-3, 5)], &[8])));
    assert_eq!(delivered(other).0, Delivery::ToClient(WriteOp::Encode(entities(&[(2, 5)], &[3]))));
    let again = handle_server_relay(
        &mut proxy,
        &chain_in_another_order(),
        &dicts,
        uuid,
        7,
        decoded(entities(&[(1000, 7)], &[9999])),
    );
    assert_eq!(delivered(again).0, Delivery::ToClient(WriteOp::Encode(entities(&[(1, 7)], &[2]))));
    assert_eq!(proxy.mapping.entity_data(1).map(|data| data.entity_type), Some(42));
    assert_eq!(proxy.mapping.entity_data(3), None);
    assert_eq!(proxy.mapping.map_eid_server_to_proxy(7, 1001, 0), Ok(3));
    assert_eq!(proxy.mapping.map_uuid_server_to_proxy(7, 1001), Ok(4));
}

#[test]
fn new_entities_of_two_backends_get_rising_ids() {
    let mut proxy = proxy_with(&[0, 1], split_world());
    let dicts = dictionaries();
    let passes = chain_in_another_order();
    let uuid = login(&mut proxy, "alice", 0, (0, 0));
    handle_client_relay(&mut proxy, &passes, &dicts, uuid, decoded(Packet::PlayPosition { x: 10, y: 64, z: 0 }));
    let first = handle_server_relay(&mut proxy, &passes, &dicts, uuid, 0, decoded(entities(&[(5, 1)], &[])));
    assert_eq!(delivered(first).0, Delivery::ToClient(WriteOp::Encode(entities(&[(1, 1)], &[]))));
    let second = handle_server_relay(&mut proxy, &passes, &dicts, uuid, 1, decoded(entities(&[(5, 2)], &[])));
    assert_eq!(delivered(second).0, Delivery::ToClient(WriteOp::Encode(entities(&[(2, 2)], &[]))));
    let third = handle_server_relay(&mut proxy, &passes, &dicts, uuid, 0, decoded(entities(&[(6, 3), (5, 3)], &[])));
    assert_eq!(delivered(third).0, Delivery::ToClient(WriteOp::Encode(entities(&[(3, 3), (1, 3)], &[]))));
    assert_eq!(proxy.mapping.map_eid_proxy_to_server(1), Ok((0, 5)));
    assert_eq!(proxy.mapping.map_eid_proxy_to_server(2), Ok((1, 5)));
    assert_eq!(proxy.mapping.map_eid_proxy_to_server(3), Ok((0, 6)));
    assert_eq!(proxy.mapping.entity_data(2).map(|data| data.entity_type), Some(2));
}

#[test]
fn handover_in_any_chain_with_the_zoning_pass() {
    let mut proxy = proxy_with(&[0, 1], split_world());
    let dicts = dictionaries();
    let uuid = login(&mut proxy, "alice", 0, (0, 0));
    let alone = vec![RelayPass::Zoning];
    let out = Packet::PlayPosition { x: 10, y: 64, z: 0 };
    let (delivery, connects) =
        delivered(handle_client_relay(&mut proxy, &alone, &dicts, uuid, decoded(out.clone())));
    assert_eq!(delivery, Delivery::ToServer(1, WriteOp::Encode(out)));
    assert_eq!(connects, vec![(uuid, 1)]);
    assert_eq!(proxy.players[0].active_server_id, 1);
    assert_eq!(proxy.players[0].servers[0], SplinterServerConnection { id: 0, client_uuid: 1000, alive: true });
    assert_eq!(proxy.players[0].servers.len(), 2);
    let among = vec![RelayPass::KeepAlive, RelayPass::Zoning, RelayPass::Tags, RelayPass::Uuids];
    let home = Packet::PlayPosition { x: 0, y: 70, z: 1 };
    let (delivery, connects) =
        delivered(handle_client_relay(&mut proxy, &among, &dicts, uuid, decoded(home.clone())));
    assert_eq!(delivery, Delivery::ToServer(0, WriteOp::Encode(home)));
    assert!(connects.is_empty());
    assert_eq!(proxy.players[0].active_server_id, 0);
    assert_eq!(proxy.players[0].position, Position { x: 0, y: 70, z: 1 });
    assert_eq!(proxy.players[0].servers.len(), 2);
    let none: Vec<RelayPass> = Vec::new();
    let (delivery, _) = delivered(handle_client_relay(
        &mut proxy,
        &none,
        &dicts,
        uuid,
        decoded(Packet::PlayPosition { x: 10, y: 64, z: 0 }),
    ));
    assert_eq!(delivery, Delivery::ToServer(0, WriteOp::Encode(Packet::PlayPosition { x: 10, y: 64, z: 0 })));
    assert_eq!(proxy.players[0].active_server_id, 0);
}
