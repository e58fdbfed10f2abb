use splinter::error::SplinterError;
use splinter::packet::{
    write_packet, HandshakeNextState, LazyDeserializedPacket, Packet, PacketKind, RawFrame, WriteOp,
};

fn frame(kind: PacketKind) -> RawFrame {
    RawFrame { kind, id: 0x2f, data: vec![1, 2, 3] }
}

#[test]
fn kinds_of_packets() {
    assert_eq!(
        Packet::Handshake { version: 753, next_state: HandshakeNextState::Login }.kind(),
        PacketKind::Handshake
    );
    assert_eq!(Packet::StatusRequest.kind(), PacketKind::StatusRequest);
    assert_eq!(Packet::StatusPing { payload: 1 }.kind(), PacketKind::StatusPing);
    assert_eq!(Packet::StatusPong { payload: 1 }.kind(), PacketKind::StatusPong);
    assert_eq!(Packet::PlayPosition { x: 0, y: 0, z: 0 }.kind(), PacketKind::PlayPosition);
    assert_eq!(Packet::Other { packet_id: 9 }.kind(), PacketKind::Other);
    assert_eq!(Packet::PlayKeepAlive { id: 9 }.kind(), PacketKind::PlayKeepAlive);
    assert_eq!(
        Packet::PlayEntities { packet_id: 1, entities: vec![], uuids: vec![] }.kind(),
        PacketKind::PlayEntities
    );
}

#[test]
fn raw_packet_knows_its_kind_without_decoding() {
    let lazy = LazyDeserializedPacket::from_raw_packet(frame(PacketKind::PlayPosition));
    assert_eq!(lazy.kind(), PacketKind::PlayPosition);
    assert!(!lazy.is_deserialized());
    assert_eq!(lazy.packet(), None);
}

#[test]
fn decode_takes_the_decoded_form() {
    let mut lazy = LazyDeserializedPacket::from_raw_packet(frame(PacketKind::PlayPosition));
    let decoded = Packet::PlayPosition { x: 1, y: 2, z: 3 };
    assert_eq!(lazy.decode(Some(decoded.clone())), Ok(()));
    assert!(lazy.is_deserialized());
    assert_eq!(lazy.kind(), PacketKind::PlayPosition);
    assert_eq!(lazy.packet(), Some(&decoded));
}

#[test]
fn decode_happens_once() {
    let mut lazy = LazyDeserializedPacket::from_raw_packet(frame(PacketKind::PlayPosition));
    let first = Packet::PlayPosition { x: 1, y: 2, z: 3 };
    lazy.decode(Some(first.clone())).unwrap();
    assert_eq!(lazy.decode(Some(Packet::PlayPosition { x: 9, y: 9, z: 9 })), Ok(()));
    assert_eq!(lazy.decode(None), Ok(()));
    assert_eq!(lazy.into_packet(), Some(first));
}

#[test]
fn decode_failure_leaves_the_frame() {
    let mut lazy = LazyDeserializedPacket::from_raw_packet(frame(PacketKind::PlayTags));
    assert_eq!(lazy.decode(None), Err(SplinterError::ProtocolError));
    assert!(!lazy.is_deserialized());
    assert_eq!(lazy.into_raw_packet(), Some(frame(PacketKind::PlayTags)));
}

#[test]
fn decode_refuses_a_packet_of_another_kind() {
    let mut lazy = LazyDeserializedPacket::from_raw_packet(frame(PacketKind::PlayTags));
    assert_eq!(
        lazy.decode(Some(Packet::Other { packet_id: 1 })),
        Err(SplinterError::ProtocolError)
    );
    assert_eq!(lazy.kind(), PacketKind::PlayTags);
    assert!(!lazy.is_deserialized());
}

#[test]
fn into_raw_is_only_for_packets_not_decoded() {
    let raw = LazyDeserializedPacket::from_raw_packet(frame(PacketKind::Other));
    assert_eq!(raw.clone().into_raw_packet(), Some(frame(PacketKind::Other)));
    assert_eq!(raw.into_packet(), None);
    let decoded = LazyDeserializedPacket::from_packet(Packet::StatusRequest);
    assert_eq!(decoded.clone().into_raw_packet(), None);
    assert_eq!(decoded.into_packet(), Some(Packet::StatusRequest));
}

#[test]
fn writing_forwards_raw_frames_and_encodes_decoded_packets() {
    let raw = LazyDeserializedPacket::from_raw_packet(frame(PacketKind::Other));
    assert_eq!(write_packet(raw), WriteOp::Forward(frame(PacketKind::Other)));
    let decoded = LazyDeserializedPacket::from_packet(Packet::StatusPong { payload: 5 });
    assert_eq!(write_packet(decoded), WriteOp::Encode(Packet::StatusPong { payload: 5 }));
}
