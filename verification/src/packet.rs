//! Packets as the core sees them.
//!
//! The wire codec is not part of the core. A packet reaches it as a raw
//! frame whose kind is known from the frame's header, or decoded into the
//! fields the core reads and rewrites: identifiers, positions, tags, and the
//! few packets of the handshake, status and login phases.

use vstd::prelude::*;
use crate::error::SplinterError;
use crate::tags::{WireTags, WireTagsView};

verus! {

/// The state that a handshake asks for.
#[derive(Copy, Clone, Debug, PartialEq, Eq, Structural)]
pub enum HandshakeNextState {
    Status,
    Login,
}

/// The kind of a packet, known without decoding it.
#[derive(Copy, Clone, Debug, PartialEq, Eq, Structural)]
pub enum PacketKind {
    Handshake,
    StatusRequest,
    StatusPing,
    StatusResponse,
    StatusPong,
    LoginStart,
    LoginDisconnect,
    LoginSuccess,
    PlayDisconnect,
    PlayTags,
    PlayPosition,
    PlayKeepAlive,
    PlayEntities,
    Other,
}

/// An entity-id field of a packet, with the entity type code that the
/// packet's schema gives for it.
#[derive(Copy, Clone, Debug, PartialEq, Eq, Structural)]
pub struct EntityRef {
    pub id: i32,
    pub entity_type: i32,
}

/// A decoded packet.
#[derive(Clone, Debug, PartialEq, Eq)]
pub enum Packet {
    /// The first packet of a connection.
    Handshake { version: i32, next_state: HandshakeNextState },
    /// A request for the server status.
    StatusRequest,
    /// A ping of the status phase.
    StatusPing { payload: i64 },
    /// The server status, as configured.
    StatusResponse { response: String },
    /// The answer to a ping, with the ping's payload.
    StatusPong { payload: i64 },
    /// The start of a login, with the name the client asks for.
    LoginStart { name: String },
    /// A refusal in the login phase.
    LoginDisconnect { message: String },
    /// The end of a login, with the identity the proxy gives the client.
    LoginSuccess { uuid: u128, username: String },
    /// A kick in the play phase.
    PlayDisconnect { reason: String },
    /// The tags that a server announces.
    PlayTags { tags: WireTags },
    /// A position update of the client, in block coordinates.
    PlayPosition { x: i32, y: i32, z: i32 },
    /// A keep-alive, or the answer to one. Its id is the time, in
    /// milliseconds, at which the keep-alive was sent.
    PlayKeepAlive { id: i64 },
    /// A play packet that names entities or UUIDs.
    PlayEntities { packet_id: i32, entities: Vec<EntityRef>, uuids: Vec<u128> },
    /// A packet with nothing that the core reads.
    Other { packet_id: i32 },
}

/// A decoded packet as a value.
pub enum PacketView {
    Handshake { version: i32, next_state: HandshakeNextState },
    StatusRequest,
    StatusPing { payload: i64 },
    StatusResponse { response: Seq<char> },
    StatusPong { payload: i64 },
    LoginStart { name: Seq<char> },
    LoginDisconnect { message: Seq<char> },
    LoginSuccess { uuid: u128, username: Seq<char> },
    PlayDisconnect { reason: Seq<char> },
    PlayTags { tags: WireTagsView },
    PlayPosition { x: i32, y: i32, z: i32 },
    PlayKeepAlive { id: i64 },
    PlayEntities { packet_id: i32, entities: Seq<EntityRef>, uuids: Seq<u128> },
    Other { packet_id: i32 },
}

impl View for Packet {
    type V = PacketView;

    open spec fn view(&self) -> PacketView {
        match *self {
            Packet::Handshake { version, next_state } => PacketView::Handshake { version, next_state },
            Packet::StatusRequest => PacketView::StatusRequest,
            Packet::StatusPing { payload } => PacketView::StatusPing { payload },
            Packet::StatusResponse { response } => PacketView::StatusResponse { response: response@ },
            Packet::StatusPong { payload } => PacketView::StatusPong { payload },
            Packet::LoginStart { name } => PacketView::LoginStart { name: name@ },
            Packet::LoginDisconnect { message } => PacketView::LoginDisconnect { message: message@ },
            Packet::LoginSuccess { uuid, username } => PacketView::LoginSuccess {
                uuid,
                username: username@,
            },
            Packet::PlayDisconnect { reason } => PacketView::PlayDisconnect { reason: reason@ },
            Packet::PlayTags { tags } => PacketView::PlayTags { tags: tags@ },
            Packet::PlayPosition { x, y, z } => PacketView::PlayPosition { x, y, z },
            Packet::PlayKeepAlive { id } => PacketView::PlayKeepAlive { id },
            Packet::PlayEntities { packet_id, entities, uuids } => PacketView::PlayEntities {
                packet_id,
                entities: entities@,
                uuids: uuids@,
            },
            Packet::Other { packet_id } => PacketView::Other { packet_id },
        }
    }
}

/// The kind of a decoded packet.
pub open spec fn kind_of(packet: PacketView) -> PacketKind {
    match packet {
        PacketView::Handshake { .. } => PacketKind::Handshake,
        PacketView::StatusRequest => PacketKind::StatusRequest,
        PacketView::StatusPing { .. } => PacketKind::StatusPing,
        PacketView::StatusResponse { .. } => PacketKind::StatusResponse,
        PacketView::StatusPong { .. } => PacketKind::StatusPong,
        PacketView::LoginStart { .. } => PacketKind::LoginStart,
        PacketView::LoginDisconnect { .. } => PacketKind::LoginDisconnect,
        PacketView::LoginSuccess { .. } => PacketKind::LoginSuccess,
        PacketView::PlayDisconnect { .. } => PacketKind::PlayDisconnect,
        PacketView::PlayTags { .. } => PacketKind::PlayTags,
        PacketView::PlayPosition { .. } => PacketKind::PlayPosition,
        PacketView::PlayKeepAlive { .. } => PacketKind::PlayKeepAlive,
        PacketView::PlayEntities { .. } => PacketKind::PlayEntities,
        PacketView::Other { .. } => PacketKind::Other,
    }
}

impl Packet {
    /// The kind of this packet.
    pub fn kind(&self) -> (kind: PacketKind)
        ensures
            kind == kind_of(self@),
    {
        match self {
            Packet::Handshake { .. } => PacketKind::Handshake,
            Packet::StatusRequest => PacketKind::StatusRequest,
            Packet::StatusPing { .. } => PacketKind::StatusPing,
            Packet::StatusResponse { .. } => PacketKind::StatusResponse,
            Packet::StatusPong { .. } => PacketKind::StatusPong,
            Packet::LoginStart { .. } => PacketKind::LoginStart,
            Packet::LoginDisconnect { .. } => PacketKind::LoginDisconnect,
            Packet::LoginSuccess { .. } => PacketKind::LoginSuccess,
            Packet::PlayDisconnect { .. } => PacketKind::PlayDisconnect,
            Packet::PlayTags { .. } => PacketKind::PlayTags,
            Packet::PlayPosition { .. } => PacketKind::PlayPosition,
            Packet::PlayKeepAlive { .. } => PacketKind::PlayKeepAlive,
            Packet::PlayEntities { .. } => PacketKind::PlayEntities,
            Packet::Other { .. } => PacketKind::Other,
        }
    }
}

/// A packet as it was read: the kind that its header gives, its numeric id,
/// and its body, not decoded.
#[derive(Clone, Debug, PartialEq, Eq)]
pub struct RawFrame {
    pub kind: PacketKind,
    pub id: i32,
    pub data: Vec<u8>,
}

/// A raw frame as a value.
pub struct RawFrameView {
    pub kind: PacketKind,
    pub id: i32,
    pub data: Seq<u8>,
}

impl View for RawFrame {
    type V = RawFrameView;

    open spec fn view(&self) -> RawFrameView {
        RawFrameView { kind: self.kind, id: self.id, data: self.data@ }
    }
}

/// Where a packet goes once the relay passes have seen it.
#[derive(Copy, Clone, Debug, PartialEq, Eq, Structural)]
pub enum PacketDestination {
    /// Nowhere: the packet is suppressed.
    Nowhere,
    /// To the backend with this id.
    Server(u64),
    /// To the client.
    Client,
}

/// Where a packet came from.
#[derive(Copy, Clone, Debug, PartialEq, Eq, Structural)]
pub enum PacketSender {
    /// From the backend with this id, on its connection for the client with
    /// this proxy-side UUID.
    Server(u64, u128),
    /// From the client with this proxy-side UUID.
    Proxy(u128),
}

/// The two forms in which a packet is carried.
#[derive(Clone, Debug, PartialEq, Eq)]
pub enum PacketForm {
    Raw(RawFrame),
    Decoded(Packet),
}

/// A packet that is decoded only when something needs its contents.
#[derive(Clone, Debug, PartialEq, Eq)]
pub struct LazyDeserializedPacket {
    /// The form in which the packet is carried now.
    pub form: PacketForm,
}

/// A lazily decoded packet as a value.
pub enum LazyView {
    Raw(RawFrameView),
    Decoded(PacketView),
}

impl LazyView {
    /// The kind of the packet, in either form.
    pub open spec fn kind(self) -> PacketKind {
        match self {
            LazyView::Raw(frame) => frame.kind,
            LazyView::Decoded(packet) => kind_of(packet),
        }
    }

    /// The packet after the decoder's result for its frame was handed in. A
    /// decoded packet stays as it is: it is decoded once. A raw frame takes
    /// the decoded form if the decoder gave one of the frame's kind.
    pub open spec fn decoded_with(self, decoded: Option<PacketView>) -> LazyView {
        match self {
            LazyView::Decoded(_) => self,
            LazyView::Raw(frame) => match decoded {
                Some(packet) => if kind_of(packet) == frame.kind {
                    LazyView::Decoded(packet)
                } else {
                    self
                },
                None => self,
            },
        }
    }
}

impl View for LazyDeserializedPacket {
    type V = LazyView;

    open spec fn view(&self) -> LazyView {
        match self.form {
            PacketForm::Raw(frame) => LazyView::Raw(frame@),
            PacketForm::Decoded(packet) => LazyView::Decoded(packet@),
        }
    }
}

/// What is handed to a writer.
#[derive(Clone, Debug, PartialEq, Eq)]
pub enum WriteOp {
    /// A decoded packet, to be encoded again.
    Encode(Packet),
    /// A raw frame, to be forwarded as it is.
    Forward(RawFrame),
}

/// What a writer is handed, as a value.
pub open spec fn write_op_view(op: WriteOp) -> LazyView {
    match op {
        WriteOp::Encode(packet) => LazyView::Decoded(packet@),
        WriteOp::Forward(frame) => LazyView::Raw(frame@),
    }
}

impl LazyDeserializedPacket {
    /// Carries a raw frame.
    pub fn from_raw_packet(raw: RawFrame) -> (lazy: LazyDeserializedPacket)
        ensures
            lazy@ == LazyView::Raw(raw@),
    {
        LazyDeserializedPacket { form: PacketForm::Raw(raw) }
    }

    /// Carries a decoded packet.
    pub fn from_packet(packet: Packet) -> (lazy: LazyDeserializedPacket)
        ensures
            lazy@ == LazyView::Decoded(packet@),
    {
        LazyDeserializedPacket { form: PacketForm::Decoded(packet) }
    }

    /// The kind of the packet. It never takes decoding.
    pub fn kind(&self) -> (kind: PacketKind)
        ensures
            kind == self@.kind(),
    {
        match &self.form {
            PacketForm::Raw(frame) => frame.kind,
            PacketForm::Decoded(packet) => packet.kind(),
        }
    }

    /// Whether the packet is carried in decoded form.
    pub fn is_deserialized(&self) -> (b: bool)
        ensures
            b == (self@ is Decoded),
    {
        match &self.form {
            PacketForm::Raw(_) => false,
            PacketForm::Decoded(_) => true,
        }
    }

    /// Takes what the decoder made of the packet's frame: the decoded packet,
    /// or `None` where the frame could not be decoded. A packet that is
    /// decoded already is left as it is. Fails with `ProtocolError`, leaving
    /// the raw frame in place, if the frame could not be decoded or the
    /// decoded packet is not of the frame's kind.
    pub fn decode(&mut self, decoded: Option<Packet>) -> (res: Result<(), SplinterError>)
        ensures
            final(self)@ == old(self)@.decoded_with(
                match decoded {
                    Some(packet) => Some(packet@),
                    None => None,
                },
            ),
            final(self)@ is Decoded ==> res is Ok,
            final(self)@ is Raw ==> res == Err::<(), SplinterError>(SplinterError::ProtocolError),
    {
        let expected = match &self.form {
            PacketForm::Raw(frame) => frame.kind,
            PacketForm::Decoded(_) => {
                return Ok(());
            },
        };
        match decoded {
            Some(packet) => {
                if packet.kind() == expected {
                    self.form = PacketForm::Decoded(packet);
                    Ok(())
                } else {
                    Err(SplinterError::ProtocolError)
                }
            },
            None => Err(SplinterError::ProtocolError),
        }
    }

    /// The decoded packet, if the packet is carried in decoded form.
    pub fn packet(&self) -> (res: Option<&Packet>)
        ensures
            match res {
                Some(packet) => self@ == LazyView::Decoded(packet@),
                None => self@ is Raw,
            },
    {
        match &self.form {
            PacketForm::Raw(_) => None,
            PacketForm::Decoded(packet) => Some(packet),
        }
    }

    /// The raw frame, if the packet was not decoded.
    pub fn into_raw_packet(self) -> (res: Option<RawFrame>)
        ensures
            match res {
                Some(frame) => self@ == LazyView::Raw(frame@),
                None => self@ is Decoded,
            },
    {
        match self.form {
            PacketForm::Raw(frame) => Some(frame),
            PacketForm::Decoded(_) => None,
        }
    }

    /// The decoded packet, if the packet was decoded.
    pub fn into_packet(self) -> (res: Option<Packet>)
        ensures
            match res {
                Some(packet) => self@ == LazyView::Decoded(packet@),
                None => self@ is Raw,
            },
    {
        match self.form {
            PacketForm::Raw(_) => None,
            PacketForm::Decoded(packet) => Some(packet),
        }
    }
}

/// What a writer is handed for a packet: the decoded packet to encode again
/// if the packet was decoded, else the raw frame to forward as it is.
pub fn write_packet(lazy_packet: LazyDeserializedPacket) -> (op: WriteOp)
    ensures
        write_op_view(op) == lazy_packet@,
        op is Encode <==> lazy_packet@ is Decoded,
{
    match lazy_packet.form {
        PacketForm::Raw(frame) => WriteOp::Forward(frame),
        PacketForm::Decoded(packet) => WriteOp::Encode(packet),
    }
}

impl PacketSender {
    /// The proxy-side UUID of the client whose traffic the packet belongs to.
    pub open spec fn client(self) -> u128 {
        match self {
            PacketSender::Server(_, uuid) => uuid,
            PacketSender::Proxy(uuid) => uuid,
        }
    }

    /// The proxy-side UUID of the client whose traffic the packet belongs to.
    pub fn client_uuid(&self) -> (uuid: u128)
        ensures
            uuid == self.client(),
    {
        match self {
            PacketSender::Server(_, uuid) => *uuid,
            PacketSender::Proxy(uuid) => *uuid,
        }
    }
}

/// Decoding happens once: what a decoder gives for a packet that is decoded
/// already changes nothing, and decoding never changes a packet's kind.
pub proof fn lemma_decode_once(lazy: LazyView, first: Option<PacketView>, second: Option<PacketView>)
    ensures
        lazy.decoded_with(first).kind() == lazy.kind(),
        lazy.decoded_with(first) is Decoded ==> lazy.decoded_with(first).decoded_with(second)
            == lazy.decoded_with(first),
{
}

} // verus!
