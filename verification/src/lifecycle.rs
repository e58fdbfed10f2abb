//! The life of a connection before the play phase: the handshake, the
//! status sub-protocol and the login.
//!
//! Each function here decides one step. The caller reads the packets,
//! hands them in, and performs what the step asks for.

use vstd::prelude::*;
use crate::client::{Position, SplinterClient, SplinterServerConnection};
use crate::error::SplinterError;
use crate::keyed::absent;
use crate::packet::{HandshakeNextState, Packet, PacketKind, PacketView, kind_of};
use crate::proxy::{client_uuids, server_ids, SplinterConfig, SplinterProxy};
use crate::version::{schema_of, version_with_number, PacketSchema, ProtocolVersion};
use crate::zoning::backend_of;

verus! {

/// Where a connection goes after its first packet.
#[derive(Copy, Clone, Debug, PartialEq, Eq)]
pub enum HandshakeRoute {
    /// To the status sub-protocol, with this schema. If `unsupported` holds
    /// a version number, the peer announced that number, which the registry
    /// does not know: the status is served all the same, and the connection
    /// ends with `UnsupportedVersion` once the reply is sent.
    Status { schema: PacketSchema, unsupported: Option<i32> },
    /// To the login, with this version.
    Login { version: ProtocolVersion },
    /// Nowhere: the peer asked to log in with a version that the registry
    /// does not know. It is sent the login-phase disconnect for improper
    /// versions, and the connection is closed.
    Refused { number: i32 },
    /// Nowhere: the first packet was no handshake. The connection is closed.
    Invalid,
    /// Nowhere: the peer closed before it sent a packet.
    Closed,
}

/// Where a connection goes after its first packet, or after it closed
/// without one.
pub open spec fn handshake_route(first: Option<PacketView>) -> HandshakeRoute {
    match first {
        None => HandshakeRoute::Closed,
        Some(PacketView::Handshake { version, next_state }) => match next_state {
            HandshakeNextState::Status => match version_with_number(version as int) {
                Some(v) => HandshakeRoute::Status { schema: schema_of(v), unsupported: None },
                None => HandshakeRoute::Status { schema: PacketSchema::S753, unsupported: Some(version) },
            },
            HandshakeNextState::Login => match version_with_number(version as int) {
                Some(v) => HandshakeRoute::Login { version: v },
                None => HandshakeRoute::Refused { number: version },
            },
        },
        Some(_) => HandshakeRoute::Invalid,
    }
}

/// The error with which a connection ends on a route, if it ends with one.
pub open spec fn route_error(route: HandshakeRoute) -> Option<SplinterError> {
    match route {
        HandshakeRoute::Status { unsupported: Some(version), .. } => Some(
            SplinterError::UnsupportedVersion(version),
        ),
        HandshakeRoute::Status { unsupported: None, .. } => None,
        HandshakeRoute::Login { .. } => None,
        HandshakeRoute::Refused { number } => Some(SplinterError::UnsupportedVersion(number)),
        HandshakeRoute::Invalid => Some(SplinterError::ProtocolError),
        HandshakeRoute::Closed => None,
    }
}

/// Decides where a connection goes from its first packet, read with the
/// 753 schema; `None` stands for a peer that closed before it sent one.
pub fn handle_handshake(first: Option<&Packet>) -> (route: HandshakeRoute)
    ensures
        route == handshake_route(
            match first {
                Some(packet) => Some(packet@),
                None => None,
            },
        ),
{
    match first {
        None => HandshakeRoute::Closed,
        Some(Packet::Handshake { version, next_state }) => {
            let resolved = ProtocolVersion::from_number(*version);
            match next_state {
                HandshakeNextState::Status => match resolved {
                    Ok(v) => HandshakeRoute::Status { schema: v.schema(), unsupported: None },
                    Err(_) => HandshakeRoute::Status {
                        schema: PacketSchema::S753,
                        unsupported: Some(*version),
                    },
                },
                HandshakeNextState::Login => match resolved {
                    Ok(v) => HandshakeRoute::Login { version: v },
                    Err(_) => HandshakeRoute::Refused { number: *version },
                },
            }
        },
        Some(_) => HandshakeRoute::Invalid,
    }
}

impl HandshakeRoute {
    /// The error with which the connection ends on this route, if it ends
    /// with one. On the status route the error is due after the reply.
    pub fn error(&self) -> (res: Option<SplinterError>)
        ensures
            res == route_error(*self),
    {
        match self {
            HandshakeRoute::Status { unsupported: Some(version), .. } => Some(
                SplinterError::UnsupportedVersion(*version),
            ),
            HandshakeRoute::Status { unsupported: None, .. } => None,
            HandshakeRoute::Login { .. } => None,
            HandshakeRoute::Refused { number } => Some(SplinterError::UnsupportedVersion(*number)),
            HandshakeRoute::Invalid => Some(SplinterError::ProtocolError),
            HandshakeRoute::Closed => None,
        }
    }
}

/// The login-phase disconnect for a client of an unsupported version: it
/// carries the configured message.
pub fn improper_version_disconnect(config: &SplinterConfig) -> (packet: Packet)
    ensures
        packet@ == (PacketView::LoginDisconnect { message: config.improper_version_disconnect_message@ }),
{
    Packet::LoginDisconnect { message: config.improper_version_disconnect_message.clone() }
}

/// The status response: it carries the configured status as it is.
pub fn status_response(config: &SplinterConfig) -> (packet: Packet)
    ensures
        packet@ == (PacketView::StatusResponse { response: config.server_status@ }),
{
    Packet::StatusResponse { response: config.server_status.clone() }
}

/// The state of a status session. A session starts in `Serving`, once the
/// status response is sent.
#[derive(Copy, Clone, Debug, PartialEq, Eq)]
pub enum StatusState {
    /// The response is sent; the session waits for a ping.
    Serving,
    /// The session is over.
    Closed,
}

/// What a status session reads.
#[derive(Copy, Clone, Debug, PartialEq, Eq)]
pub enum StatusEvent {
    /// A ping, with its payload.
    Ping(i64),
    /// A status request.
    Request,
    /// A packet of another kind.
    Other(PacketKind),
    /// The end of the stream.
    Eof,
}

/// What a status session does in answer to what it read.
#[derive(Copy, Clone, Debug, PartialEq, Eq)]
pub enum StatusAction {
    /// Send a pong with this payload, then close.
    Pong(i64),
    /// Nothing.
    Nothing,
    /// Report an unexpected packet of this kind, and go on.
    Report(PacketKind),
    /// Close.
    Close,
}

/// What was read, as an event of a status session.
pub open spec fn status_event_of(read: Option<PacketView>) -> StatusEvent {
    match read {
        None => StatusEvent::Eof,
        Some(PacketView::StatusPing { payload }) => StatusEvent::Ping(payload),
        Some(PacketView::StatusRequest) => StatusEvent::Request,
        Some(other) => StatusEvent::Other(kind_of(other)),
    }
}

/// One step of a status session. A ping is answered with its payload and
/// ends the session. A status request gets no second response. Another
/// packet is reported and ignored. The end of the stream ends the session.
/// A session that is over does nothing.
pub open spec fn status_step(state: StatusState, event: StatusEvent) -> (StatusState, StatusAction) {
    match state {
        StatusState::Closed => (StatusState::Closed, StatusAction::Nothing),
        StatusState::Serving => match event {
            StatusEvent::Ping(payload) => (StatusState::Closed, StatusAction::Pong(payload)),
            StatusEvent::Request => (StatusState::Serving, StatusAction::Nothing),
            StatusEvent::Other(kind) => (StatusState::Serving, StatusAction::Report(kind)),
            StatusEvent::Eof => (StatusState::Closed, StatusAction::Close),
        },
    }
}

/// Classifies what a status session read; `None` stands for the end of the stream.
pub fn status_event(read: Option<&Packet>) -> (event: StatusEvent)
    ensures
        event == status_event_of(
            match read {
                Some(packet) => Some(packet@),
                None => None,
            },
        ),
{
    match read {
        None => StatusEvent::Eof,
        Some(Packet::StatusPing { payload }) => StatusEvent::Ping(*payload),
        Some(Packet::StatusRequest) => StatusEvent::Request,
        Some(other) => StatusEvent::Other(other.kind()),
    }
}

/// One step of a status session: the next state, and what to do.
pub fn handle_client_status(state: StatusState, event: StatusEvent) -> (step: (StatusState, StatusAction))
    ensures
        step == status_step(state, event),
{
    match state {
        StatusState::Closed => (StatusState::Closed, StatusAction::Nothing),
        StatusState::Serving => match event {
            StatusEvent::Ping(payload) => (StatusState::Closed, StatusAction::Pong(payload)),
            StatusEvent::Request => (StatusState::Serving, StatusAction::Nothing),
            StatusEvent::Other(kind) => (StatusState::Serving, StatusAction::Report(kind)),
            StatusEvent::Eof => (StatusState::Closed, StatusAction::Close),
        },
    }
}

/// The pong that answers a ping: it carries the ping's payload.
pub fn status_pong(payload: i64) -> (packet: Packet)
    ensures
        packet@ == (PacketView::StatusPong { payload }),
{
    Packet::StatusPong { payload }
}

/// The state of a status session after a run of events.
pub open spec fn status_state_after(state: StatusState, events: Seq<StatusEvent>) -> StatusState
    decreases events.len(),
{
    if events.len() == 0 {
        state
    } else {
        status_step(status_state_after(state, events.drop_last()), events.last()).0
    }
}

/// What a status session does at each event of a run.
pub open spec fn status_actions(state: StatusState, events: Seq<StatusEvent>) -> Seq<StatusAction> {
    Seq::new(
        events.len(),
        |i: int| status_step(status_state_after(state, events.take(i)), events[i]).1,
    )
}

/// Whether an event ends a session that is serving.
pub open spec fn ends_session(event: StatusEvent) -> bool {
    event is Ping || event is Eof
}

/// A session stays open as long as it has read neither a ping nor the end
/// of the stream, and is over from then on.
pub proof fn lemma_status_state_after(events: Seq<StatusEvent>)
    ensures
        status_state_after(StatusState::Serving, events) == if exists|i: int|
            0 <= i < events.len() && ends_session(#[trigger] events[i]) {
            StatusState::Closed
        } else {
            StatusState::Serving
        },
    decreases events.len(),
{
    if events.len() > 0 {
        let front = events.drop_last();
        lemma_status_state_after(front);
        if exists|i: int| 0 <= i < front.len() && ends_session(#[trigger] front[i]) {
            let i = choose|i: int| 0 <= i < front.len() && ends_session(#[trigger] front[i]);
            assert(ends_session(events[i]));
        } else if ends_session(events.last()) {
            assert(ends_session(events[events.len() - 1]));
        } else {
            assert forall|i: int| 0 <= i < events.len() implies !ends_session(#[trigger] events[i]) by {
                if i < front.len() {
                    assert(!ends_session(front[i]));
                }
            }
        }
    }
}

/// A status session answers the first ping it reads, with the ping's
/// payload, if it has not read the end of the stream before; it sends no
/// other pong, and does nothing once it is over.
pub proof fn lemma_status_answers_first_ping(events: Seq<StatusEvent>, i: int)
    requires
        0 <= i < events.len(),
    ensures
        status_actions(StatusState::Serving, events)[i] is Pong <==> (events[i] is Ping && forall|j: int|
            0 <= j < i ==> !ends_session(#[trigger] events[j])),
        status_actions(StatusState::Serving, events)[i] matches StatusAction::Pong(payload)
            ==> events[i] == StatusEvent::Ping(payload),
        (exists|j: int| 0 <= j < i && ends_session(#[trigger] events[j])) ==> status_actions(
            StatusState::Serving,
            events,
        )[i] == StatusAction::Nothing,
{
    let before = events.take(i);
    lemma_status_state_after(before);
    if exists|j: int| 0 <= j < before.len() && ends_session(#[trigger] before[j]) {
        let j = choose|j: int| 0 <= j < before.len() && ends_session(#[trigger] before[j]);
        assert(ends_session(events[j]));
    } else {
        assert forall|j: int| 0 <= j < i implies !ends_session(#[trigger] events[j]) by {
            assert(!ends_session(before[j]));
        }
    }
}

/// What the login asks of the caller after the client's first packet.
#[derive(Copy, Clone, Debug, PartialEq, Eq)]
pub enum LoginStep {
    /// Connect to this backend, log the client in there, and learn the UUID
    /// it gives the client and where it spawns the client.
    Connect(u64),
    /// Send a login-phase disconnect and close: the packet was no login
    /// start, or the stream ended.
    Reject,
    /// Send a login-phase disconnect and close: no backend is registered.
    NoBackend,
}

/// What the login asks of the caller after the client's first packet; the
/// backend to connect to is the first of the registry.
pub open spec fn login_step(first: Option<PacketView>, backends: Seq<u64>) -> LoginStep {
    match first {
        Some(PacketView::LoginStart { .. }) => if backends.len() > 0 {
            LoginStep::Connect(backends[0])
        } else {
            LoginStep::NoBackend
        },
        _ => LoginStep::Reject,
    }
}

/// The first step of a login, from the first packet that the client sent
/// in the login phase; `None` stands for the end of the stream.
pub fn handle_client_login(proxy: &SplinterProxy, first: Option<&Packet>) -> (step: LoginStep)
    ensures
        step == login_step(
            match first {
                Some(packet) => Some(packet@),
                None => None,
            },
            server_ids(proxy.servers@),
        ),
{
    match first {
        Some(Packet::LoginStart { .. }) => {
            if proxy.servers.len() > 0 {
                LoginStep::Connect(proxy.servers[0].id)
            } else {
                LoginStep::NoBackend
            }
        },
        _ => LoginStep::Reject,
    }
}

/// What a finished login asks of the caller.
pub struct LoginOrder {
    /// The proxy-side UUID of the new client.
    pub uuid: u128,
    /// The backend that owns the client from the start.
    pub active_server_id: u64,
    /// Whether the caller has to open a connection to that backend, because
    /// it is not the backend that the login went through.
    pub connect: bool,
    /// The login success to send to the client.
    pub success: Packet,
}

/// The outcome of the last step of a login: the UUID and the owning backend
/// of the new client, or the reason for which there is none.
pub open spec fn login_outcome(
    proxy: &SplinterProxy,
    entry_server_id: u64,
    backend_uuid: u128,
    spawn: Position,
) -> Result<(u128, u64), SplinterError> {
    match backend_of(proxy.zoner.zones@, proxy.zoner.default, spawn.x as int, spawn.z as int) {
        Err(e) => Err(e),
        Ok(target) => if absent(server_ids(proxy.servers@), target) {
            Err(SplinterError::UnknownServer(target))
        } else {
            match proxy.mapping@.uuid_server_to_proxy(entry_server_id, backend_uuid) {
                Err(e) => Err(e),
                Ok(uuid) => if absent(client_uuids(proxy.players@), uuid) {
                    Ok((uuid, target))
                } else {
                    Err(SplinterError::ProtocolError)
                },
            }
        },
    }
}

/// The last step of a login, once the backend that the login went through
/// has told the UUID it gives the client and where it spawns the client.
/// The backend that owns the spawn position becomes the client's active
/// backend; the UUID of the backend is mapped to a proxy-side UUID, which
/// the client is known by from then on; the client enters the registry,
/// with one connection, to its active backend. If that is the backend that
/// the login went through, the connection knows the client by the UUID the
/// backend gave; if not, by the proxy-side UUID, until the caller has
/// logged the client in there.
///
/// Fails, and registers no client, with `Unzoned` if no backend owns the
/// spawn position, with `UnknownServer` if the backend that owns it is not
/// registered, with `IdsExhausted` if no UUID is left, and with
/// `ProtocolError` if the UUID belongs to a live client. The client is then
/// owed a login-phase disconnect.
pub fn complete_login(
    proxy: &mut SplinterProxy,
    version: ProtocolVersion,
    name: String,
    entry_server_id: u64,
    backend_uuid: u128,
    spawn: Position,
) -> (res: Result<LoginOrder, SplinterError>)
    requires
        old(proxy).wf(),
    ensures
        final(proxy).wf(),
        final(proxy).alive == old(proxy).alive,
        final(proxy).config == old(proxy).config,
        final(proxy).servers == old(proxy).servers,
        final(proxy).tags == old(proxy).tags,
        final(proxy).zoner == old(proxy).zoner,
        final(proxy).player_data == old(proxy).player_data,
        match login_outcome(old(proxy), entry_server_id, backend_uuid, spawn) {
            Ok((uuid, target)) => {
                &&& res is Ok
                &&& res->Ok_0.uuid == uuid
                &&& res->Ok_0.active_server_id == target
                &&& res->Ok_0.connect == (target != entry_server_id)
                &&& res->Ok_0.success@ == (PacketView::LoginSuccess { uuid, username: name@ })
                &&& final(proxy).mapping@ == old(proxy).mapping@.after_uuid(entry_server_id, backend_uuid)
                &&& final(proxy).players@.len() == old(proxy).players@.len() + 1
                &&& final(proxy).players@.drop_last() == old(proxy).players@
                &&& final(proxy).players@.last().uuid == uuid
                &&& final(proxy).players@.last().name@ == name@
                &&& final(proxy).players@.last().version == version
                &&& final(proxy).players@.last().alive
                &&& final(proxy).players@.last().active_server_id == target
                &&& final(proxy).players@.last().position == spawn
                &&& final(proxy).players@.last().servers@ == seq![
                    SplinterServerConnection {
                        id: target,
                        client_uuid: if target == entry_server_id {
                            backend_uuid
                        } else {
                            uuid
                        },
                        alive: true,
                    },
                ]
                &&& final(proxy).players@.last().keep_alive_waiting@ == Seq::<i64>::empty()
            },
            Err(e) => {
                &&& res is Err
                &&& res->Err_0 == e
                &&& final(proxy).players@ == old(proxy).players@
                &&& final(proxy).mapping@ == if e is Unzoned || e is UnknownServer {
                    old(proxy).mapping@
                } else {
                    old(proxy).mapping@.after_uuid(entry_server_id, backend_uuid)
                }
            },
        },
{
    let target = match proxy.zoner.zone_of(spawn.x, spawn.z) {
        Ok(target) => target,
        Err(e) => {
            return Err(e);
        },
    };
    if !proxy.has_server(target) {
        return Err(SplinterError::UnknownServer(target));
    }
    let uuid = match proxy.mapping.map_uuid_server_to_proxy(entry_server_id, backend_uuid) {
        Ok(uuid) => uuid,
        Err(e) => {
            return Err(e);
        },
    };
    let username = name.clone();
    let known_as = if target == entry_server_id {
        backend_uuid
    } else {
        uuid
    };
    let client = SplinterClient::new(name, uuid, version, target, known_as, spawn);
    match proxy.add_client(client) {
        Ok(()) => {
            assert(proxy.players@.drop_last() =~= old(proxy).players@);
            Ok(
                LoginOrder {
                    uuid,
                    active_server_id: target,
                    connect: target != entry_server_id,
                    success: Packet::LoginSuccess { uuid, username },
                },
            )
        },
        Err(e) => Err(e),
    }
}

} // verus!
