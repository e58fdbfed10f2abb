//! Clients, backends, and the connections between them.

use vstd::prelude::*;
use crate::keyed::{absent, distinct, first_at, lemma_distinct_push, lemma_place_of, place_of};
use crate::kick::{kick_text, ClientKickReason};
use crate::packet::{write_packet, LazyDeserializedPacket, LazyView, Packet, PacketView, WriteOp, write_op_view};
use crate::version::ProtocolVersion;

verus! {

/// A position in the world, in block coordinates.
#[derive(Copy, Clone, Debug, PartialEq, Eq, Structural)]
pub struct Position {
    pub x: i32,
    pub y: i32,
    pub z: i32,
}

/// A backend server.
#[derive(Clone, Debug, PartialEq, Eq)]
pub struct SplinterServer {
    /// The id of the backend. It never changes.
    pub id: u64,
    /// The TCP address of the backend, as `host:port`.
    pub address: String,
}

/// The connection of one client to one backend.
#[derive(Copy, Clone, Debug, PartialEq, Eq, Structural)]
pub struct SplinterServerConnection {
    /// The id of the backend.
    pub id: u64,
    /// The UUID by which the backend knows the client.
    pub client_uuid: u128,
    /// Whether the connection is in use.
    pub alive: bool,
}

/// The most keep-alive nonces that a client is waited on for at a time.
pub const KEEP_ALIVE_CAPACITY: usize = 256;

/// The backend ids of a list of connections.
pub open spec fn connection_ids(connections: Seq<SplinterServerConnection>) -> Seq<u64> {
    Seq::new(connections.len(), |i: int| connections[i].id)
}

/// A connected client.
#[derive(Clone, Debug, PartialEq, Eq)]
pub struct SplinterClient {
    /// The name the proxy knows the client by.
    pub name: String,
    /// The proxy-side UUID of the client.
    pub uuid: u128,
    /// The protocol version that the client speaks.
    pub version: ProtocolVersion,
    /// Whether the client's session is alive.
    pub alive: bool,
    /// The backend that owns the client now.
    pub active_server_id: u64,
    /// The client's open backend connections, in the order they were opened.
    pub servers: Vec<SplinterServerConnection>,
    /// The last position the client reported.
    pub position: Position,
    /// The keep-alive nonces that the client has not answered, oldest first.
    /// A nonce is the time, in milliseconds, at which it was sent.
    pub keep_alive_waiting: Vec<i64>,
}

/// A client as a value.
pub struct ClientView {
    pub name: Seq<char>,
    pub uuid: u128,
    pub version: ProtocolVersion,
    pub alive: bool,
    pub active_server_id: u64,
    pub servers: Seq<SplinterServerConnection>,
    pub position: Position,
    pub keep_alive_waiting: Seq<i64>,
}

impl View for SplinterClient {
    type V = ClientView;

    open spec fn view(&self) -> ClientView {
        ClientView {
            name: self.name@,
            uuid: self.uuid,
            version: self.version,
            alive: self.alive,
            active_server_id: self.active_server_id,
            servers: self.servers@,
            position: self.position,
            keep_alive_waiting: self.keep_alive_waiting@,
        }
    }
}

/// The clients of a list as values.
pub open spec fn client_views(clients: Seq<SplinterClient>) -> Seq<ClientView> {
    Seq::new(clients.len(), |i: int| clients[i]@)
}

impl ClientView {
    /// No backend has two connections, and the active backend has one.
    pub open spec fn valid(self) -> bool {
        &&& distinct(connection_ids(self.servers))
        &&& !absent(connection_ids(self.servers), self.active_server_id)
    }

    /// The client after a keep-alive with this nonce was sent to it. A
    /// client that is waited on for as many nonces as the queue holds is not
    /// waited on for more.
    pub open spec fn waited_for(self, nonce: i64) -> ClientView {
        if self.keep_alive_waiting.len() < KEEP_ALIVE_CAPACITY {
            ClientView { keep_alive_waiting: self.keep_alive_waiting.push(nonce), ..self }
        } else {
            self
        }
    }

    /// The client after it answered a keep-alive: the oldest nonce that
    /// equals the answer is no longer waited for.
    pub open spec fn answered(self, nonce: i64) -> ClientView {
        match place_of(self.keep_alive_waiting, nonce) {
            Some(i) => ClientView { keep_alive_waiting: self.keep_alive_waiting.remove(i), ..self },
            None => self,
        }
    }

    /// Whether the client has left a keep-alive unanswered for too long:
    /// the oldest nonce it has not answered was sent more than `threshold`
    /// milliseconds before `now`.
    pub open spec fn overdue(self, now: i64, threshold: i64) -> bool {
        self.keep_alive_waiting.len() > 0 && now - self.keep_alive_waiting[0] > threshold
    }

    /// The client after it reported a position.
    pub open spec fn moved_to(self, position: Position) -> ClientView {
        ClientView { position, ..self }
    }

    /// The client after a backend took it over: it has a connection to the
    /// backend, a new one at the end of its list if it had none, and the
    /// backend is its active one.
    pub open spec fn switched_to(self, server_id: u64) -> ClientView {
        ClientView {
            active_server_id: server_id,
            servers: if absent(connection_ids(self.servers), server_id) {
                self.servers.push(
                    SplinterServerConnection { id: server_id, client_uuid: self.uuid, alive: true },
                )
            } else {
                self.servers
            },
            ..self
        }
    }
}

impl SplinterClient {
    /// No backend has two connections, and the active backend has one.
    pub open spec fn wf(&self) -> bool {
        &&& distinct(connection_ids(self.servers@))
        &&& !absent(connection_ids(self.servers@), self.active_server_id)
    }

    /// Whether two clients are the same but for their connections.
    pub open spec fn same_session(&self, other: &SplinterClient) -> bool {
        &&& self.name == other.name
        &&& self.uuid == other.uuid
        &&& self.version == other.version
        &&& self.alive == other.alive
        &&& self.position == other.position
        &&& self.keep_alive_waiting == other.keep_alive_waiting
    }

    /// A client whose login is done: alive, with one connection, to the
    /// backend that owns it, and nothing to wait for. `backend_uuid` is the
    /// UUID by which that backend knows the client.
    pub fn new(
        name: String,
        uuid: u128,
        version: ProtocolVersion,
        active_server_id: u64,
        backend_uuid: u128,
        position: Position,
    ) -> (client: SplinterClient)
        ensures
            client.wf(),
            client.name == name,
            client.uuid == uuid,
            client.version == version,
            client.alive,
            client.active_server_id == active_server_id,
            client.position == position,
            client.servers@ == seq![
                SplinterServerConnection { id: active_server_id, client_uuid: backend_uuid, alive: true },
            ],
            client.keep_alive_waiting@ == Seq::<i64>::empty(),
    {
        let mut servers: Vec<SplinterServerConnection> = Vec::new();
        servers.push(
            SplinterServerConnection { id: active_server_id, client_uuid: backend_uuid, alive: true },
        );
        let client = SplinterClient {
            name,
            uuid,
            version,
            alive: true,
            active_server_id,
            servers,
            position,
            keep_alive_waiting: Vec::new(),
        };
        proof {
            assert(connection_ids(client.servers@)[0] == active_server_id);
        }
        client
    }

    /// The place of the connection to a backend, if the client has one.
    pub fn connection_index(&self, server_id: u64) -> (res: Option<usize>)
        ensures
            match res {
                Some(i) => first_at(connection_ids(self.servers@), i as int, server_id),
                None => absent(connection_ids(self.servers@), server_id),
            },
            match res {
                Some(i) => place_of(connection_ids(self.servers@), server_id) == Some(i as int),
                None => place_of(connection_ids(self.servers@), server_id) is None,
            },
    {
        let ghost ids = connection_ids(self.servers@);
        let mut i: usize = 0;
        while i < self.servers.len()
            invariant
                i <= self.servers.len(),
                ids == connection_ids(self.servers@),
                forall|j: int| 0 <= j < i ==> #[trigger] ids[j] != server_id,
            decreases self.servers.len() - i,
        {
            if self.servers[i].id == server_id {
                proof {
                    assert(ids[i as int] == server_id);
                    lemma_place_of(ids, i as int, server_id);
                }
                return Some(i);
            }
            assert(ids[i as int] != server_id);
            i = i + 1;
        }
        proof {
            crate::keyed::lemma_place_of_absent(ids, server_id);
        }
        None
    }

    /// The connection to the backend that owns the client.
    pub fn server(&self) -> (connection: SplinterServerConnection)
        requires
            self.wf(),
        ensures
            place_of(connection_ids(self.servers@), self.active_server_id) is Some,
            connection == self.servers@[place_of(connection_ids(self.servers@), self.active_server_id)->0],
            connection.id == self.active_server_id,
    {
        match self.connection_index(self.active_server_id) {
            Some(i) => {
                assert(connection_ids(self.servers@)[i as int] == self.servers@[i as int].id);
                self.servers[i]
            },
            None => {
                proof {
                    assert(false);
                }
                SplinterServerConnection { id: self.active_server_id, client_uuid: self.uuid, alive: false }
            },
        }
    }

    /// Makes sure that the client has a connection to a backend. Returns
    /// whether one had to be added; a new one goes to the end of the list, is
    /// alive, and knows the client by its proxy-side UUID until the backend
    /// says otherwise.
    pub fn ensure_connection(&mut self, server_id: u64) -> (opened: bool)
        requires
            old(self).wf(),
        ensures
            final(self).wf(),
            final(self).same_session(old(self)),
            final(self).active_server_id == old(self).active_server_id,
            opened == absent(connection_ids(old(self).servers@), server_id),
            opened ==> final(self).servers@ == old(self).servers@.push(
                SplinterServerConnection { id: server_id, client_uuid: old(self).uuid, alive: true },
            ),
            !opened ==> final(self).servers@ == old(self).servers@,
            !absent(connection_ids(final(self).servers@), server_id),
    {
        let ghost ids = connection_ids(self.servers@);
        match self.connection_index(server_id) {
            Some(i) => {
                assert(ids[i as int] == server_id);
                false
            },
            None => {
                let connection = SplinterServerConnection { id: server_id, client_uuid: self.uuid, alive: true };
                self.servers.push(connection);
                proof {
                    lemma_distinct_push(ids, server_id);
                    assert(connection_ids(self.servers@) =~= ids.push(server_id));
                    let k = choose|k: int| 0 <= k < ids.len() && ids[k] == self.active_server_id;
                    assert(ids.push(server_id)[k] == self.active_server_id);
                    assert(ids.push(server_id)[ids.len() as int] == server_id);
                }
                true
            },
        }
    }

    /// Records the UUID by which a backend knows the client, once the
    /// backend has told it. Returns whether the client has a connection to
    /// the backend; if it has none, nothing changes.
    pub fn set_connection_uuid(&mut self, server_id: u64, backend_uuid: u128) -> (found: bool)
        requires
            old(self).wf(),
        ensures
            final(self).wf(),
            final(self).same_session(old(self)),
            final(self).active_server_id == old(self).active_server_id,
            found == !absent(connection_ids(old(self).servers@), server_id),
            connection_ids(final(self).servers@) == connection_ids(old(self).servers@),
            match place_of(connection_ids(old(self).servers@), server_id) {
                Some(i) => final(self).servers@ == old(self).servers@.update(
                    i,
                    SplinterServerConnection { client_uuid: backend_uuid, ..old(self).servers@[i] },
                ),
                None => final(self).servers@ == old(self).servers@,
            },
    {
        let ghost ids = connection_ids(self.servers@);
        match self.connection_index(server_id) {
            Some(i) => {
                let connection = self.servers[i];
                assert(ids[i as int] == server_id);
                self.servers.set(i, SplinterServerConnection { client_uuid: backend_uuid, ..connection });
                assert(connection_ids(self.servers@) =~= ids);
                true
            },
            None => false,
        }
    }

    /// Marks the connection to a backend as no longer in use. Returns whether
    /// the client has such a connection.
    pub fn close_connection(&mut self, server_id: u64) -> (found: bool)
        requires
            old(self).wf(),
        ensures
            final(self).wf(),
            final(self).same_session(old(self)),
            final(self).active_server_id == old(self).active_server_id,
            found == !absent(connection_ids(old(self).servers@), server_id),
            connection_ids(final(self).servers@) == connection_ids(old(self).servers@),
            match place_of(connection_ids(old(self).servers@), server_id) {
                Some(i) => final(self).servers@ == old(self).servers@.update(
                    i,
                    SplinterServerConnection { alive: false, ..old(self).servers@[i] },
                ),
                None => final(self).servers@ == old(self).servers@,
            },
    {
        let ghost ids = connection_ids(self.servers@);
        match self.connection_index(server_id) {
            Some(i) => {
                let connection = self.servers[i];
                assert(ids[i as int] == server_id);
                self.servers.set(i, SplinterServerConnection { alive: false, ..connection });
                assert(connection_ids(self.servers@) =~= ids);
                true
            },
            None => false,
        }
    }

    /// Hands the client over to a backend: makes sure that the client has a
    /// connection to it, and makes it the active one. Returns whether a
    /// connection had to be added.
    pub fn switch_server(&mut self, server_id: u64) -> (opened: bool)
        requires
            old(self).wf(),
        ensures
            final(self).wf(),
            final(self)@ == old(self)@.switched_to(server_id),
            opened == absent(connection_ids(old(self).servers@), server_id),
    {
        let opened = self.ensure_connection(server_id);
        self.active_server_id = server_id;
        opened
    }

    /// Records that a keep-alive with this nonce was sent to the client. The
    /// queue of nonces is bounded: a nonce that finds it full is not queued.
    pub fn keep_alive_sent(&mut self, nonce: i64)
        ensures
            final(self)@ == old(self)@.waited_for(nonce),
            final(self).name == old(self).name,
            final(self).servers == old(self).servers,
            old(self).wf() ==> final(self).wf(),
    {
        if self.keep_alive_waiting.len() < KEEP_ALIVE_CAPACITY {
            self.keep_alive_waiting.push(nonce);
        }
    }

    /// Records that the client answered a keep-alive. The oldest nonce that
    /// equals the answer is no longer waited for. Returns whether there was one.
    pub fn keep_alive_received(&mut self, nonce: i64) -> (known: bool)
        ensures
            known == !absent(old(self).keep_alive_waiting@, nonce),
            final(self)@ == old(self)@.answered(nonce),
            final(self).name == old(self).name,
            final(self).servers == old(self).servers,
            old(self).wf() ==> final(self).wf(),
    {
        let ghost waiting = self.keep_alive_waiting@;
        let mut i: usize = 0;
        while i < self.keep_alive_waiting.len()
            invariant
                i <= self.keep_alive_waiting.len(),
                waiting == self.keep_alive_waiting@,
                *self == *old(self),
                forall|j: int| 0 <= j < i ==> #[trigger] waiting[j] != nonce,
            decreases self.keep_alive_waiting.len() - i,
        {
            if self.keep_alive_waiting[i] == nonce {
                proof {
                    lemma_place_of(waiting, i as int, nonce);
                }
                self.keep_alive_waiting.remove(i);
                return true;
            }
            i = i + 1;
        }
        proof {
            crate::keyed::lemma_place_of_absent(waiting, nonce);
        }
        false
    }

    /// Whether the client has left a keep-alive unanswered for too long: the
    /// oldest nonce it has not answered was sent more than `threshold`
    /// milliseconds before `now`.
    pub fn keep_alive_overdue(&self, now: i64, threshold: i64) -> (overdue: bool)
        ensures
            overdue == self@.overdue(now, threshold),
    {
        if self.keep_alive_waiting.len() == 0 {
            false
        } else {
            let oldest = self.keep_alive_waiting[0];
            (now as i128) - (oldest as i128) > (threshold as i128)
        }
    }

    /// What the client's writer is handed for a packet: the decoded packet to
    /// encode again if the packet was decoded, else the raw frame to forward.
    pub fn write_packet_v753(&self, packet: LazyDeserializedPacket) -> (op: WriteOp)
        ensures
            write_op_view(op) == packet@,
            op is Encode <==> packet@ is Decoded,
    {
        write_packet(packet)
    }

    /// What the client's writer is handed to kick the client: a play-phase
    /// disconnect that carries the text of the reason.
    pub fn send_kick_v753(&self, reason: &ClientKickReason) -> (op: WriteOp)
        ensures
            write_op_view(op) == LazyView::Decoded(PacketView::PlayDisconnect { reason: kick_text(reason@) }),
    {
        let packet = LazyDeserializedPacket::from_packet(Packet::PlayDisconnect { reason: reason.text() });
        self.write_packet_v753(packet)
    }
}

} // verus!
