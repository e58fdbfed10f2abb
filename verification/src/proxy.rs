//! The state root of the proxy: its configuration, the registries of
//! backends and of live clients, the identifier tables, the tags that the
//! backends announced, the zoner, and what is kept of players who left.

use vstd::prelude::*;
use vstd::string::StringExecFns;
use crate::client::{SplinterClient, SplinterServer};
use crate::error::SplinterError;
use crate::keyed::{
    absent, distinct, first_at, lemma_distinct_push, lemma_distinct_remove, lemma_place_of,
    lemma_place_of_absent, place_of,
};
use crate::kick::{kick_text, ClientKickReason, KickReasonView};
use crate::mapping::{MappingView, SplinterMapping};
use crate::packet::{write_op_view, LazyView, PacketView, WriteOp};
use crate::playersave::{put_record, put_records_of, record_of, PlInfo, PlInfoPlayer};
use crate::tags::Tags;
use crate::zoning::{Zone, Zoner};

verus! {

/// The options of the proxy.
#[derive(Clone, Debug, PartialEq, Eq)]
pub struct SplinterConfig {
    /// The address the proxy listens on, as `host:port`.
    pub proxy_address: String,
    /// The backends: each id with its address, as `host:port`.
    pub simulation_servers: Vec<(u64, String)>,
    /// The server status, handed to clients as it is.
    pub server_status: String,
    /// What a client of an unsupported version is told when it tries to log in.
    pub improper_version_disconnect_message: String,
}

/// The UUIDs of a list of clients.
pub open spec fn client_uuids(clients: Seq<SplinterClient>) -> Seq<u128> {
    Seq::new(clients.len(), |i: int| clients[i].uuid)
}

/// The names of a list of clients.
pub open spec fn client_names(clients: Seq<SplinterClient>) -> Seq<Seq<char>> {
    Seq::new(clients.len(), |i: int| clients[i].name@)
}

/// The ids of a list of backends.
pub open spec fn server_ids(servers: Seq<SplinterServer>) -> Seq<u64> {
    Seq::new(servers.len(), |i: int| servers[i].id)
}

/// The backends of a list as values: each id with its address.
pub open spec fn server_views(servers: Seq<SplinterServer>) -> Seq<(u64, Seq<char>)> {
    Seq::new(servers.len(), |i: int| (servers[i].id, servers[i].address@))
}

/// The configured backends as values: each id with its address.
pub open spec fn configured_servers(entries: Seq<(u64, String)>) -> Seq<(u64, Seq<char>)> {
    Seq::new(entries.len(), |i: int| (entries[i].0, entries[i].1@))
}

/// The ids of backends given as values.
pub open spec fn view_ids(servers: Seq<(u64, Seq<char>)>) -> Seq<u64> {
    Seq::new(servers.len(), |i: int| servers[i].0)
}

/// The registry after a backend was put: a backend whose id is known takes
/// the new address where it stands; a new backend goes to the end.
pub open spec fn put_server(servers: Seq<(u64, Seq<char>)>, id: u64, address: Seq<char>) -> Seq<
    (u64, Seq<char>),
> {
    match place_of(view_ids(servers), id) {
        Some(i) => servers.update(i, (id, address)),
        None => servers.push((id, address)),
    }
}

/// The registry of backends that a configuration gives: its entries put in order.
pub open spec fn registry_of(entries: Seq<(u64, Seq<char>)>) -> Seq<(u64, Seq<char>)>
    decreases entries.len(),
{
    if entries.len() == 0 {
        Seq::empty()
    } else {
        put_server(registry_of(entries.drop_last()), entries.last().0, entries.last().1)
    }
}

/// Putting a backend keeps one entry for each id.
pub proof fn lemma_put_server(servers: Seq<(u64, Seq<char>)>, id: u64, address: Seq<char>)
    requires
        distinct(view_ids(servers)),
    ensures
        distinct(view_ids(put_server(servers, id, address))),
{
    let ids = view_ids(servers);
    let after = put_server(servers, id, address);
    match place_of(ids, id) {
        Some(i) => {
            assert(first_at(ids, i, id));
            assert(view_ids(after) =~= ids);
        },
        None => {
            assert forall|j: int| 0 <= j < ids.len() implies #[trigger] ids[j] != id by {
                if ids[j] == id {
                    crate::keyed::lemma_place_of_present(ids, j, id);
                }
            }
            lemma_distinct_push(ids, id);
            assert(view_ids(after) =~= ids.push(id));
        },
    }
}

/// The clients of a list that have left a keep-alive unanswered for too
/// long, in the order of the list.
pub open spec fn overdue_clients(clients: Seq<SplinterClient>, now: i64, threshold: i64) -> Seq<SplinterClient>
    decreases clients.len(),
{
    if clients.len() == 0 {
        Seq::empty()
    } else if clients.last()@.overdue(now, threshold) {
        overdue_clients(clients.drop_last(), now, threshold).push(clients.last())
    } else {
        overdue_clients(clients.drop_last(), now, threshold)
    }
}

/// The clients of a list that have not, in the order of the list.
pub open spec fn punctual_clients(clients: Seq<SplinterClient>, now: i64, threshold: i64) -> Seq<SplinterClient>
    decreases clients.len(),
{
    if clients.len() == 0 {
        Seq::empty()
    } else if clients.last()@.overdue(now, threshold) {
        punctual_clients(clients.drop_last(), now, threshold)
    } else {
        punctual_clients(clients.drop_last(), now, threshold).push(clients.last())
    }
}

/// The zones that a new proxy starts with: backend 0 owns the square of the
/// blocks from -4 to 4, backend 1 everything outside the square from -3 to 3.
pub open spec fn default_zones() -> Seq<(u64, Zone)> {
    seq![
        (0u64, Zone::Rectangle { x1: -4i32, z1: -4i32, x2: 4, z2: 4 }),
        (1u64, Zone::InvertedRectangle { x1: -3i32, z1: -3i32, x2: 3, z2: 3 }),
    ]
}

/// The state root of the proxy.
pub struct SplinterProxy {
    /// Whether the proxy is running.
    pub alive: bool,
    /// The options the proxy was started with.
    pub config: SplinterConfig,
    /// The live clients, in the order in which they logged in.
    pub players: Vec<SplinterClient>,
    /// The backends, in the order in which they were configured.
    pub servers: Vec<SplinterServer>,
    /// The identifier tables.
    pub mapping: SplinterMapping,
    /// The tags that the backends announced, once one did.
    pub tags: Option<Tags>,
    /// What is kept of players who left.
    pub player_data: PlInfo,
    /// The zones of the world.
    pub zoner: Zoner,
}

/// What a kick asks of the caller: the packet for the client's writer, and
/// the client as it was taken out of the registry.
pub struct KickOrder {
    /// The client that was kicked, no longer alive.
    pub client: SplinterClient,
    /// The play-phase disconnect to write to the client.
    pub packet: WriteOp,
}

impl SplinterProxy {
    /// The registries are keyed, and every part of the state is well formed.
    pub open spec fn wf(&self) -> bool {
        &&& distinct(client_uuids(self.players@))
        &&& forall|i: int| 0 <= i < self.players@.len() ==> (#[trigger] self.players@[i]).wf()
        &&& distinct(server_ids(self.servers@))
        &&& self.mapping.wf()
        &&& (self.tags matches Some(tags) ==> tags.wf())
        &&& self.player_data.wf()
    }

    /// Whether `other` differs from `self` in nothing but its clients, its
    /// player records and its alive flag.
    pub open spec fn same_setup(&self, other: &SplinterProxy) -> bool {
        &&& self.config == other.config
        &&& self.servers == other.servers
        &&& self.mapping == other.mapping
        &&& self.tags == other.tags
        &&& self.zoner == other.zoner
    }

    /// A running proxy with the configured backends, no client, empty
    /// identifier tables, no tags, and the zones a proxy starts with.
    pub fn new(config: SplinterConfig, player_data: PlInfo) -> (proxy: SplinterProxy)
        requires
            player_data.wf(),
        ensures
            proxy.wf(),
            proxy.alive,
            proxy.config == config,
            proxy.players@.len() == 0,
            server_views(proxy.servers@) == registry_of(configured_servers(config.simulation_servers@)),
            proxy.mapping@ == MappingView::empty(),
            proxy.tags is None,
            proxy.player_data == player_data,
            proxy.zoner.zones@ == default_zones(),
            proxy.zoner.default is None,
    {
        let ghost entries = configured_servers(config.simulation_servers@);
        let mut servers: Vec<SplinterServer> = Vec::new();
        let mut i: usize = 0;
        assert(entries.take(0) =~= Seq::empty());
        assert(server_views(servers@) =~= Seq::empty());
        while i < config.simulation_servers.len()
            invariant
                i <= config.simulation_servers.len(),
                entries == configured_servers(config.simulation_servers@),
                server_views(servers@) == registry_of(entries.take(i as int)),
                distinct(view_ids(server_views(servers@))),
            decreases config.simulation_servers.len() - i,
        {
            let id = config.simulation_servers[i].0;
            let address = config.simulation_servers[i].1.clone();
            let ghost before = server_views(servers@);
            proof {
                let next = entries.take(i + 1);
                assert(next.drop_last() =~= entries.take(i as int));
                assert(next.last() == (id, address@));
                lemma_put_server(before, id, address@);
            }
            match find_server(&servers, id) {
                Some(at) => {
                    servers.set(at, SplinterServer { id, address });
                    assert(server_views(servers@) =~= put_server(before, id, address@));
                },
                None => {
                    servers.push(SplinterServer { id, address });
                    assert(server_views(servers@) =~= put_server(before, id, address@));
                },
            }
            i = i + 1;
        }
        assert(entries.take(config.simulation_servers.len() as int) =~= entries);
        assert(server_ids(servers@) =~= view_ids(server_views(servers@)));
        let mut zones: Vec<(u64, Zone)> = Vec::new();
        zones.push((0, Zone::Rectangle { x1: -4, z1: -4, x2: 4, z2: 4 }));
        zones.push((1, Zone::InvertedRectangle { x1: -3, z1: -3, x2: 3, z2: 3 }));
        assert(zones@ =~= default_zones());
        let proxy = SplinterProxy {
            alive: true,
            config,
            players: Vec::new(),
            servers,
            mapping: SplinterMapping::new(),
            tags: None,
            player_data,
            zoner: Zoner { zones, default: None },
        };
        proxy
    }

    /// Whether the proxy is running.
    pub fn is_alive(&self) -> (alive: bool)
        ensures
            alive == self.alive,
    {
        self.alive
    }

    /// The place of the client with a UUID, if it is in the registry.
    pub fn client_index(&self, client_uuid: u128) -> (res: Option<usize>)
        ensures
            match res {
                Some(i) => place_of(client_uuids(self.players@), client_uuid) == Some(i as int) && i
                    < self.players@.len() && self.players@[i as int].uuid == client_uuid,
                None => place_of(client_uuids(self.players@), client_uuid) is None && absent(
                    client_uuids(self.players@),
                    client_uuid,
                ),
            },
    {
        let ghost uuids = client_uuids(self.players@);
        let mut i: usize = 0;
        while i < self.players.len()
            invariant
                i <= self.players.len(),
                uuids == client_uuids(self.players@),
                forall|j: int| 0 <= j < i ==> #[trigger] uuids[j] != client_uuid,
            decreases self.players.len() - i,
        {
            if self.players[i].uuid == client_uuid {
                proof {
                    assert(uuids[i as int] == client_uuid);
                    lemma_place_of(uuids, i as int, client_uuid);
                }
                return Some(i);
            }
            assert(uuids[i as int] != client_uuid);
            i = i + 1;
        }
        proof {
            lemma_place_of_absent(uuids, client_uuid);
        }
        None
    }

    /// The first client, in the order of the registry, that has this name.
    pub fn find_client_by_name(&self, name: &str) -> (res: Option<&SplinterClient>)
        ensures
            match res {
                Some(client) => place_of(client_names(self.players@), name@) is Some && *client
                    == self.players@[place_of(client_names(self.players@), name@)->0],
                None => place_of(client_names(self.players@), name@) is None,
            },
    {
        let ghost names = client_names(self.players@);
        let wanted = String::from_str(name);
        let mut i: usize = 0;
        while i < self.players.len()
            invariant
                i <= self.players.len(),
                names == client_names(self.players@),
                wanted@ == name@,
                forall|j: int| 0 <= j < i ==> #[trigger] names[j] != name@,
            decreases self.players.len() - i,
        {
            if self.players[i].name == wanted {
                proof {
                    assert(names[i as int] == name@);
                    lemma_place_of(names, i as int, name@);
                }
                return Some(&self.players[i]);
            }
            assert(names[i as int] != name@);
            i = i + 1;
        }
        proof {
            lemma_place_of_absent(names, name@);
        }
        None
    }

    /// Whether a backend with this id is registered.
    pub fn has_server(&self, server_id: u64) -> (known: bool)
        ensures
            known == !absent(server_ids(self.servers@), server_id),
    {
        let ghost ids = server_ids(self.servers@);
        match find_server(&self.servers, server_id) {
            Some(i) => {
                assert(view_ids(server_views(self.servers@)) =~= ids);
                assert(ids[i as int] == server_id);
                true
            },
            None => {
                assert(view_ids(server_views(self.servers@)) =~= ids);
                assert forall|j: int| 0 <= j < ids.len() implies #[trigger] ids[j] != server_id by {
                    if ids[j] == server_id {
                        crate::keyed::lemma_place_of_present(ids, j, server_id);
                    }
                }
                false
            },
        }
    }

    /// Takes a client whose login is done into the registry, at the end.
    /// Fails with `ProtocolError`, changing nothing, if a live client has the
    /// same UUID.
    pub fn add_client(&mut self, client: SplinterClient) -> (res: Result<(), SplinterError>)
        requires
            old(self).wf(),
            client.wf(),
        ensures
            final(self).wf(),
            final(self).same_setup(old(self)),
            final(self).alive == old(self).alive,
            final(self).player_data == old(self).player_data,
            absent(client_uuids(old(self).players@), client.uuid) ==> res is Ok && final(self).players@
                == old(self).players@.push(client),
            !absent(client_uuids(old(self).players@), client.uuid) ==> res == Err::<(), SplinterError>(
                SplinterError::ProtocolError,
            ) && final(self).players@ == old(self).players@,
    {
        let ghost uuids = client_uuids(self.players@);
        match self.client_index(client.uuid) {
            Some(i) => {
                assert(uuids[i as int] == client.uuid);
                Err(SplinterError::ProtocolError)
            },
            None => {
                proof {
                    lemma_distinct_push(uuids, client.uuid);
                    assert(client_uuids(self.players@.push(client)) =~= uuids.push(client.uuid));
                }
                self.players.push(client);
                Ok(())
            },
        }
    }

    /// Takes a client out of the registry, marks it not alive, and keeps its
    /// name and last position in the player records. Returns the client, or
    /// `None`, changing nothing, if no live client has the UUID.
    pub fn remove_client(&mut self, client_uuid: u128) -> (res: Option<SplinterClient>)
        requires
            old(self).wf(),
        ensures
            final(self).wf(),
            final(self).same_setup(old(self)),
            final(self).alive == old(self).alive,
            match place_of(client_uuids(old(self).players@), client_uuid) {
                Some(i) => {
                    &&& res == Some(SplinterClient { alive: false, ..old(self).players@[i] })
                    &&& final(self).players@ == old(self).players@.remove(i)
                    &&& final(self).player_data@ == put_record(
                        old(self).player_data@,
                        record_of(old(self).players@[i]),
                    )
                },
                None => {
                    &&& res is None
                    &&& final(self).players@ == old(self).players@
                    &&& final(self).player_data == old(self).player_data
                },
            },
    {
        let ghost uuids = client_uuids(self.players@);
        match self.client_index(client_uuid) {
            Some(i) => {
                proof {
                    lemma_distinct_remove(uuids, i as int);
                    assert(client_uuids(self.players@.remove(i as int)) =~= uuids.remove(i as int));
                }
                let mut client = self.players.remove(i);
                client.alive = false;
                let record = PlInfoPlayer {
                    uuid: client.uuid,
                    x: client.position.x,
                    y: client.position.y,
                    z: client.position.z,
                    name: client.name.clone(),
                };
                self.player_data.insert(record);
                Some(client)
            },
            None => None,
        }
    }

    /// Kicks a client: takes it out of the registry, marks it not alive,
    /// keeps its name and last position in the player records, and returns it
    /// with the disconnect that carries the reason's text. Fails with
    /// `UnknownClient`, changing nothing, if no live client has the UUID.
    pub fn kick_client(&mut self, client_uuid: u128, reason: &ClientKickReason) -> (res: Result<
        KickOrder,
        SplinterError,
    >)
        requires
            old(self).wf(),
        ensures
            final(self).wf(),
            final(self).same_setup(old(self)),
            final(self).alive == old(self).alive,
            match place_of(client_uuids(old(self).players@), client_uuid) {
                Some(i) => {
                    &&& res is Ok
                    &&& final(self).players@ == old(self).players@.remove(i)
                    &&& final(self).player_data@ == put_record(
                        old(self).player_data@,
                        record_of(old(self).players@[i]),
                    )
                    &&& res->Ok_0.client == (SplinterClient { alive: false, ..old(self).players@[i] })
                    &&& write_op_view(res->Ok_0.packet) == LazyView::Decoded(
                        PacketView::PlayDisconnect { reason: kick_text(reason@) },
                    )
                },
                None => {
                    &&& res == Err::<KickOrder, SplinterError>(SplinterError::UnknownClient(client_uuid))
                    &&& final(self).players@ == old(self).players@
                    &&& final(self).player_data == old(self).player_data
                },
            },
    {
        match self.remove_client(client_uuid) {
            Some(client) => {
                let packet = client.send_kick_v753(reason);
                Ok(KickOrder { client, packet })
            },
            None => Err(SplinterError::UnknownClient(client_uuid)),
        }
    }

    /// Kicks every client that has left a keep-alive unanswered for more
    /// than `threshold` milliseconds at the time `now`, with the reason
    /// `TimedOut`, in the order of the registry. Returns the kicks, for the
    /// caller to write. The other clients stay as they are.
    pub fn kick_timed_out(&mut self, now: i64, threshold: i64) -> (orders: Vec<KickOrder>)
        requires
            old(self).wf(),
        ensures
            final(self).wf(),
            final(self).same_setup(old(self)),
            final(self).alive == old(self).alive,
            final(self).players@ == punctual_clients(old(self).players@, now, threshold),
            final(self).player_data@ == put_records_of(
                old(self).player_data@,
                overdue_clients(old(self).players@, now, threshold),
            ),
            orders@.len() == overdue_clients(old(self).players@, now, threshold).len(),
            forall|i: int|
                0 <= i < orders@.len() ==> (#[trigger] orders@[i]).client == (SplinterClient {
                    alive: false,
                    ..overdue_clients(old(self).players@, now, threshold)[i]
                }) && write_op_view(orders@[i].packet) == LazyView::Decoded(
                    PacketView::PlayDisconnect { reason: kick_text(KickReasonView::TimedOut) },
                ),
    {
        let ghost clients = self.players@;
        let ghost records = self.player_data@;
        let ghost mut seen: int = 0;
        let reason = ClientKickReason::TimedOut;
        let mut orders: Vec<KickOrder> = Vec::new();
        let mut i: usize = 0;
        proof {
            assert(clients.take(0) =~= Seq::empty());
            assert(clients.skip(0) =~= clients);
            assert(Seq::<SplinterClient>::empty() + clients =~= clients);
        }
        while i < self.players.len()
            invariant
                self.wf(),
                self.same_setup(old(self)),
                self.alive == old(self).alive,
                clients == old(self).players@,
                records == old(self).player_data@,
                reason@ == KickReasonView::TimedOut,
                0 <= seen <= clients.len(),
                i == punctual_clients(clients.take(seen), now, threshold).len(),
                self.players@ == punctual_clients(clients.take(seen), now, threshold) + clients.skip(seen),
                self.player_data@ == put_records_of(
                    records,
                    overdue_clients(clients.take(seen), now, threshold),
                ),
                orders@.len() == overdue_clients(clients.take(seen), now, threshold).len(),
                forall|j: int|
                    0 <= j < orders@.len() ==> (#[trigger] orders@[j]).client == (SplinterClient {
                        alive: false,
                        ..overdue_clients(clients.take(seen), now, threshold)[j]
                    }) && write_op_view(orders@[j].packet) == LazyView::Decoded(
                        PacketView::PlayDisconnect { reason: kick_text(KickReasonView::TimedOut) },
                    ),
            decreases clients.len() - seen,
        {
            let ghost kept = punctual_clients(clients.take(seen), now, threshold);
            let ghost gone = overdue_clients(clients.take(seen), now, threshold);
            proof {
                assert(self.players@[i as int] == clients.skip(seen)[0]);
                assert(seen < clients.len());
                let next = clients.take(seen + 1);
                assert(next.drop_last() =~= clients.take(seen));
                assert(next.last() == clients[seen]);
            }
            if self.players[i].keep_alive_overdue(now, threshold) {
                let uuid = self.players[i].uuid;
                proof {
                    let uuids = client_uuids(self.players@);
                    assert(uuids[i as int] == uuid);
                    crate::keyed::lemma_place_of_present(uuids, i as int, uuid);
                    assert(self.players@.remove(i as int) =~= kept + clients.skip(seen + 1));
                    let after = gone.push(clients[seen]);
                    assert(after.drop_last() =~= gone);
                    assert(after.last() == clients[seen]);
                }
                match self.kick_client(uuid, &reason) {
                    Ok(order) => {
                        orders.push(order);
                    },
                    Err(_) => {
                        proof {
                            assert(false);
                        }
                    },
                }
            } else {
                proof {
                    assert(self.players@ =~= kept.push(clients[seen]) + clients.skip(seen + 1));
                }
                i = i + 1;
            }
            proof {
                seen = seen + 1;
            }
        }
        proof {
            assert(seen == clients.len());
            assert(clients.take(seen) =~= clients);
            assert(clients.skip(seen) =~= Seq::empty());
            assert(self.players@ =~= punctual_clients(clients, now, threshold));
        }
        orders
    }

    /// Shuts the proxy down: kicks every client with the reason `Shutdown`,
    /// in the order of the registry, and clears the alive flag. Returns the
    /// kicks, for the caller to write. The player records hold the last
    /// position of every client that was kicked.
    pub fn shutdown(&mut self) -> (orders: Vec<KickOrder>)
        requires
            old(self).wf(),
        ensures
            final(self).wf(),
            final(self).same_setup(old(self)),
            !final(self).alive,
            final(self).players@.len() == 0,
            final(self).player_data@ == put_records_of(old(self).player_data@, old(self).players@),
            orders@.len() == old(self).players@.len(),
            forall|i: int|
                0 <= i < orders@.len() ==> (#[trigger] orders@[i]).client == (SplinterClient {
                    alive: false,
                    ..old(self).players@[i]
                }) && write_op_view(orders@[i].packet) == LazyView::Decoded(
                    PacketView::PlayDisconnect { reason: kick_text(KickReasonView::Shutdown) },
                ),
    {
        let ghost clients = self.players@;
        let ghost records = self.player_data@;
        let reason = ClientKickReason::Shutdown;
        let mut orders: Vec<KickOrder> = Vec::new();
        assert(clients.skip(0) =~= clients);
        assert(clients.take(0) =~= Seq::empty());
        while self.players.len() > 0
            invariant
                self.wf(),
                self.same_setup(old(self)),
                self.alive == old(self).alive,
                clients == old(self).players@,
                records == old(self).player_data@,
                reason@ == KickReasonView::Shutdown,
                orders@.len() <= clients.len(),
                self.players@ == clients.skip(orders@.len() as int),
                self.player_data@ == put_records_of(records, clients.take(orders@.len() as int)),
                forall|i: int|
                    0 <= i < orders@.len() ==> (#[trigger] orders@[i]).client == (SplinterClient {
                        alive: false,
                        ..clients[i]
                    }) && write_op_view(orders@[i].packet) == LazyView::Decoded(
                        PacketView::PlayDisconnect { reason: kick_text(KickReasonView::Shutdown) },
                    ),
            decreases self.players.len(),
        {
            let ghost done = orders@.len() as int;
            let uuid = self.players[0].uuid;
            proof {
                let uuids = client_uuids(self.players@);
                assert(uuids[0] == uuid);
                lemma_place_of(uuids, 0, uuid);
                assert(self.players@[0] == clients[done]);
                assert(self.players@.remove(0) =~= clients.skip(done + 1));
                let next = clients.take(done + 1);
                assert(next.drop_last() =~= clients.take(done));
                assert(next.last() == clients[done]);
            }
            match self.kick_client(uuid, &reason) {
                Ok(order) => {
                    orders.push(order);
                },
                Err(_) => {
                    proof {
                        assert(false);
                    }
                },
            }
        }
        proof {
            assert(clients.take(clients.len() as int) =~= clients);
        }
        self.alive = false;
        orders
    }
}

/// The place of the backend with an id in a list, if it stands there.
pub fn find_server(servers: &Vec<SplinterServer>, server_id: u64) -> (res: Option<usize>)
    ensures
        match res {
            Some(i) => place_of(view_ids(server_views(servers@)), server_id) == Some(i as int) && i
                < servers@.len() && servers@[i as int].id == server_id,
            None => place_of(view_ids(server_views(servers@)), server_id) is None,
        },
{
    let ghost ids = view_ids(server_views(servers@));
    let mut i: usize = 0;
    while i < servers.len()
        invariant
            i <= servers.len(),
            ids == view_ids(server_views(servers@)),
            ids.len() == servers@.len(),
            forall|j: int| 0 <= j < i ==> #[trigger] ids[j] != server_id,
        decreases servers.len() - i,
    {
        if servers[i].id == server_id {
            proof {
                assert(ids[i as int] == server_id);
                lemma_place_of(ids, i as int, server_id);
            }
            return Some(i);
        }
        assert(ids[i as int] != server_id);
        i = i + 1;
    }
    proof {
        lemma_place_of_absent(ids, server_id);
    }
    None
}

} // verus!
