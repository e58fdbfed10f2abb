//! The steps of the two relay loops of a client: one reads what the client
//! sends, one for each backend connection reads what the backend sends.

use vstd::prelude::*;
use crate::client::{client_views, connection_ids, SplinterServerConnection};
use crate::dictionary::Dictionaries;
use crate::error::SplinterError;
use crate::keyed::{lemma_distinct_remove, place_of};
use crate::packet::{LazyDeserializedPacket, LazyView, PacketDestination, PacketSender};
use crate::playersave::{put_record, record_of};
use crate::proxy::{client_uuids, SplinterProxy};
use crate::relay::chain::{chain_effect, run_relay_passes};
use crate::relay::delivery::{delivery_of, send_packet, Delivery, DeliveryView};
use crate::relay::model::{relay_env, relay_view, view_uuids, RelayPass};

verus! {

/// What a reader got.
#[derive(Clone, Debug, PartialEq, Eq)]
pub enum RelayRead {
    /// A packet, decoded already if the chain needs it decoded.
    Packet(LazyDeserializedPacket),
    /// The end of the stream: the peer closed.
    Closed,
    /// A packet that could not be decoded: the stream cannot be read on.
    Malformed,
    /// A read error that the session survives.
    Failed,
}

/// What a relay loop does after a read.
#[derive(Clone, Debug, PartialEq, Eq)]
pub enum RelayStep {
    /// Open the connections asked for, carry out the delivery, and read on.
    Deliver { delivery: Delivery, connects: Vec<(u128, u64)> },
    /// Report the read error, and read on.
    Skip,
    /// Leave the loop.
    Stop,
}

impl RelayRead {
    /// Whether nothing more can be read from the stream: the peer closed it,
    /// or sent what cannot be decoded.
    pub open spec fn ends_stream(self) -> bool {
        self is Closed || self is Malformed
    }

    /// The error that the read stands for, if it stands for one: a packet
    /// that cannot be decoded is a `ProtocolError`, a read error that the
    /// session survives an `IoTransient`.
    pub fn error(&self) -> (res: Option<SplinterError>)
        ensures
            res == match *self {
                RelayRead::Malformed => Some(SplinterError::ProtocolError),
                RelayRead::Failed => Some(SplinterError::IoTransient),
                _ => None,
            },
    {
        match self {
            RelayRead::Malformed => Some(SplinterError::ProtocolError),
            RelayRead::Failed => Some(SplinterError::IoTransient),
            _ => None,
        }
    }
}

/// Whether the loop of a client reads on: the client is in the registry and
/// alive.
pub open spec fn client_loop_reads(proxy: &SplinterProxy, client_uuid: u128) -> bool {
    match place_of(client_uuids(proxy.players@), client_uuid) {
        Some(i) => proxy.players@[i].alive,
        None => false,
    }
}

/// Whether the loop of a backend connection reads on: the client is in the
/// registry and alive, and has a connection to the backend that is alive.
pub open spec fn server_loop_reads(proxy: &SplinterProxy, client_uuid: u128, server_id: u64) -> bool {
    match place_of(client_uuids(proxy.players@), client_uuid) {
        Some(i) => proxy.players@[i].alive && match place_of(
            connection_ids(proxy.players@[i].servers@),
            server_id,
        ) {
            Some(c) => proxy.players@[i].servers@[c].alive,
            None => false,
        },
        None => false,
    }
}

/// Whether the loop of a client reads on. A loop tests this before each
/// read; where it does not hold, the loop takes its step without reading,
/// as if the stream were closed.
pub fn client_relay_reads(proxy: &SplinterProxy, client_uuid: u128) -> (reads: bool)
    ensures
        reads == client_loop_reads(proxy, client_uuid),
{
    match proxy.client_index(client_uuid) {
        Some(i) => proxy.players[i].alive,
        None => false,
    }
}

/// Whether the loop of a backend connection reads on. A loop tests this
/// before each read; where it does not hold, the loop takes its step
/// without reading, as if the stream were closed.
pub fn server_relay_reads(proxy: &SplinterProxy, client_uuid: u128, server_id: u64) -> (reads: bool)
    ensures
        reads == server_loop_reads(proxy, client_uuid, server_id),
{
    match proxy.client_index(client_uuid) {
        Some(i) => {
            if !proxy.players[i].alive {
                return false;
            }
            match proxy.players[i].connection_index(server_id) {
                Some(c) => proxy.players[i].servers[c].alive,
                None => false,
            }
        },
        None => false,
    }
}

/// Whether `after` and `step` are what relaying a packet through the chain
/// makes of `before`: the passes ran in order on the packet with the
/// destination it started with, and the packet was delivered for the client.
pub open spec fn is_relayed(
    before: &SplinterProxy,
    after: &SplinterProxy,
    passes: Seq<RelayPass>,
    dictionaries: &Dictionaries,
    sender: PacketSender,
    client_uuid: u128,
    packet: LazyView,
    destination: PacketDestination,
    step: RelayStep,
) -> bool {
    let s = chain_effect(
        passes,
        relay_env(before, dictionaries),
        sender,
        relay_view(before, packet, destination, Seq::empty()),
    );
    &&& relay_view(after, s.packet, s.destination, s.connects) == s
    &&& step matches RelayStep::Deliver { delivery, connects }
    &&& connects@ == s.connects
    &&& delivery@ == match place_of(view_uuids(s.players), client_uuid) {
        Some(j) => delivery_of(connection_ids(s.players[j].servers), s.destination, s.packet),
        None => DeliveryView::Dropped,
    }
}

/// Whether `after` is `before` with one client taken out of the registry
/// and its record put into the player records.
pub open spec fn is_torn_down(before: &SplinterProxy, after: &SplinterProxy, i: int) -> bool {
    &&& after.players@ == before.players@.remove(i)
    &&& after.player_data@ == put_record(
        before.player_data@,
        record_of(before.players@[i]),
    )
    &&& after.mapping == before.mapping
    &&& after.tags == before.tags
}

/// Whether `after` is `before` with connection `c` of client `i` marked as
/// no longer in use.
pub open spec fn is_connection_closed(before: &SplinterProxy, after: &SplinterProxy, i: int, c: int) -> bool {
    &&& after.players@.len() == before.players@.len()
    &&& forall|j: int| 0 <= j < before.players@.len() && j != i ==> #[trigger] after.players@[j] == before.players@[j]
    &&& after.players@[i].same_session(&before.players@[i])
    &&& after.players@[i].active_server_id == before.players@[i].active_server_id
    &&& after.players@[i].servers@ == before.players@[i].servers@.update(
        c,
        SplinterServerConnection { alive: false, ..before.players@[i].servers@[c] },
    )
    &&& after.player_data == before.player_data
    &&& after.mapping == before.mapping
    &&& after.tags == before.tags
}

/// One step of the loop that relays a client's packets to its backends,
/// after a read from the client.
///
/// The loop stops if the client is no longer in the registry. It stops, and
/// the client is taken out of the registry with its position kept, if the
/// client is no longer alive, the client closed the stream, or the client
/// sent a packet that cannot be decoded. A read error that the session
/// survives is skipped. A packet starts with the client's active backend as
/// its destination, runs through the chain, and is delivered.
pub fn handle_client_relay(
    proxy: &mut SplinterProxy,
    passes: &Vec<RelayPass>,
    dictionaries: &Dictionaries,
    client_uuid: u128,
    read: RelayRead,
) -> (step: RelayStep)
    requires
        old(proxy).wf(),
        dictionaries.wf(),
    ensures
        final(proxy).wf(),
        final(proxy).alive == old(proxy).alive,
        final(proxy).config == old(proxy).config,
        final(proxy).servers == old(proxy).servers,
        final(proxy).zoner == old(proxy).zoner,
        match place_of(client_uuids(old(proxy).players@), client_uuid) {
            None => step is Stop && *final(proxy) == *old(proxy),
            Some(i) => if !old(proxy).players@[i].alive || read.ends_stream() {
                step is Stop && is_torn_down(old(proxy), final(proxy), i)
            } else {
                match read {
                    RelayRead::Packet(packet) => final(proxy).player_data == old(proxy).player_data
                        && is_relayed(
                        old(proxy),
                        final(proxy),
                        passes@,
                        dictionaries,
                        PacketSender::Proxy(client_uuid),
                        client_uuid,
                        packet@,
                        PacketDestination::Server(old(proxy).players@[i].active_server_id),
                        step,
                    ),
                    _ => step is Skip && *final(proxy) == *old(proxy),
                }
            },
        },
{
    let i = match proxy.client_index(client_uuid) {
        Some(i) => i,
        None => {
            return RelayStep::Stop;
        },
    };
    if !proxy.players[i].alive {
        proxy.remove_client(client_uuid);
        return RelayStep::Stop;
    }
    match read {
        RelayRead::Failed => RelayStep::Skip,
        RelayRead::Closed => {
            proxy.remove_client(client_uuid);
            RelayStep::Stop
        },
        RelayRead::Malformed => {
            proxy.remove_client(client_uuid);
            RelayStep::Stop
        },
        RelayRead::Packet(packet) => {
            let sender = PacketSender::Proxy(client_uuid);
            let destination = PacketDestination::Server(proxy.players[i].active_server_id);
            let out = run_relay_passes(passes, proxy, dictionaries, sender, packet, destination);
            let delivery = deliver_for(proxy, client_uuid, out.1, out.0);
            RelayStep::Deliver { delivery, connects: out.2 }
        },
    }
}

/// Delivers a packet for a client: decides the writer from the client's
/// connections. A packet for a client that is not in the registry is dropped.
fn deliver_for(
    proxy: &SplinterProxy,
    client_uuid: u128,
    destination: PacketDestination,
    packet: LazyDeserializedPacket,
) -> (delivery: Delivery)
    ensures
        delivery@ == match place_of(view_uuids(client_views(proxy.players@)), client_uuid) {
            Some(j) => delivery_of(
                connection_ids(client_views(proxy.players@)[j].servers),
                destination,
                packet@,
            ),
            None => DeliveryView::Dropped,
        },
{
    proof {
        assert(view_uuids(client_views(proxy.players@)) =~= client_uuids(proxy.players@));
    }
    match proxy.client_index(client_uuid) {
        Some(j) => send_packet(&proxy.players[j], destination, packet),
        None => Delivery::Dropped,
    }
}

/// One step of the loop that relays the packets of one backend to a
/// client, after a read from the backend.
///
/// The loop stops if the client is no longer in the registry, or has no
/// connection to the backend. It stops, and the connection is marked as no
/// longer in use, if the client or the connection is no longer alive, the
/// backend closed the stream, or the backend sent a packet that cannot be
/// decoded. A read error that the session survives is skipped. A packet
/// starts with the client as its destination, runs through the chain, and
/// is delivered.
pub fn handle_server_relay(
    proxy: &mut SplinterProxy,
    passes: &Vec<RelayPass>,
    dictionaries: &Dictionaries,
    client_uuid: u128,
    server_id: u64,
    read: RelayRead,
) -> (step: RelayStep)
    requires
        old(proxy).wf(),
        dictionaries.wf(),
    ensures
        final(proxy).wf(),
        final(proxy).alive == old(proxy).alive,
        final(proxy).config == old(proxy).config,
        final(proxy).servers == old(proxy).servers,
        final(proxy).zoner == old(proxy).zoner,
        match place_of(client_uuids(old(proxy).players@), client_uuid) {
            None => step is Stop && *final(proxy) == *old(proxy),
            Some(i) => match place_of(connection_ids(old(proxy).players@[i].servers@), server_id) {
                None => step is Stop && *final(proxy) == *old(proxy),
                Some(c) => if !old(proxy).players@[i].alive || !old(proxy).players@[i].servers@[c].alive
                    || read.ends_stream() {
                    step is Stop && is_connection_closed(old(proxy), final(proxy), i, c)
                } else {
                    match read {
                        RelayRead::Packet(packet) => final(proxy).player_data == old(proxy).player_data
                            && is_relayed(
                            old(proxy),
                            final(proxy),
                            passes@,
                            dictionaries,
                            PacketSender::Server(server_id, client_uuid),
                            client_uuid,
                            packet@,
                            PacketDestination::Client,
                            step,
                        ),
                        _ => step is Skip && *final(proxy) == *old(proxy),
                    }
                },
            },
        },
{
    let i = match proxy.client_index(client_uuid) {
        Some(i) => i,
        None => {
            return RelayStep::Stop;
        },
    };
    let c = match proxy.players[i].connection_index(server_id) {
        Some(c) => c,
        None => {
            return RelayStep::Stop;
        },
    };
    let connection = proxy.players[i].servers[c];
    let closed = matches!(read, RelayRead::Closed | RelayRead::Malformed);
    if !proxy.players[i].alive || !connection.alive || closed {
        close_connection_of(proxy, i, server_id);
        return RelayStep::Stop;
    }
    match read {
        RelayRead::Packet(packet) => {
            let sender = PacketSender::Server(server_id, client_uuid);
            let out = run_relay_passes(
                passes,
                proxy,
                dictionaries,
                sender,
                packet,
                PacketDestination::Client,
            );
            let delivery = deliver_for(proxy, client_uuid, out.1, out.0);
            RelayStep::Deliver { delivery, connects: out.2 }
        },
        _ => RelayStep::Skip,
    }
}

/// Marks the connection of a client to a backend as no longer in use.
fn close_connection_of(proxy: &mut SplinterProxy, i: usize, server_id: u64)
    requires
        old(proxy).wf(),
        i < old(proxy).players@.len(),
        place_of(connection_ids(old(proxy).players@[i as int].servers@), server_id) is Some,
    ensures
        final(proxy).wf(),
        final(proxy).alive == old(proxy).alive,
        final(proxy).same_setup(old(proxy)),
        is_connection_closed(
            old(proxy),
            final(proxy),
            i as int,
            place_of(connection_ids(old(proxy).players@[i as int].servers@), server_id)->0,
        ),
{
    let ghost before = proxy.players@;
    proof {
        lemma_distinct_remove(client_uuids(before), i as int);
        assert(client_uuids(before.remove(i as int)) =~= client_uuids(before).remove(i as int));
    }
    let mut client = proxy.players.remove(i);
    client.close_connection(server_id);
    proxy.players.insert(i, client);
    proof {
        let after = proxy.players@;
        assert(after =~= before.update(i as int, client));
        assert(client_uuids(after) =~= client_uuids(before));
        assert forall|j: int| 0 <= j < after.len() implies (#[trigger] after[j]).wf() by {
            if j != i {
                assert(after[j] == before[j]);
            }
        }
    }
}

} // verus!
