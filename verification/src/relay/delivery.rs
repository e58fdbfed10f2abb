//! The delivery of a packet after the passes: to the one writer it is for,
//! or to none.

use vstd::prelude::*;
use crate::client::{connection_ids, ClientView, SplinterClient};
use crate::error::SplinterError;
use crate::keyed::{absent, lemma_distinct_push, lemma_distinct_remove, place_of};
use crate::packet::{
    write_op_view,
    write_packet,
    LazyDeserializedPacket,
    LazyView,
    PacketDestination,
    WriteOp,
};
use crate::proxy::{client_uuids, SplinterProxy};

verus! {

/// What becomes of a packet after the passes.
#[derive(Clone, Debug, PartialEq, Eq)]
pub enum Delivery {
    /// It is written to the client.
    ToClient(WriteOp),
    /// It is written to the backend with this id.
    ToServer(u64, WriteOp),
    /// It is dropped, silently.
    Dropped,
    /// It is dropped, and an error is reported: it was meant for the backend
    /// with this id, to which the client has no connection.
    Undeliverable(u64),
}

/// What becomes of a packet, as a value.
pub enum DeliveryView {
    ToClient(LazyView),
    ToServer(u64, LazyView),
    Dropped,
    Undeliverable(u64),
}

impl View for Delivery {
    type V = DeliveryView;

    open spec fn view(&self) -> DeliveryView {
        match *self {
            Delivery::ToClient(op) => DeliveryView::ToClient(write_op_view(op)),
            Delivery::ToServer(id, op) => DeliveryView::ToServer(id, write_op_view(op)),
            Delivery::Dropped => DeliveryView::Dropped,
            Delivery::Undeliverable(id) => DeliveryView::Undeliverable(id),
        }
    }
}

impl DeliveryView {
    /// The number of writes that the delivery causes: one or none.
    pub open spec fn writes(self) -> nat {
        match self {
            DeliveryView::ToClient(_) => 1,
            DeliveryView::ToServer(_, _) => 1,
            DeliveryView::Dropped => 0,
            DeliveryView::Undeliverable(_) => 0,
        }
    }

    /// The writer that the delivery writes to, if it writes.
    pub open spec fn target(self) -> PacketDestination {
        match self {
            DeliveryView::ToClient(_) => PacketDestination::Client,
            DeliveryView::ToServer(id, _) => PacketDestination::Server(id),
            DeliveryView::Dropped => PacketDestination::Nowhere,
            DeliveryView::Undeliverable(_) => PacketDestination::Nowhere,
        }
    }
}

/// What becomes of a packet with a destination, for a client with
/// connections to these backends. A packet for the client is written to the
/// client. A packet for a backend is written to the backend if the client
/// has a connection to it, and is undeliverable if not. A packet for
/// nowhere is dropped.
pub open spec fn delivery_of(connections: Seq<u64>, destination: PacketDestination, packet: LazyView) -> DeliveryView {
    match destination {
        PacketDestination::Client => DeliveryView::ToClient(packet),
        PacketDestination::Server(id) => if absent(connections, id) {
            DeliveryView::Undeliverable(id)
        } else {
            DeliveryView::ToServer(id, packet)
        },
        PacketDestination::Nowhere => DeliveryView::Dropped,
    }
}

impl Delivery {
    /// The error to report for the delivery, if there is one.
    pub fn error(&self) -> (res: Option<SplinterError>)
        ensures
            res == match self@ {
                DeliveryView::Undeliverable(id) => Some(SplinterError::UnknownServer(id)),
                _ => None,
            },
    {
        match self {
            Delivery::Undeliverable(id) => Some(SplinterError::UnknownServer(*id)),
            _ => None,
        }
    }
}

/// Decides what becomes of a packet after the passes: which one writer it
/// is written to, if any, and in which form.
pub fn send_packet(
    client: &SplinterClient,
    destination: PacketDestination,
    lazy_packet: LazyDeserializedPacket,
) -> (delivery: Delivery)
    ensures
        delivery@ == delivery_of(connection_ids(client.servers@), destination, lazy_packet@),
        delivery@.writes() <= 1,
{
    match destination {
        PacketDestination::Client => Delivery::ToClient(write_packet(lazy_packet)),
        PacketDestination::Server(id) => match client.connection_index(id) {
            Some(i) => {
                assert(connection_ids(client.servers@)[i as int] == id);
                Delivery::ToServer(id, write_packet(lazy_packet))
            },
            None => Delivery::Undeliverable(id),
        },
        PacketDestination::Nowhere => Delivery::Dropped,
    }
}

/// What a failed write means for the session. A failed write to the
/// client is fatal: the client is marked as not alive, so that its loops
/// stop, and the error is `IoFatal`. A failed write to a backend is
/// survived: nothing changes, and the error is `IoTransient`.
pub fn handle_write_failure(proxy: &mut SplinterProxy, client_uuid: u128, target: PacketDestination) -> (error:
    SplinterError)
    requires
        old(proxy).wf(),
    ensures
        final(proxy).wf(),
        final(proxy).alive == old(proxy).alive,
        final(proxy).same_setup(old(proxy)),
        final(proxy).player_data == old(proxy).player_data,
        error == if target is Client {
            SplinterError::IoFatal
        } else {
            SplinterError::IoTransient
        },
        match place_of(client_uuids(old(proxy).players@), client_uuid) {
            Some(i) => if target is Client {
                final(proxy).players@ == old(proxy).players@.update(
                    i,
                    SplinterClient { alive: false, ..old(proxy).players@[i] },
                )
            } else {
                final(proxy).players@ == old(proxy).players@
            },
            None => final(proxy).players@ == old(proxy).players@,
        },
{
    match target {
        PacketDestination::Client => {
            match proxy.client_index(client_uuid) {
                Some(i) => {
                    let ghost before = proxy.players@;
                    proof {
                        lemma_distinct_remove(client_uuids(before), i as int);
                        assert(client_uuids(before.remove(i as int)) =~= client_uuids(before).remove(
                            i as int,
                        ));
                    }
                    let mut client = proxy.players.remove(i);
                    client.alive = false;
                    proxy.players.insert(i, client);
                    proof {
                        let after = proxy.players@;
                        assert(after =~= before.update(i as int, client));
                        assert(client_uuids(after) =~= client_uuids(before));
                        assert forall|j: int| 0 <= j < after.len() implies (#[trigger] after[j]).wf() by {
                            if j != i {
                                assert(after[j] == before[j]);
                            }
                        }
                    }
                },
                None => {},
            }
            SplinterError::IoFatal
        },
        _ => SplinterError::IoTransient,
    }
}

/// A packet that the zoning pass redirects can be delivered: a client that
/// was handed over to a backend has a connection to it, the backend is its
/// active one, and a packet for that backend is written to it.
pub proof fn lemma_handed_over_is_deliverable(client: ClientView, target: u64, packet: LazyView)
    ensures
        client.switched_to(target).active_server_id == target,
        delivery_of(
            connection_ids(client.switched_to(target).servers),
            PacketDestination::Server(target),
            packet,
        ) == DeliveryView::ToServer(target, packet),
        client.valid() ==> client.switched_to(target).valid(),
{
    let before = connection_ids(client.servers);
    let after = connection_ids(client.switched_to(target).servers);
    if absent(before, target) {
        assert(after =~= before.push(target));
        assert(after[before.len() as int] == target);
        if client.valid() {
            lemma_distinct_push(before, target);
        }
    } else {
        assert(after == before);
    }
}

} // verus!
