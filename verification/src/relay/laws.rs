//! Laws of the relay: what a chain of passes makes of the identifiers of a
//! packet and of a client that moves into the zone of another backend,
//! whatever the chain is made of besides the pass that does the work.

use vstd::prelude::*;
use crate::bijection::has_pair;
use crate::client::{connection_ids, ClientView, Position};
use crate::error::SplinterError;
use crate::keyed::{absent, first_at, place_of};
use crate::mapping::{lemma_eid_allocation, lemma_extended_by_transitive, MappingView};
use crate::packet::{EntityRef, LazyView, PacketDestination, PacketSender, PacketView};
use crate::relay::chain::{chain_effect, chain_inspects, lemma_chain_leaves_uninspected, occurrences};
use crate::relay::delivery::{delivery_of, lemma_handed_over_is_deliverable, DeliveryView};
use crate::relay::model::{
    lemma_pass_leaves_uninspected, pass_effect, pass_inspects, view_uuids, RelayEnv, RelayPass,
    RelayView,
};
use crate::relay::rewrite::{
    eids_to_proxy, eids_to_server, lemma_eid_rewrite_round_trip, lemma_eid_rewrite_stable,
    lemma_eids_to_proxy_known, lemma_eids_to_proxy_pairs, lemma_identifiers_to_server,
    lemma_uuid_rewrite_round_trip, lemma_uuid_rewrite_stable, lemma_uuids_to_proxy_known,
    lemma_uuids_to_proxy_pairs, same_ids, under_ids, uuids_to_proxy, uuids_to_server, with_types_of,
};
use crate::zoning::backend_of;

verus! {

/// A decoded packet that names entities and holds UUIDs.
pub open spec fn entities_packet(packet_id: i32, entities: Seq<EntityRef>, uuids: Seq<u128>) -> LazyView {
    LazyView::Decoded(PacketView::PlayEntities { packet_id, entities, uuids })
}

/// A decoded position update.
pub open spec fn position_packet(x: i32, y: i32, z: i32) -> LazyView {
    LazyView::Decoded(PacketView::PlayPosition { x, y, z })
}

/// Whether a pass has something to do on a packet from a sender: the packet
/// is decoded, the pass looks into packets of its kind, and the packet holds
/// what the pass turns. The entity-id pass has nothing to do on a packet
/// that names no entity, the UUID pass nothing on one without UUIDs.
pub open spec fn pass_acts(pass: RelayPass, sender: PacketSender, packet: LazyView) -> bool {
    match packet {
        LazyView::Raw(_) => false,
        LazyView::Decoded(PacketView::PlayEntities { packet_id, entities, uuids }) => match pass {
            RelayPass::EntityIds => entities.len() > 0,
            RelayPass::Uuids => uuids.len() > 0,
            _ => false,
        },
        LazyView::Decoded(_) => pass_inspects(pass, sender, packet.kind()),
    }
}

/// Rewriting leaves as many identifiers as it found.
proof fn lemma_rewrite_lengths(
    mapping: MappingView,
    backend_id: u64,
    entities: Seq<EntityRef>,
    uuids: Seq<u128>,
)
    ensures
        eids_to_proxy(mapping, backend_id, entities).1 matches Some(done) ==> done.len() == entities.len(),
        uuids_to_proxy(mapping, backend_id, uuids).1 matches Some(done) ==> done.len() == uuids.len(),
        eids_to_server(mapping, entities) matches Some(done) ==> done.len() == entities.len(),
        uuids_to_server(mapping, uuids) matches Some(done) ==> done.len() == uuids.len(),
    decreases entities.len() + uuids.len(),
{
    if entities.len() > 0 {
        lemma_rewrite_lengths(mapping, backend_id, entities.drop_last(), uuids);
    }
    if uuids.len() > 0 {
        lemma_rewrite_lengths(mapping, backend_id, entities, uuids.drop_last());
    }
}

/// A pass that has nothing to do on a packet leaves everything as it is.
pub proof fn lemma_pass_leaves_idle(pass: RelayPass, env: RelayEnv, sender: PacketSender, s: RelayView)
    requires
        !pass_acts(pass, sender, s.packet),
    ensures
        pass_effect(pass, env, sender, s) == s,
{
    match s.packet {
        LazyView::Decoded(PacketView::PlayEntities { packet_id, entities, uuids }) => {
            if pass is EntityIds {
                assert(entities =~= Seq::empty());
                match sender {
                    PacketSender::Server(backend_id, _) => {},
                    PacketSender::Proxy(_) => {
                        assert(eids_to_server(s.mapping, entities)->0 =~= entities);
                    },
                }
            }
            if pass is Uuids {
                assert(uuids =~= Seq::empty());
                match sender {
                    PacketSender::Server(backend_id, _) => {},
                    PacketSender::Proxy(_) => {
                        assert(uuids_to_server(s.mapping, uuids)->0 =~= uuids);
                    },
                }
            }
        },
        _ => {},
    }
}

/// No pass gives another pass something to do, or takes it away.
proof fn lemma_pass_keeps_acting(
    pass: RelayPass,
    other: RelayPass,
    env: RelayEnv,
    sender: PacketSender,
    s: RelayView,
)
    ensures
        pass_acts(other, sender, pass_effect(pass, env, sender, s).packet) == pass_acts(
            other,
            sender,
            s.packet,
        ),
{
    match s.packet {
        LazyView::Decoded(PacketView::PlayEntities { packet_id, entities, uuids }) => {
            match sender {
                PacketSender::Server(backend_id, _) => {
                    lemma_rewrite_lengths(s.mapping, backend_id, entities, uuids);
                },
                PacketSender::Proxy(_) => {
                    lemma_rewrite_lengths(s.mapping, 0, entities, uuids);
                },
            }
        },
        _ => {},
    }
}

/// Passes with nothing to do can be left out: a chain in which only one
/// pass has something to do on a packet, and which holds that pass once,
/// does what that pass does alone, wherever the pass stands in the chain.
/// A chain that does not hold it leaves everything as it is.
pub proof fn lemma_chain_is_one_pass(
    passes: Seq<RelayPass>,
    pass: RelayPass,
    env: RelayEnv,
    sender: PacketSender,
    s: RelayView,
)
    requires
        occurrences(passes, pass) <= 1,
        forall|other: RelayPass| #[trigger] pass_acts(other, sender, s.packet) ==> other == pass,
    ensures
        chain_effect(passes, env, sender, s) == if occurrences(passes, pass) == 1 {
            pass_effect(pass, env, sender, s)
        } else {
            s
        },
    decreases passes.len(),
{
    if passes.len() > 0 {
        let front = passes.drop_last();
        let last = passes.last();
        lemma_chain_is_one_pass(front, pass, env, sender, s);
        let mid = chain_effect(front, env, sender, s);
        if last != pass {
            assert(!pass_acts(last, sender, s.packet));
            lemma_pass_keeps_acting(pass, last, env, sender, s);
            lemma_pass_leaves_idle(last, env, sender, mid);
        }
    }
}

/// A table with the entity ids of one table and the UUIDs of another.
pub open spec fn joined(entity_side: MappingView, uuid_side: MappingView) -> MappingView {
    MappingView {
        uuids: uuid_side.uuids,
        uuids_issued: uuid_side.uuids_issued,
        uuid_limit: uuid_side.uuid_limit,
        ..entity_side
    }
}

/// Whether two tables hold the same entity ids.
pub open spec fn same_entity_side(a: MappingView, b: MappingView) -> bool {
    &&& a.eids == b.eids
    &&& a.entity_types == b.entity_types
    &&& a.eids_issued == b.eids_issued
    &&& a.eid_limit == b.eid_limit
}

/// Whether two tables hold the same UUIDs.
pub open spec fn same_uuid_side(a: MappingView, b: MappingView) -> bool {
    &&& a.uuids == b.uuids
    &&& a.uuids_issued == b.uuids_issued
    &&& a.uuid_limit == b.uuid_limit
}

/// What turning the entity ids of a packet from a sender makes of the
/// table, with the ids that the packet then names, if they could be turned.
pub open spec fn turned_entities(sender: PacketSender, mapping: MappingView, entities: Seq<EntityRef>) -> (
    MappingView,
    Option<Seq<EntityRef>>,
) {
    match sender {
        PacketSender::Server(backend_id, _) => eids_to_proxy(mapping, backend_id, entities),
        PacketSender::Proxy(_) => (mapping, eids_to_server(mapping, entities)),
    }
}

/// What turning the UUIDs of a packet from a sender makes of the table,
/// with the UUIDs that the packet then holds, if they could be turned.
pub open spec fn turned_uuids(sender: PacketSender, mapping: MappingView, uuids: Seq<u128>) -> (
    MappingView,
    Option<Seq<u128>>,
) {
    match sender {
        PacketSender::Server(backend_id, _) => uuids_to_proxy(mapping, backend_id, uuids),
        PacketSender::Proxy(_) => (mapping, uuids_to_server(mapping, uuids)),
    }
}

/// What a chain makes of a packet that names entities and holds UUIDs, if
/// it holds the entity-id pass and the UUID pass at most once each: the
/// entity ids are turned if the chain holds the entity-id pass, the UUIDs
/// if it holds the UUID pass, each against the table as the packet found
/// it; the packet goes where it was bound if all could be turned, and
/// nowhere if not.
pub open spec fn identifiers_turned(
    passes: Seq<RelayPass>,
    sender: PacketSender,
    s: RelayView,
    packet_id: i32,
    entities: Seq<EntityRef>,
    uuids: Seq<u128>,
) -> RelayView {
    let e = if occurrences(passes, RelayPass::EntityIds) == 1 {
        turned_entities(sender, s.mapping, entities)
    } else {
        (s.mapping, Some(entities))
    };
    let u = if occurrences(passes, RelayPass::Uuids) == 1 {
        turned_uuids(sender, s.mapping, uuids)
    } else {
        (s.mapping, Some(uuids))
    };
    RelayView {
        mapping: joined(e.0, u.0),
        packet: entities_packet(
            packet_id,
            match e.1 {
                Some(done) => done,
                None => entities,
            },
            match u.1 {
                Some(done) => done,
                None => uuids,
            },
        ),
        destination: if e.1 is Some && u.1 is Some {
            s.destination
        } else {
            PacketDestination::Nowhere
        },
        ..s
    }
}

/// Turning entity ids reads and changes the entity ids of the table only.
proof fn lemma_entities_turn_alone(
    sender: PacketSender,
    a: MappingView,
    b: MappingView,
    entities: Seq<EntityRef>,
)
    requires
        same_entity_side(a, b),
    ensures
        same_entity_side(turned_entities(sender, a, entities).0, turned_entities(sender, b, entities).0),
        turned_entities(sender, a, entities).1 == turned_entities(sender, b, entities).1,
        same_uuid_side(turned_entities(sender, a, entities).0, a),
    decreases entities.len(),
{
    match sender {
        PacketSender::Server(backend_id, client) => {
            if entities.len() > 0 {
                lemma_entities_turn_alone(sender, a, b, entities.drop_last());
            }
        },
        PacketSender::Proxy(_) => {},
    }
}

/// Turning UUIDs reads and changes the UUIDs of the table only.
proof fn lemma_uuids_turn_alone(sender: PacketSender, a: MappingView, b: MappingView, uuids: Seq<u128>)
    requires
        same_uuid_side(a, b),
    ensures
        same_uuid_side(turned_uuids(sender, a, uuids).0, turned_uuids(sender, b, uuids).0),
        turned_uuids(sender, a, uuids).1 == turned_uuids(sender, b, uuids).1,
        same_entity_side(turned_uuids(sender, a, uuids).0, a),
    decreases uuids.len(),
{
    match sender {
        PacketSender::Server(backend_id, client) => {
            if uuids.len() > 0 {
                lemma_uuids_turn_alone(sender, a, b, uuids.drop_last());
            }
        },
        PacketSender::Proxy(_) => {},
    }
}

/// The two identifier passes do not get in each other's way: a chain that
/// holds each of them at most once, in whatever order and among whatever
/// other passes, turns the entity ids and the UUIDs of a packet as each
/// pass would alone.
pub proof fn lemma_chain_turns_identifiers(
    passes: Seq<RelayPass>,
    env: RelayEnv,
    sender: PacketSender,
    s: RelayView,
    packet_id: i32,
    entities: Seq<EntityRef>,
    uuids: Seq<u128>,
)
    requires
        occurrences(passes, RelayPass::EntityIds) <= 1,
        occurrences(passes, RelayPass::Uuids) <= 1,
        s.packet == entities_packet(packet_id, entities, uuids),
    ensures
        chain_effect(passes, env, sender, s) == identifiers_turned(
            passes,
            sender,
            s,
            packet_id,
            entities,
            uuids,
        ),
    decreases passes.len(),
{
    if passes.len() > 0 {
        let front = passes.drop_last();
        let last = passes.last();
        lemma_chain_turns_identifiers(front, env, sender, s, packet_id, entities, uuids);
        let mid = chain_effect(front, env, sender, s);
        lemma_entities_turn_alone(sender, s.mapping, s.mapping, entities);
        lemma_uuids_turn_alone(sender, s.mapping, s.mapping, uuids);
        match last {
            RelayPass::EntityIds => {
                lemma_entities_turn_alone(sender, mid.mapping, s.mapping, entities);
            },
            RelayPass::Uuids => {
                lemma_uuids_turn_alone(sender, mid.mapping, s.mapping, uuids);
            },
            _ => {
                lemma_pass_leaves_uninspected(last, env, sender, mid);
            },
        }
    }
}

/// What a chain with the two identifier passes makes of a backend's packet:
/// the packet reaches the client with proxy-side identifiers, each paired
/// in the table with the backend's identifier that it stands for, unless an
/// identifier was needed and none was left. Nothing that the table held is
/// lost.
pub proof fn lemma_relayed_from_backend(
    passes: Seq<RelayPass>,
    env: RelayEnv,
    backend_id: u64,
    client: u128,
    s: RelayView,
    packet_id: i32,
    entities: Seq<EntityRef>,
    uuids: Seq<u128>,
)
    requires
        occurrences(passes, RelayPass::EntityIds) == 1,
        occurrences(passes, RelayPass::Uuids) == 1,
        s.mapping.valid(),
        s.packet == entities_packet(packet_id, entities, uuids),
    ensures
        ({
            let r = chain_effect(passes, env, PacketSender::Server(backend_id, client), s);
            let (entity_side, ids) = eids_to_proxy(s.mapping, backend_id, entities);
            let (uuid_side, named) = uuids_to_proxy(s.mapping, backend_id, uuids);
            &&& r.mapping == joined(entity_side, uuid_side)
            &&& r.mapping.valid()
            &&& s.mapping.extended_by(r.mapping)
            &&& entity_side.extended_by(r.mapping)
            &&& uuid_side.extended_by(r.mapping)
            &&& r.tags == s.tags
            &&& r.players == s.players
            &&& r.connects == s.connects
            &&& ids is Some && named is Some ==> r.packet == entities_packet(packet_id, ids->0, named->0)
                && r.destination == s.destination
            &&& ids is None || named is None ==> r.destination is Nowhere
            &&& ids matches Some(done) ==> done.len() == entities.len() && forall|i: int|
                0 <= i < done.len() ==> has_pair(
                    r.mapping.eids,
                    (#[trigger] done[i]).id,
                    (backend_id, entities[i].id),
                ) && done[i].entity_type == entities[i].entity_type
            &&& named matches Some(done) ==> done.len() == uuids.len() && forall|i: int|
                0 <= i < done.len() ==> has_pair(r.mapping.uuids, #[trigger] done[i], (backend_id, uuids[i]))
        }),
{
    let sender = PacketSender::Server(backend_id, client);
    lemma_chain_turns_identifiers(passes, env, sender, s, packet_id, entities, uuids);
    lemma_eids_to_proxy_pairs(s.mapping, backend_id, entities);
    lemma_uuids_to_proxy_pairs(s.mapping, backend_id, uuids);
    lemma_entities_turn_alone(sender, s.mapping, s.mapping, entities);
    lemma_uuids_turn_alone(sender, s.mapping, s.mapping, uuids);
}

/// What a chain with the two identifier passes makes of a backend's packet
/// whose identifiers the table knows: the packet reaches the client with
/// the identifiers that the table holds for them, whatever types it gives,
/// and nothing else changes. The table and its allocators are as before.
pub proof fn lemma_relayed_known_identifiers(
    passes: Seq<RelayPass>,
    env: RelayEnv,
    backend_id: u64,
    client: u128,
    s: RelayView,
    packet_id: i32,
    entities: Seq<EntityRef>,
    uuids: Seq<u128>,
    known_ids: Seq<i32>,
    known_uuids: Seq<u128>,
)
    requires
        occurrences(passes, RelayPass::EntityIds) == 1,
        occurrences(passes, RelayPass::Uuids) == 1,
        s.mapping.valid(),
        s.packet == entities_packet(packet_id, entities, uuids),
        known_ids.len() == entities.len(),
        known_uuids.len() == uuids.len(),
        forall|i: int|
            0 <= i < entities.len() ==> has_pair(
                s.mapping.eids,
                #[trigger] known_ids[i],
                (backend_id, entities[i].id),
            ),
        forall|i: int|
            0 <= i < uuids.len() ==> has_pair(s.mapping.uuids, #[trigger] known_uuids[i], (backend_id, uuids[i])),
    ensures
        chain_effect(passes, env, PacketSender::Server(backend_id, client), s) == (RelayView {
            packet: entities_packet(packet_id, under_ids(known_ids, entities), known_uuids),
            ..s
        }),
{
    lemma_eids_to_proxy_known(s.mapping, backend_id, entities, known_ids);
    lemma_uuids_to_proxy_known(s.mapping, backend_id, uuids, known_uuids);
    lemma_chain_turns_identifiers(
        passes,
        env,
        PacketSender::Server(backend_id, client),
        s,
        packet_id,
        entities,
        uuids,
    );
}

/// What a chain with the two identifier passes makes of a client's packet
/// whose identifiers the table holds: the packet goes on to where it was
/// bound, each identifier turned into the backend-side identifier that it
/// stands for, and nothing else changes. Looking the identifiers up leaves
/// the table as it was.
pub proof fn lemma_relayed_to_backend(
    passes: Seq<RelayPass>,
    env: RelayEnv,
    client: u128,
    s: RelayView,
    packet_id: i32,
    entities: Seq<EntityRef>,
    uuids: Seq<u128>,
)
    requires
        occurrences(passes, RelayPass::EntityIds) == 1,
        occurrences(passes, RelayPass::Uuids) == 1,
        s.packet == entities_packet(packet_id, entities, uuids),
        forall|i: int| 0 <= i < entities.len() ==> s.mapping.eids.dom().contains((#[trigger] entities[i]).id),
        forall|i: int| 0 <= i < uuids.len() ==> s.mapping.uuids.dom().contains(#[trigger] uuids[i]),
    ensures
        eids_to_server(s.mapping, entities) is Some,
        uuids_to_server(s.mapping, uuids) is Some,
        chain_effect(passes, env, PacketSender::Proxy(client), s) == (RelayView {
            packet: entities_packet(
                packet_id,
                eids_to_server(s.mapping, entities)->0,
                uuids_to_server(s.mapping, uuids)->0,
            ),
            ..s
        }),
        forall|i: int|
            0 <= i < entities.len() ==> (#[trigger] eids_to_server(s.mapping, entities)->0[i]).id
                == s.mapping.eids[entities[i].id].1 && eids_to_server(s.mapping, entities)->0[i].entity_type
                == entities[i].entity_type,
        forall|i: int|
            0 <= i < uuids.len() ==> #[trigger] uuids_to_server(s.mapping, uuids)->0[i]
                == s.mapping.uuids[uuids[i]].1,
{
    lemma_identifiers_to_server(s.mapping, entities, uuids);
    lemma_chain_turns_identifiers(passes, env, PacketSender::Proxy(client), s, packet_id, entities, uuids);
}

/// Mapping round-trip through the relay. A backend's packet reaches the
/// client with proxy-side entity ids and UUIDs; a packet of the client with
/// those identifiers, at any later time, reaches the backends with the
/// identifiers that the backend sent, bound for where it was bound, and
/// looking them up changes nothing in the table.
pub proof fn lemma_relayed_identifiers_return(
    to_client: Seq<RelayPass>,
    to_server: Seq<RelayPass>,
    env: RelayEnv,
    later_env: RelayEnv,
    backend_id: u64,
    client: u128,
    s: RelayView,
    packet_id: i32,
    entities: Seq<EntityRef>,
    uuids: Seq<u128>,
    later: RelayView,
    later_packet_id: i32,
)
    requires
        occurrences(to_client, RelayPass::EntityIds) == 1,
        occurrences(to_client, RelayPass::Uuids) == 1,
        occurrences(to_server, RelayPass::EntityIds) == 1,
        occurrences(to_server, RelayPass::Uuids) == 1,
        s.mapping.valid(),
        s.packet == entities_packet(packet_id, entities, uuids),
        eids_to_proxy(s.mapping, backend_id, entities).1 is Some,
        uuids_to_proxy(s.mapping, backend_id, uuids).1 is Some,
        chain_effect(to_client, env, PacketSender::Server(backend_id, client), s).mapping.extended_by(
            later.mapping,
        ),
        later.packet == entities_packet(
            later_packet_id,
            eids_to_proxy(s.mapping, backend_id, entities).1->0,
            uuids_to_proxy(s.mapping, backend_id, uuids).1->0,
        ),
    ensures
        chain_effect(to_client, env, PacketSender::Server(backend_id, client), s).packet
            == entities_packet(
            packet_id,
            eids_to_proxy(s.mapping, backend_id, entities).1->0,
            uuids_to_proxy(s.mapping, backend_id, uuids).1->0,
        ),
        chain_effect(to_client, env, PacketSender::Server(backend_id, client), s).destination
            == s.destination,
        chain_effect(to_server, later_env, PacketSender::Proxy(client), later) == (RelayView {
            packet: entities_packet(later_packet_id, entities, uuids),
            ..later
        }),
{
    lemma_relayed_from_backend(to_client, env, backend_id, client, s, packet_id, entities, uuids);
    let r = chain_effect(to_client, env, PacketSender::Server(backend_id, client), s);
    let (entity_side, ids) = eids_to_proxy(s.mapping, backend_id, entities);
    let (uuid_side, named) = uuids_to_proxy(s.mapping, backend_id, uuids);
    lemma_extended_by_transitive(entity_side, r.mapping, later.mapping);
    lemma_extended_by_transitive(uuid_side, r.mapping, later.mapping);
    lemma_eid_rewrite_round_trip(s.mapping, backend_id, entities, later.mapping);
    lemma_uuid_rewrite_round_trip(s.mapping, backend_id, uuids, later.mapping);
    lemma_chain_turns_identifiers(
        to_server,
        later_env,
        PacketSender::Proxy(client),
        later,
        later_packet_id,
        ids->0,
        named->0,
    );
}

/// Mapping stability through the relay. A backend's packet with entities
/// and UUIDs that an earlier packet of the backend had reaches the client
/// with the same proxy-side identifiers, at any later time and whatever
/// types it gives; the table is left as it was, so that nothing is
/// allocated for it.
pub proof fn lemma_relayed_identifiers_stable(
    first: Seq<RelayPass>,
    second: Seq<RelayPass>,
    env: RelayEnv,
    later_env: RelayEnv,
    backend_id: u64,
    client: u128,
    later_client: u128,
    s: RelayView,
    packet_id: i32,
    entities: Seq<EntityRef>,
    uuids: Seq<u128>,
    later: RelayView,
    later_packet_id: i32,
    again: Seq<EntityRef>,
)
    requires
        occurrences(first, RelayPass::EntityIds) == 1,
        occurrences(first, RelayPass::Uuids) == 1,
        occurrences(second, RelayPass::EntityIds) == 1,
        occurrences(second, RelayPass::Uuids) == 1,
        s.mapping.valid(),
        s.packet == entities_packet(packet_id, entities, uuids),
        eids_to_proxy(s.mapping, backend_id, entities).1 is Some,
        uuids_to_proxy(s.mapping, backend_id, uuids).1 is Some,
        chain_effect(first, env, PacketSender::Server(backend_id, client), s).mapping.extended_by(
            later.mapping,
        ),
        later.mapping.valid(),
        same_ids(entities, again),
        later.packet == entities_packet(later_packet_id, again, uuids),
    ensures
        chain_effect(second, later_env, PacketSender::Server(backend_id, later_client), later) == (RelayView {
            packet: entities_packet(
                later_packet_id,
                with_types_of(eids_to_proxy(s.mapping, backend_id, entities).1->0, again),
                uuids_to_proxy(s.mapping, backend_id, uuids).1->0,
            ),
            ..later
        }),
{
    lemma_relayed_from_backend(first, env, backend_id, client, s, packet_id, entities, uuids);
    let r = chain_effect(first, env, PacketSender::Server(backend_id, client), s);
    let (entity_side, ids) = eids_to_proxy(s.mapping, backend_id, entities);
    let (uuid_side, named) = uuids_to_proxy(s.mapping, backend_id, uuids);
    lemma_extended_by_transitive(entity_side, r.mapping, later.mapping);
    lemma_extended_by_transitive(uuid_side, r.mapping, later.mapping);
    lemma_eid_rewrite_stable(s.mapping, backend_id, entities, later.mapping, again);
    lemma_uuid_rewrite_stable(s.mapping, backend_id, uuids, later.mapping);
    lemma_chain_turns_identifiers(
        second,
        later_env,
        PacketSender::Server(backend_id, later_client),
        later,
        later_packet_id,
        again,
        uuids,
    );
}

/// Allocation through the relay. A backend's packet with one entity that
/// the table does not know, while an id is left, reaches the client with
/// the id after the last one allocated, which is 1 if none was. The table
/// then holds the pair with the type that the packet gave, and the
/// allocator stands one further.
pub proof fn lemma_relayed_new_entity(
    passes: Seq<RelayPass>,
    env: RelayEnv,
    backend_id: u64,
    client: u128,
    s: RelayView,
    packet_id: i32,
    entity: EntityRef,
)
    requires
        occurrences(passes, RelayPass::EntityIds) == 1,
        occurrences(passes, RelayPass::Uuids) <= 1,
        s.mapping.valid(),
        s.packet == entities_packet(packet_id, seq![entity], Seq::empty()),
        s.mapping.proxy_eid(backend_id, entity.id) is None,
        s.mapping.eids_issued < s.mapping.eid_limit,
    ensures
        ({
            let r = chain_effect(passes, env, PacketSender::Server(backend_id, client), s);
            let k = (s.mapping.eids_issued + 1) as i32;
            &&& r == (RelayView {
                mapping: s.mapping.after_eid(backend_id, entity.id, entity.entity_type),
                packet: entities_packet(
                    packet_id,
                    seq![(EntityRef { id: k, entity_type: entity.entity_type })],
                    Seq::empty(),
                ),
                ..s
            })
            &&& r.mapping.eids_issued == s.mapping.eids_issued + 1
            &&& has_pair(r.mapping.eids, k, (backend_id, entity.id))
            &&& r.mapping.entity_types[k] == entity.entity_type
            &&& !s.mapping.eids.dom().contains(k)
        }),
{
    let sender = PacketSender::Server(backend_id, client);
    lemma_chain_is_one_pass(passes, RelayPass::EntityIds, env, sender, s);
    lemma_eid_allocation(s.mapping, backend_id, entity.id, entity.entity_type);
    let one = seq![entity];
    assert(one.drop_last() =~= Seq::empty());
    assert(one.last() == entity);
    let k = (s.mapping.eids_issued + 1) as i32;
    assert(eids_to_proxy(s.mapping, backend_id, one.drop_last()) == (s.mapping, Some(Seq::<EntityRef>::empty())));
    assert(Seq::<EntityRef>::empty().push(EntityRef { id: k, entity_type: entity.entity_type })
        =~= seq![(EntityRef { id: k, entity_type: entity.entity_type })]);
}

/// Fresh allocation through the relay. Of two packets of backends, each
/// with one entity that is new to the table when the packet comes, the
/// later one reaches the client with the larger id, whatever was relayed
/// between the two.
pub proof fn lemma_relayed_later_entity_is_larger(
    first: Seq<RelayPass>,
    second: Seq<RelayPass>,
    env: RelayEnv,
    later_env: RelayEnv,
    backend_id: u64,
    client: u128,
    s: RelayView,
    packet_id: i32,
    entity: EntityRef,
    later_backend_id: u64,
    later_client: u128,
    later: RelayView,
    later_packet_id: i32,
    later_entity: EntityRef,
)
    requires
        occurrences(first, RelayPass::EntityIds) == 1,
        occurrences(first, RelayPass::Uuids) <= 1,
        occurrences(second, RelayPass::EntityIds) == 1,
        occurrences(second, RelayPass::Uuids) <= 1,
        s.mapping.valid(),
        s.packet == entities_packet(packet_id, seq![entity], Seq::empty()),
        s.mapping.proxy_eid(backend_id, entity.id) is None,
        s.mapping.eids_issued < s.mapping.eid_limit,
        chain_effect(first, env, PacketSender::Server(backend_id, client), s).mapping.extended_by(
            later.mapping,
        ),
        later.mapping.valid(),
        later.packet == entities_packet(later_packet_id, seq![later_entity], Seq::empty()),
        later.mapping.proxy_eid(later_backend_id, later_entity.id) is None,
        later.mapping.eids_issued < later.mapping.eid_limit,
    ensures
        ({
            let r = chain_effect(first, env, PacketSender::Server(backend_id, client), s);
            let t = chain_effect(second, later_env, PacketSender::Server(later_backend_id, later_client), later);
            let k = (s.mapping.eids_issued + 1) as i32;
            let l = (later.mapping.eids_issued + 1) as i32;
            &&& r.packet == entities_packet(
                packet_id,
                seq![(EntityRef { id: k, entity_type: entity.entity_type })],
                Seq::empty(),
            )
            &&& t.packet == entities_packet(
                later_packet_id,
                seq![(EntityRef { id: l, entity_type: later_entity.entity_type })],
                Seq::empty(),
            )
            &&& 1 <= k < l
        }),
{
    lemma_relayed_new_entity(first, env, backend_id, client, s, packet_id, entity);
    lemma_relayed_new_entity(
        second,
        later_env,
        later_backend_id,
        later_client,
        later,
        later_packet_id,
        later_entity,
    );
}

/// Zone transition through the relay. A position update of a client, bound
/// for a backend, whose position belongs to a registered backend other than
/// the client's active one hands the client over, in every chain with one
/// zoning pass. That backend becomes the active one, and the update goes
/// there and can be written. The client keeps every connection it had, in
/// place and as it was. A connection to the backend is asked for if and
/// only if the client had none; one that it had is kept in use.
pub proof fn lemma_relayed_handover(
    passes: Seq<RelayPass>,
    env: RelayEnv,
    client: u128,
    s: RelayView,
    i: int,
    x: i32,
    y: i32,
    z: i32,
    target: u64,
)
    requires
        occurrences(passes, RelayPass::Zoning) == 1,
        place_of(view_uuids(s.players), client) == Some(i),
        s.packet == position_packet(x, y, z),
        s.destination is Server,
        backend_of(env.zones, env.default_zone, x as int, z as int) == Ok::<u64, SplinterError>(target),
        target != s.players[i].active_server_id,
        !absent(env.servers, target),
    ensures
        ({
            let r = chain_effect(passes, env, PacketSender::Proxy(client), s);
            let had = !absent(connection_ids(s.players[i].servers), target);
            &&& 0 <= i < s.players.len()
            &&& r == (RelayView {
                players: s.players.update(
                    i,
                    s.players[i].moved_to(Position { x, y, z }).switched_to(target),
                ),
                destination: PacketDestination::Server(target),
                connects: if had {
                    s.connects
                } else {
                    s.connects.push((client, target))
                },
                ..s
            })
            &&& r.players[i].active_server_id == target
            &&& r.players[i].position == (Position { x, y, z })
            &&& had ==> r.players[i].servers == s.players[i].servers
            &&& !had ==> r.players[i].servers.len() == s.players[i].servers.len() + 1
                && r.players[i].servers.last().id == target
            &&& forall|c: int|
                0 <= c < s.players[i].servers.len() ==> #[trigger] r.players[i].servers[c]
                    == s.players[i].servers[c]
            &&& delivery_of(connection_ids(r.players[i].servers), r.destination, r.packet)
                == DeliveryView::ToServer(target, s.packet)
            &&& s.players[i].valid() ==> r.players[i].valid()
        }),
{
    let sender = PacketSender::Proxy(client);
    lemma_chain_is_one_pass(passes, RelayPass::Zoning, env, sender, s);
    assert(first_at(view_uuids(s.players), i, client));
    let moved = s.players[i].moved_to(Position { x, y, z });
    lemma_handed_over_is_deliverable(moved, target, s.packet);
}

/// After a handover, and at any other time: a packet of a client that no
/// pass of the chain looks into, bound for the client's active backend, is
/// written to that backend as it is.
pub proof fn lemma_unredirected_reaches_active(
    passes: Seq<RelayPass>,
    env: RelayEnv,
    client: u128,
    s: RelayView,
    i: int,
)
    requires
        place_of(view_uuids(s.players), client) == Some(i),
        s.players[i].valid(),
        s.destination == PacketDestination::Server(s.players[i].active_server_id),
        s.packet is Raw || !chain_inspects(passes, PacketSender::Proxy(client), s.packet.kind()),
    ensures
        chain_effect(passes, env, PacketSender::Proxy(client), s) == s,
        delivery_of(connection_ids(s.players[i].servers), s.destination, s.packet) == DeliveryView::ToServer(
            s.players[i].active_server_id,
            s.packet,
        ),
{
    lemma_chain_leaves_uninspected(passes, env, PacketSender::Proxy(client), s);
}

/// A packet bound for the active backend of a client is written to that
/// backend: the client has a connection to it.
pub proof fn lemma_active_backend_is_written(client: ClientView, packet: LazyView)
    requires
        client.valid(),
    ensures
        delivery_of(
            connection_ids(client.servers),
            PacketDestination::Server(client.active_server_id),
            packet,
        ) == DeliveryView::ToServer(client.active_server_id, packet),
{
}

} // verus!
