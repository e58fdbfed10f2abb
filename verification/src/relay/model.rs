//! What the relay passes do, as functions on values: the state that a pass
//! may change, what it reads, and the effect of each pass.

use vstd::prelude::*;
use crate::client::{client_views, connection_ids, ClientView, Position};
use crate::dictionary::Dictionaries;
use crate::keyed::{absent, place_of};
use crate::mapping::MappingView;
use crate::packet::{LazyView, PacketDestination, PacketKind, PacketSender, PacketView};
use crate::proxy::{server_ids, SplinterProxy};
use crate::relay::rewrite::{eids_to_proxy, eids_to_server, uuids_to_proxy, uuids_to_server};
use crate::tags::{all_ids_known, tag_list_of, wire_of, Tags, TagsView, WireTagsView};
use crate::zoning::{backend_of, Zone};

verus! {

/// A relay pass: one step of the chain that every relayed packet runs through.
#[derive(Copy, Clone, Debug, PartialEq, Eq)]
pub enum RelayPass {
    /// Rewrites entity ids between the backends' numbering and the proxy's.
    EntityIds,
    /// Rewrites UUIDs between the backends' and the proxy's.
    Uuids,
    /// Keeps the tags that a backend announces, by name, and numbers them
    /// for the client by the proxy's dictionaries.
    Tags,
    /// Keeps the keep-alives that a client has been sent and has not
    /// answered.
    KeepAlive,
    /// Follows the client's position, and hands the client over to the
    /// backend that owns the zone it moved into.
    Zoning,
}

/// The four dictionaries as values.
pub struct DictionaryMaps {
    pub blocks: Map<i32, Seq<char>>,
    pub items: Map<i32, Seq<char>>,
    pub fluids: Map<i32, Seq<char>>,
    pub entities: Map<i32, Seq<char>>,
}

/// The four dictionaries as values.
pub open spec fn dictionary_maps(dictionaries: &Dictionaries) -> DictionaryMaps {
    DictionaryMaps {
        blocks: dictionaries.blocks@,
        items: dictionaries.items@,
        fluids: dictionaries.fluids@,
        entities: dictionaries.entities@,
    }
}

/// What the passes read but never change.
pub struct RelayEnv {
    pub zones: Seq<(u64, Zone)>,
    pub default_zone: Option<u64>,
    pub servers: Seq<u64>,
    pub names: DictionaryMaps,
}

/// What the passes may change: the identifier tables, the tags kept, the
/// clients, the packet and its destination, and the connections that the
/// caller is asked to open (each the UUID of a client with the id of a backend).
pub struct RelayView {
    pub mapping: MappingView,
    pub tags: Option<TagsView>,
    pub players: Seq<ClientView>,
    pub packet: LazyView,
    pub destination: PacketDestination,
    pub connects: Seq<(u128, u64)>,
}

/// The tags kept, as a value.
pub open spec fn kept_tags(tags: Option<Tags>) -> Option<TagsView> {
    match tags {
        Some(t) => Some(t@),
        None => None,
    }
}

/// What the passes read of a proxy and the dictionaries.
pub open spec fn relay_env(proxy: &SplinterProxy, dictionaries: &Dictionaries) -> RelayEnv {
    RelayEnv {
        zones: proxy.zoner.zones@,
        default_zone: proxy.zoner.default,
        servers: server_ids(proxy.servers@),
        names: dictionary_maps(dictionaries),
    }
}

/// What the passes may change of a proxy, with a packet under way.
pub open spec fn relay_view(
    proxy: &SplinterProxy,
    packet: LazyView,
    destination: PacketDestination,
    connects: Seq<(u128, u64)>,
) -> RelayView {
    RelayView {
        mapping: proxy.mapping@,
        tags: kept_tags(proxy.tags),
        players: client_views(proxy.players@),
        packet,
        destination,
        connects,
    }
}

/// The UUIDs of clients given as values.
pub open spec fn view_uuids(players: Seq<ClientView>) -> Seq<u128> {
    Seq::new(players.len(), |i: int| players[i].uuid)
}

/// Whether every id of the four wire lists is in the dictionary of its kind.
pub open spec fn wire_known(wire: WireTagsView, names: DictionaryMaps) -> bool {
    &&& all_ids_known(wire.block_tags, names.blocks)
    &&& all_ids_known(wire.item_tags, names.items)
    &&& all_ids_known(wire.fluid_tags, names.fluids)
    &&& all_ids_known(wire.entity_tags, names.entities)
}

/// The tags that the four wire lists make, by name.
pub open spec fn named_tags(wire: WireTagsView, names: DictionaryMaps) -> TagsView {
    TagsView {
        blocks: tag_list_of(wire.block_tags, names.blocks),
        items: tag_list_of(wire.item_tags, names.items),
        fluids: tag_list_of(wire.fluid_tags, names.fluids),
        entities: tag_list_of(wire.entity_tags, names.entities),
    }
}

/// The wire lists of tags kept by name, numbered by the dictionaries.
pub open spec fn numbered_tags(tags: TagsView, names: DictionaryMaps) -> WireTagsView {
    WireTagsView {
        block_tags: wire_of(tags.blocks, names.blocks),
        item_tags: wire_of(tags.items, names.items),
        fluid_tags: wire_of(tags.fluids, names.fluids),
        entity_tags: wire_of(tags.entities, names.entities),
    }
}

/// Whether a pass looks into packets of a kind from a sender. A pass leaves
/// every other packet, and every packet that is not decoded, as it is.
pub open spec fn pass_inspects(pass: RelayPass, sender: PacketSender, kind: PacketKind) -> bool {
    match pass {
        RelayPass::EntityIds => kind == PacketKind::PlayEntities,
        RelayPass::Uuids => kind == PacketKind::PlayEntities,
        RelayPass::Tags => sender is Server && kind == PacketKind::PlayTags,
        RelayPass::KeepAlive => kind == PacketKind::PlayKeepAlive,
        RelayPass::Zoning => sender is Proxy && kind == PacketKind::PlayPosition,
    }
}

/// The entity-id pass, on the table, the packet and its destination. In a
/// packet from a backend, each entity id becomes the proxy-side id of the
/// backend's entity. In a packet from the client, each becomes the
/// backend-side id that it stands for. A packet whose ids cannot all be
/// turned is suppressed and keeps its ids.
pub open spec fn entity_ids_on(
    sender: PacketSender,
    mapping: MappingView,
    packet: LazyView,
    destination: PacketDestination,
) -> (MappingView, LazyView, PacketDestination) {
    match packet {
        LazyView::Decoded(PacketView::PlayEntities { packet_id, entities, uuids }) => match sender {
            PacketSender::Server(backend_id, _) => {
                let (after, rewritten) = eids_to_proxy(mapping, backend_id, entities);
                match rewritten {
                    Some(done) => (
                        after,
                        LazyView::Decoded(PacketView::PlayEntities { packet_id, entities: done, uuids }),
                        destination,
                    ),
                    None => (after, packet, PacketDestination::Nowhere),
                }
            },
            PacketSender::Proxy(_) => match eids_to_server(mapping, entities) {
                Some(done) => (
                    mapping,
                    LazyView::Decoded(PacketView::PlayEntities { packet_id, entities: done, uuids }),
                    destination,
                ),
                None => (mapping, packet, PacketDestination::Nowhere),
            },
        },
        _ => (mapping, packet, destination),
    }
}

/// The UUID pass: like the entity-id pass, on the UUIDs of a packet.
pub open spec fn uuids_on(
    sender: PacketSender,
    mapping: MappingView,
    packet: LazyView,
    destination: PacketDestination,
) -> (MappingView, LazyView, PacketDestination) {
    match packet {
        LazyView::Decoded(PacketView::PlayEntities { packet_id, entities, uuids }) => match sender {
            PacketSender::Server(backend_id, _) => {
                let (after, rewritten) = uuids_to_proxy(mapping, backend_id, uuids);
                match rewritten {
                    Some(done) => (
                        after,
                        LazyView::Decoded(PacketView::PlayEntities { packet_id, entities, uuids: done }),
                        destination,
                    ),
                    None => (after, packet, PacketDestination::Nowhere),
                }
            },
            PacketSender::Proxy(_) => match uuids_to_server(mapping, uuids) {
                Some(done) => (
                    mapping,
                    LazyView::Decoded(PacketView::PlayEntities { packet_id, entities, uuids: done }),
                    destination,
                ),
                None => (mapping, packet, PacketDestination::Nowhere),
            },
        },
        _ => (mapping, packet, destination),
    }
}

/// The tags pass, on the tags kept, the packet and its destination. The
/// tags that a backend announces are kept by name, in place of the tags kept
/// before, and go on to the client numbered by the proxy's dictionaries. A
/// tags packet with an id that its dictionary does not hold is suppressed,
/// and changes nothing.
pub open spec fn tags_on(
    names: DictionaryMaps,
    sender: PacketSender,
    kept: Option<TagsView>,
    packet: LazyView,
    destination: PacketDestination,
) -> (Option<TagsView>, LazyView, PacketDestination) {
    match packet {
        LazyView::Decoded(PacketView::PlayTags { tags: wire }) => if sender is Server {
            if wire_known(wire, names) {
                (
                    Some(named_tags(wire, names)),
                    LazyView::Decoded(
                        PacketView::PlayTags { tags: numbered_tags(named_tags(wire, names), names) },
                    ),
                    destination,
                )
            } else {
                (kept, packet, PacketDestination::Nowhere)
            }
        } else {
            (kept, packet, destination)
        },
        _ => (kept, packet, destination),
    }
}

/// The keep-alive pass, on the clients. A keep-alive from a backend is one
/// more that the client is waited on for. A keep-alive from the client
/// answers the oldest one of its id. The packet goes on as it is.
pub open spec fn keep_alive_on(sender: PacketSender, players: Seq<ClientView>, packet: LazyView) -> Seq<
    ClientView,
> {
    match packet {
        LazyView::Decoded(PacketView::PlayKeepAlive { id }) => match place_of(
            view_uuids(players),
            sender.client(),
        ) {
            Some(i) => players.update(
                i,
                if sender is Server {
                    players[i].waited_for(id)
                } else {
                    players[i].answered(id)
                },
            ),
            None => players,
        },
        _ => players,
    }
}

/// The backend that the zoning pass hands a client over to, if it does: the
/// backend that owns the position, if it is registered, is not the client's
/// active backend, and the packet is on its way to a backend.
pub open spec fn handover_target(
    zones: Seq<(u64, Zone)>,
    default_zone: Option<u64>,
    servers: Seq<u64>,
    client: ClientView,
    destination: PacketDestination,
    x: i32,
    z: i32,
) -> Option<u64> {
    match backend_of(zones, default_zone, x as int, z as int) {
        Ok(target) => if target != client.active_server_id && !absent(servers, target)
            && destination is Server {
            Some(target)
        } else {
            None
        },
        Err(_) => None,
    }
}

/// The zoning pass, on the clients, the destination, and the connections to
/// open. A position update of a live client is recorded. If the position
/// belongs to another registered backend than the client's active one, the
/// client is handed over: it gets a connection to that backend (which the
/// caller is asked to open, if it is new), that backend becomes the active
/// one, and the packet goes there.
pub open spec fn zoning_on(
    zones: Seq<(u64, Zone)>,
    default_zone: Option<u64>,
    servers: Seq<u64>,
    sender: PacketSender,
    players: Seq<ClientView>,
    packet: LazyView,
    destination: PacketDestination,
    connects: Seq<(u128, u64)>,
) -> (Seq<ClientView>, PacketDestination, Seq<(u128, u64)>) {
    match (sender, packet) {
        (
            PacketSender::Proxy(uuid),
            LazyView::Decoded(PacketView::PlayPosition { x, y, z }),
        ) => match place_of(view_uuids(players), uuid) {
            Some(i) => {
                let moved = players[i].moved_to(Position { x, y, z });
                match handover_target(zones, default_zone, servers, moved, destination, x, z) {
                    Some(target) => (
                        players.update(i, moved.switched_to(target)),
                        PacketDestination::Server(target),
                        if absent(connection_ids(moved.servers), target) {
                            connects.push((uuid, target))
                        } else {
                            connects
                        },
                    ),
                    None => (players.update(i, moved), destination, connects),
                }
            },
            None => (players, destination, connects),
        },
        _ => (players, destination, connects),
    }
}

/// What one pass does.
pub open spec fn pass_effect(pass: RelayPass, env: RelayEnv, sender: PacketSender, s: RelayView) -> RelayView {
    match pass {
        RelayPass::EntityIds => {
            let r = entity_ids_on(sender, s.mapping, s.packet, s.destination);
            RelayView { mapping: r.0, packet: r.1, destination: r.2, ..s }
        },
        RelayPass::Uuids => {
            let r = uuids_on(sender, s.mapping, s.packet, s.destination);
            RelayView { mapping: r.0, packet: r.1, destination: r.2, ..s }
        },
        RelayPass::Tags => {
            let r = tags_on(env.names, sender, s.tags, s.packet, s.destination);
            RelayView { tags: r.0, packet: r.1, destination: r.2, ..s }
        },
        RelayPass::KeepAlive => RelayView { players: keep_alive_on(sender, s.players, s.packet), ..s },
        RelayPass::Zoning => {
            let r = zoning_on(
                env.zones,
                env.default_zone,
                env.servers,
                sender,
                s.players,
                s.packet,
                s.destination,
                s.connects,
            );
            RelayView { players: r.0, destination: r.1, connects: r.2, ..s }
        },
    }
}

/// A pass that does not look into a packet leaves everything as it is. No
/// pass looks into a packet that is not decoded.
pub proof fn lemma_pass_leaves_uninspected(pass: RelayPass, env: RelayEnv, sender: PacketSender, s: RelayView)
    requires
        s.packet is Raw || !pass_inspects(pass, sender, s.packet.kind()),
    ensures
        pass_effect(pass, env, sender, s) == s,
{
}

/// A pass never changes the kind of a packet, nor its form.
pub proof fn lemma_pass_keeps_kind(pass: RelayPass, env: RelayEnv, sender: PacketSender, s: RelayView)
    ensures
        pass_effect(pass, env, sender, s).packet.kind() == s.packet.kind(),
        pass_effect(pass, env, sender, s).packet is Raw <==> s.packet is Raw,
{
}

} // verus!
