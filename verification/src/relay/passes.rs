//! The relay passes as code: each pass, run on a packet, does what its
//! effect says.

use vstd::prelude::*;
use crate::bijection::has_right;
use crate::client::{client_views, Position};
use crate::dictionary::Dictionaries;
use crate::error::SplinterError;
use crate::keyed::lemma_distinct_remove;
use crate::mapping::SplinterMapping;
use crate::packet::{
    LazyDeserializedPacket,
    Packet,
    PacketDestination,
    PacketForm,
    PacketKind,
    PacketSender,
};
use crate::proxy::{client_uuids, server_ids, SplinterProxy};
use crate::relay::model::{
    dictionary_maps,
    entity_ids_on,
    keep_alive_on,
    kept_tags,
    named_tags,
    pass_effect,
    pass_inspects,
    relay_env,
    relay_view,
    tags_on,
    uuids_on,
    view_uuids,
    wire_known,
    zoning_on,
    RelayPass,
};
use crate::relay::rewrite::{
    rewrite_eids_to_proxy,
    rewrite_eids_to_server,
    rewrite_uuids_to_proxy,
    rewrite_uuids_to_server,
};
use crate::tags::{
    all_ids_known,
    all_names_known,
    ids_known,
    is_first_unknown_id,
    is_first_unknown_name,
    is_tag_list_of,
    is_tags_of,
    is_wire_of,
    is_wire_of_tags,
    names_known,
    tags_from_wire,
    tags_to_wire,
    TagView,
    Tags,
    WireTagView,
    WireTagsView,
};

verus! {

impl RelayPass {
    /// Whether the pass looks into packets of a kind from a sender.
    pub fn inspects(&self, sender: PacketSender, kind: PacketKind) -> (b: bool)
        ensures
            b == pass_inspects(*self, sender, kind),
    {
        match self {
            RelayPass::EntityIds => matches!(kind, PacketKind::PlayEntities),
            RelayPass::Uuids => matches!(kind, PacketKind::PlayEntities),
            RelayPass::Tags => matches!(sender, PacketSender::Server(_, _)) && matches!(
                kind,
                PacketKind::PlayTags
            ),
            RelayPass::KeepAlive => matches!(kind, PacketKind::PlayKeepAlive),
            RelayPass::Zoning => matches!(sender, PacketSender::Proxy(_)) && matches!(
                kind,
                PacketKind::PlayPosition
            ),
        }
    }
}

/// Runs the entity-id pass on a packet.
pub fn apply_entity_ids(
    mapping: &mut SplinterMapping,
    sender: PacketSender,
    packet: LazyDeserializedPacket,
    destination: PacketDestination,
) -> (out: (LazyDeserializedPacket, PacketDestination))
    requires
        old(mapping).wf(),
    ensures
        final(mapping).wf(),
        (final(mapping)@, out.0@, out.1) == entity_ids_on(sender, old(mapping)@, packet@, destination),
{
    match packet.form {
        PacketForm::Decoded(Packet::PlayEntities { packet_id, entities, uuids }) => {
            let rewritten = match sender {
                PacketSender::Server(backend_id, _) => rewrite_eids_to_proxy(mapping, backend_id, &entities),
                PacketSender::Proxy(_) => rewrite_eids_to_server(mapping, &entities),
            };
            match rewritten {
                Some(done) => (
                    LazyDeserializedPacket {
                        form: PacketForm::Decoded(Packet::PlayEntities { packet_id, entities: done, uuids }),
                    },
                    destination,
                ),
                None => (
                    LazyDeserializedPacket {
                        form: PacketForm::Decoded(Packet::PlayEntities { packet_id, entities, uuids }),
                    },
                    PacketDestination::Nowhere,
                ),
            }
        },
        other => (LazyDeserializedPacket { form: other }, destination),
    }
}

/// Runs the UUID pass on a packet.
pub fn apply_uuids(
    mapping: &mut SplinterMapping,
    sender: PacketSender,
    packet: LazyDeserializedPacket,
    destination: PacketDestination,
) -> (out: (LazyDeserializedPacket, PacketDestination))
    requires
        old(mapping).wf(),
    ensures
        final(mapping).wf(),
        (final(mapping)@, out.0@, out.1) == uuids_on(sender, old(mapping)@, packet@, destination),
{
    match packet.form {
        PacketForm::Decoded(Packet::PlayEntities { packet_id, entities, uuids }) => {
            let rewritten = match sender {
                PacketSender::Server(backend_id, _) => rewrite_uuids_to_proxy(mapping, backend_id, &uuids),
                PacketSender::Proxy(_) => rewrite_uuids_to_server(mapping, &uuids),
            };
            match rewritten {
                Some(done) => (
                    LazyDeserializedPacket {
                        form: PacketForm::Decoded(Packet::PlayEntities { packet_id, entities, uuids: done }),
                    },
                    destination,
                ),
                None => (
                    LazyDeserializedPacket {
                        form: PacketForm::Decoded(Packet::PlayEntities { packet_id, entities, uuids }),
                    },
                    PacketDestination::Nowhere,
                ),
            }
        },
        other => (LazyDeserializedPacket { form: other }, destination),
    }
}

/// A tag list whose names all resolve is never refused a numbering.
proof fn lemma_known_names_number(list: Seq<TagView>, dictionary: Map<i32, Seq<char>>, err: SplinterError)
    requires
        all_names_known(list, dictionary),
    ensures
        !is_wire_of(Err(err), list, dictionary),
{
    if is_wire_of(Err(err), list, dictionary) {
        let (t, e) = choose|t: int, e: int|
            is_first_unknown_name(list, dictionary, t, e) && (err matches SplinterError::UnknownName(name)
                && name@ == list[t].1[e]);
        assert(names_known(list[t].1, dictionary));
        assert(has_right(dictionary, list[t].1[e]));
    }
}

/// A wire list that is refused has an id that the dictionary lacks.
proof fn lemma_unknown_id_refuses(wire: Seq<WireTagView>, dictionary: Map<i32, Seq<char>>, err: SplinterError)
    requires
        is_tag_list_of(Err(err), wire, dictionary),
    ensures
        !all_ids_known(wire, dictionary),
{
    let (t, e) = choose|t: int, e: int|
        is_first_unknown_id(wire, dictionary, t, e) && err == SplinterError::UnknownId(wire[t].1[e]);
    if all_ids_known(wire, dictionary) {
        assert(ids_known(wire[t].1, dictionary));
        assert(dictionary.dom().contains(wire[t].1[e]));
    }
}

/// Wire lists that make tags have no id that a dictionary lacks, and the
/// tags they make can be numbered again.
proof fn lemma_tags_made(wire: WireTagsView, dictionaries: &Dictionaries, tags: Tags)
    requires
        is_tags_of(Ok(tags), wire, dictionaries),
    ensures
        wire_known(wire, dictionary_maps(dictionaries)),
        tags@ == named_tags(wire, dictionary_maps(dictionaries)),
        forall|err: SplinterError| !is_wire_of_tags(Err(err), tags@, dictionaries),
{
    assert forall|err: SplinterError| !is_wire_of_tags(Err(err), tags@, dictionaries) by {
        lemma_known_names_number(tags@.blocks, dictionaries.blocks@, err);
        lemma_known_names_number(tags@.items, dictionaries.items@, err);
        lemma_known_names_number(tags@.fluids, dictionaries.fluids@, err);
        lemma_known_names_number(tags@.entities, dictionaries.entities@, err);
    }
}

/// Wire lists that are refused have an id that a dictionary lacks.
proof fn lemma_tags_refused(wire: WireTagsView, dictionaries: &Dictionaries, err: SplinterError)
    requires
        is_tags_of(Err(err), wire, dictionaries),
    ensures
        !wire_known(wire, dictionary_maps(dictionaries)),
{
    if is_tag_list_of(Err(err), wire.block_tags, dictionaries.blocks@) {
        lemma_unknown_id_refuses(wire.block_tags, dictionaries.blocks@, err);
    } else if is_tag_list_of(Err(err), wire.item_tags, dictionaries.items@) {
        lemma_unknown_id_refuses(wire.item_tags, dictionaries.items@, err);
    } else if is_tag_list_of(Err(err), wire.fluid_tags, dictionaries.fluids@) {
        lemma_unknown_id_refuses(wire.fluid_tags, dictionaries.fluids@, err);
    } else {
        lemma_unknown_id_refuses(wire.entity_tags, dictionaries.entities@, err);
    }
}

/// Runs the tags pass on a packet.
pub fn apply_tags(
    kept: &mut Option<Tags>,
    dictionaries: &Dictionaries,
    sender: PacketSender,
    packet: LazyDeserializedPacket,
    destination: PacketDestination,
) -> (out: (LazyDeserializedPacket, PacketDestination))
    requires
        dictionaries.wf(),
        *old(kept) matches Some(tags) ==> tags.wf(),
    ensures
        *final(kept) matches Some(tags) ==> tags.wf(),
        (kept_tags(*final(kept)), out.0@, out.1) == tags_on(
            dictionary_maps(dictionaries),
            sender,
            kept_tags(*old(kept)),
            packet@,
            destination,
        ),
{
    match sender {
        PacketSender::Proxy(_) => (packet, destination),
        PacketSender::Server(_, _) => match packet.form {
            PacketForm::Decoded(Packet::PlayTags { tags: wire }) => {
                match tags_from_wire(&wire, dictionaries) {
                    Ok(tags) => {
                        proof {
                            lemma_tags_made(wire@, dictionaries, tags);
                        }
                        match tags_to_wire(&tags, dictionaries) {
                            Ok(numbered) => {
                                *kept = Some(tags);
                                (
                                    LazyDeserializedPacket {
                                        form: PacketForm::Decoded(Packet::PlayTags { tags: numbered }),
                                    },
                                    destination,
                                )
                            },
                            Err(e) => {
                                proof {
                                    assert(is_wire_of_tags(Err(e), tags@, dictionaries));
                                    assert(false);
                                }
                                (
                                    LazyDeserializedPacket {
                                        form: PacketForm::Decoded(Packet::PlayTags { tags: wire }),
                                    },
                                    PacketDestination::Nowhere,
                                )
                            },
                        }
                    },
                    Err(e) => {
                        proof {
                            lemma_tags_refused(wire@, dictionaries, e);
                        }
                        (
                            LazyDeserializedPacket { form: PacketForm::Decoded(Packet::PlayTags { tags: wire }) },
                            PacketDestination::Nowhere,
                        )
                    },
                }
            },
            other => (LazyDeserializedPacket { form: other }, destination),
        },
    }
}

/// Runs the zoning pass on a packet.
pub fn apply_zoning(
    proxy: &mut SplinterProxy,
    sender: PacketSender,
    packet: &LazyDeserializedPacket,
    destination: PacketDestination,
    connects: &mut Vec<(u128, u64)>,
) -> (out: PacketDestination)
    requires
        old(proxy).wf(),
    ensures
        final(proxy).wf(),
        final(proxy).same_setup(old(proxy)),
        final(proxy).alive == old(proxy).alive,
        final(proxy).player_data == old(proxy).player_data,
        (client_views(final(proxy).players@), out, final(connects)@) == zoning_on(
            old(proxy).zoner.zones@,
            old(proxy).zoner.default,
            server_ids(old(proxy).servers@),
            sender,
            client_views(old(proxy).players@),
            packet@,
            destination,
            old(connects)@,
        ),
{
    let ghost before = proxy.players@;
    proof {
        assert(view_uuids(client_views(before)) =~= client_uuids(before));
    }
    let uuid = match sender {
        PacketSender::Server(_, _) => {
            return destination;
        },
        PacketSender::Proxy(uuid) => uuid,
    };
    let (x, y, z) = match packet.packet() {
        Some(Packet::PlayPosition { x, y, z }) => (*x, *y, *z),
        _ => {
            return destination;
        },
    };
    let i = match proxy.client_index(uuid) {
        Some(i) => i,
        None => {
            return destination;
        },
    };
    let target = proxy.zoner.zone_of(x, z);
    let registered = match target {
        Ok(t) => proxy.has_server(t),
        Err(_) => false,
    };
    proof {
        lemma_distinct_remove(client_uuids(before), i as int);
        assert(client_uuids(before.remove(i as int)) =~= client_uuids(before).remove(i as int));
    }
    let mut client = proxy.players.remove(i);
    client.position = Position { x, y, z };
    let mut out = destination;
    match target {
        Ok(t) => {
            if t != client.active_server_id && registered && matches!(destination, PacketDestination::Server(_)) {
                let opened = client.switch_server(t);
                out = PacketDestination::Server(t);
                if opened {
                    connects.push((uuid, t));
                }
            }
        },
        Err(_) => {},
    }
    proxy.players.insert(i, client);
    proof {
        let after = proxy.players@;
        assert(after =~= before.update(i as int, client));
        assert(client_uuids(after) =~= client_uuids(before));
        assert(client_views(after) =~= client_views(before).update(i as int, client@));
        assert forall|j: int| 0 <= j < after.len() implies (#[trigger] after[j]).wf() by {
            if j != i {
                assert(after[j] == before[j]);
            }
        }
    }
    out
}

/// Runs the keep-alive pass on a packet.
pub fn apply_keep_alive(proxy: &mut SplinterProxy, sender: PacketSender, packet: &LazyDeserializedPacket)
    requires
        old(proxy).wf(),
    ensures
        final(proxy).wf(),
        final(proxy).same_setup(old(proxy)),
        final(proxy).alive == old(proxy).alive,
        final(proxy).player_data == old(proxy).player_data,
        client_views(final(proxy).players@) == keep_alive_on(
            sender,
            client_views(old(proxy).players@),
            packet@,
        ),
{
    let ghost before = proxy.players@;
    proof {
        assert(view_uuids(client_views(before)) =~= client_uuids(before));
    }
    let id = match packet.packet() {
        Some(Packet::PlayKeepAlive { id }) => *id,
        _ => {
            return ;
        },
    };
    let i = match proxy.client_index(sender.client_uuid()) {
        Some(i) => i,
        None => {
            return ;
        },
    };
    proof {
        lemma_distinct_remove(client_uuids(before), i as int);
        assert(client_uuids(before.remove(i as int)) =~= client_uuids(before).remove(i as int));
    }
    let mut client = proxy.players.remove(i);
    match sender {
        PacketSender::Server(_, _) => {
            client.keep_alive_sent(id);
        },
        PacketSender::Proxy(_) => {
            client.keep_alive_received(id);
        },
    }
    proxy.players.insert(i, client);
    proof {
        let after = proxy.players@;
        assert(after =~= before.update(i as int, client));
        assert(client_uuids(after) =~= client_uuids(before));
        assert(client_views(after) =~= client_views(before).update(i as int, client@));
        assert forall|j: int| 0 <= j < after.len() implies (#[trigger] after[j]).wf() by {
            if j != i {
                assert(after[j] == before[j]);
            }
        }
    }
}

impl RelayPass {
    /// Runs the pass on a packet: it may rewrite the packet, change its
    /// destination, and change the proxy's tables, tags and clients.
    /// `connects` takes the connections that the caller is asked to open.
    pub fn apply(
        &self,
        proxy: &mut SplinterProxy,
        dictionaries: &Dictionaries,
        sender: PacketSender,
        packet: LazyDeserializedPacket,
        destination: PacketDestination,
        connects: &mut Vec<(u128, u64)>,
    ) -> (out: (LazyDeserializedPacket, PacketDestination))
        requires
            old(proxy).wf(),
            dictionaries.wf(),
        ensures
            final(proxy).wf(),
            final(proxy).alive == old(proxy).alive,
            final(proxy).config == old(proxy).config,
            final(proxy).servers == old(proxy).servers,
            final(proxy).zoner == old(proxy).zoner,
            final(proxy).player_data == old(proxy).player_data,
            relay_view(final(proxy), out.0@, out.1, final(connects)@) == pass_effect(
                *self,
                relay_env(old(proxy), dictionaries),
                sender,
                relay_view(old(proxy), packet@, destination, old(connects)@),
            ),
    {
        match self {
            RelayPass::EntityIds => apply_entity_ids(&mut proxy.mapping, sender, packet, destination),
            RelayPass::Uuids => apply_uuids(&mut proxy.mapping, sender, packet, destination),
            RelayPass::Tags => apply_tags(&mut proxy.tags, dictionaries, sender, packet, destination),
            RelayPass::KeepAlive => {
                apply_keep_alive(proxy, sender, &packet);
                (packet, destination)
            },
            RelayPass::Zoning => {
                let out = apply_zoning(proxy, sender, &packet, destination, connects);
                (packet, out)
            },
        }
    }
}

} // verus!
