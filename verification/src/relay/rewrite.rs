//! Rewriting the identifiers of a packet: from a backend's numbering to the
//! proxy's, and back.

use vstd::prelude::*;
use crate::bijection::has_pair;
use crate::error::SplinterError;
use crate::mapping::{
    lemma_after_eid_valid, lemma_after_uuid_valid, lemma_proxy_eid_is, lemma_proxy_uuid_is,
    MappingView, SplinterMapping,
};
use crate::packet::EntityRef;

verus! {

/// The entity ids of a packet from a backend, turned into proxy-side ids in
/// order: each id is mapped, and allocated if the backend's entity is new.
/// The result is the table after that, with the rewritten ids, or with
/// `None` if an id was needed and none was left.
pub open spec fn eids_to_proxy(mapping: MappingView, backend_id: u64, entities: Seq<EntityRef>) -> (
    MappingView,
    Option<Seq<EntityRef>>,
)
    decreases entities.len(),
{
    if entities.len() == 0 {
        (mapping, Some(Seq::empty()))
    } else {
        let (before, front) = eids_to_proxy(mapping, backend_id, entities.drop_last());
        let last = entities.last();
        match front {
            None => (before, None),
            Some(done) => match before.eid_server_to_proxy(backend_id, last.id) {
                Ok(k) => (
                    before.after_eid(backend_id, last.id, last.entity_type),
                    Some(done.push(EntityRef { id: k, entity_type: last.entity_type })),
                ),
                Err(_) => (before, None),
            },
        }
    }
}

/// The entity ids of a packet from the client, turned into the ids of the
/// backends that the entities belong to, or `None` if one of them stands
/// for no entity.
pub open spec fn eids_to_server(mapping: MappingView, entities: Seq<EntityRef>) -> Option<Seq<EntityRef>> {
    if forall|i: int| 0 <= i < entities.len() ==> mapping.eids.dom().contains((#[trigger] entities[i]).id) {
        Some(
            Seq::new(
                entities.len(),
                |i: int|
                    EntityRef { id: mapping.eids[entities[i].id].1, entity_type: entities[i].entity_type },
            ),
        )
    } else {
        None
    }
}

/// The UUIDs of a packet from a backend, turned into proxy-side UUIDs in
/// order, like the entity ids.
pub open spec fn uuids_to_proxy(mapping: MappingView, backend_id: u64, uuids: Seq<u128>) -> (
    MappingView,
    Option<Seq<u128>>,
)
    decreases uuids.len(),
{
    if uuids.len() == 0 {
        (mapping, Some(Seq::empty()))
    } else {
        let (before, front) = uuids_to_proxy(mapping, backend_id, uuids.drop_last());
        match front {
            None => (before, None),
            Some(done) => match before.uuid_server_to_proxy(backend_id, uuids.last()) {
                Ok(k) => (before.after_uuid(backend_id, uuids.last()), Some(done.push(k))),
                Err(_) => (before, None),
            },
        }
    }
}

/// The UUIDs of a packet from the client, turned into the UUIDs of the
/// backends, or `None` if one of them stands for none.
pub open spec fn uuids_to_server(mapping: MappingView, uuids: Seq<u128>) -> Option<Seq<u128>> {
    if forall|i: int| 0 <= i < uuids.len() ==> mapping.uuids.dom().contains(#[trigger] uuids[i]) {
        Some(Seq::new(uuids.len(), |i: int| mapping.uuids[uuids[i]].1))
    } else {
        None
    }
}

/// Rewriting entity ids keeps the table valid and drops nothing from it.
pub proof fn lemma_eids_to_proxy_valid(mapping: MappingView, backend_id: u64, entities: Seq<EntityRef>)
    requires
        mapping.valid(),
    ensures
        eids_to_proxy(mapping, backend_id, entities).0.valid(),
        mapping.extended_by(eids_to_proxy(mapping, backend_id, entities).0),
        eids_to_proxy(mapping, backend_id, entities).1 matches Some(done) ==> done.len() == entities.len(),
    decreases entities.len(),
{
    if entities.len() > 0 {
        lemma_eids_to_proxy_valid(mapping, backend_id, entities.drop_last());
        let before = eids_to_proxy(mapping, backend_id, entities.drop_last()).0;
        lemma_after_eid_valid(before, backend_id, entities.last().id, entities.last().entity_type);
    }
}

/// Rewriting UUIDs keeps the table valid and drops nothing from it.
pub proof fn lemma_uuids_to_proxy_valid(mapping: MappingView, backend_id: u64, uuids: Seq<u128>)
    requires
        mapping.valid(),
    ensures
        uuids_to_proxy(mapping, backend_id, uuids).0.valid(),
        mapping.extended_by(uuids_to_proxy(mapping, backend_id, uuids).0),
        uuids_to_proxy(mapping, backend_id, uuids).1 matches Some(done) ==> done.len() == uuids.len(),
    decreases uuids.len(),
{
    if uuids.len() > 0 {
        lemma_uuids_to_proxy_valid(mapping, backend_id, uuids.drop_last());
        let before = uuids_to_proxy(mapping, backend_id, uuids.drop_last()).0;
        lemma_after_uuid_valid(before, backend_id, uuids.last());
    }
}

/// Once an id could not be allocated, the rest of the ids changes nothing.
proof fn lemma_eids_to_proxy_stops(mapping: MappingView, backend_id: u64, entities: Seq<EntityRef>, n: int)
    requires
        0 <= n <= entities.len(),
        eids_to_proxy(mapping, backend_id, entities.take(n)).1 is None,
    ensures
        eids_to_proxy(mapping, backend_id, entities) == eids_to_proxy(mapping, backend_id, entities.take(n)),
    decreases entities.len() - n,
{
    if n < entities.len() {
        let longer = entities.take(n + 1);
        assert(longer.drop_last() =~= entities.take(n));
        lemma_eids_to_proxy_stops(mapping, backend_id, entities, n + 1);
    } else {
        assert(entities.take(n) =~= entities);
    }
}

/// Once a UUID could not be allocated, the rest of the UUIDs changes nothing.
proof fn lemma_uuids_to_proxy_stops(mapping: MappingView, backend_id: u64, uuids: Seq<u128>, n: int)
    requires
        0 <= n <= uuids.len(),
        uuids_to_proxy(mapping, backend_id, uuids.take(n)).1 is None,
    ensures
        uuids_to_proxy(mapping, backend_id, uuids) == uuids_to_proxy(mapping, backend_id, uuids.take(n)),
    decreases uuids.len() - n,
{
    if n < uuids.len() {
        let longer = uuids.take(n + 1);
        assert(longer.drop_last() =~= uuids.take(n));
        lemma_uuids_to_proxy_stops(mapping, backend_id, uuids, n + 1);
    } else {
        assert(uuids.take(n) =~= uuids);
    }
}

/// Turns the entity ids of a packet from a backend into proxy-side ids.
pub fn rewrite_eids_to_proxy(mapping: &mut SplinterMapping, backend_id: u64, entities: &Vec<EntityRef>) -> (res:
    Option<Vec<EntityRef>>)
    requires
        old(mapping).wf(),
    ensures
        final(mapping).wf(),
        final(mapping)@ == eids_to_proxy(old(mapping)@, backend_id, entities@).0,
        match res {
            Some(done) => eids_to_proxy(old(mapping)@, backend_id, entities@).1 == Some(done@),
            None => eids_to_proxy(old(mapping)@, backend_id, entities@).1 is None,
        },
{
    let ghost start = mapping@;
    let mut done: Vec<EntityRef> = Vec::new();
    let mut i: usize = 0;
    assert(entities@.take(0) =~= Seq::empty());
    while i < entities.len()
        invariant
            i <= entities.len(),
            mapping.wf(),
            start == old(mapping)@,
            eids_to_proxy(start, backend_id, entities@.take(i as int)) == (mapping@, Some(done@)),
        decreases entities.len() - i,
    {
        let entity = entities[i];
        proof {
            let next = entities@.take(i + 1);
            assert(next.drop_last() =~= entities@.take(i as int));
            assert(next.last() == entity);
        }
        match mapping.map_eid_server_to_proxy(backend_id, entity.id, entity.entity_type) {
            Ok(k) => {
                done.push(EntityRef { id: k, entity_type: entity.entity_type });
            },
            Err(_) => {
                proof {
                    lemma_eids_to_proxy_stops(start, backend_id, entities@, i + 1);
                }
                return None;
            },
        }
        i = i + 1;
    }
    assert(entities@.take(entities.len() as int) =~= entities@);
    Some(done)
}

/// Turns the entity ids of a packet from the client into backend-side ids.
pub fn rewrite_eids_to_server(mapping: &SplinterMapping, entities: &Vec<EntityRef>) -> (res: Option<
    Vec<EntityRef>,
>)
    ensures
        match res {
            Some(done) => eids_to_server(mapping@, entities@) == Some(done@),
            None => eids_to_server(mapping@, entities@) is None,
        },
{
    let mut done: Vec<EntityRef> = Vec::new();
    let mut i: usize = 0;
    while i < entities.len()
        invariant
            i <= entities.len(),
            done@.len() == i,
            forall|j: int| 0 <= j < i ==> mapping@.eids.dom().contains((#[trigger] entities@[j]).id),
            forall|j: int|
                0 <= j < i ==> #[trigger] done@[j] == (EntityRef {
                    id: mapping@.eids[entities@[j].id].1,
                    entity_type: entities@[j].entity_type,
                }),
        decreases entities.len() - i,
    {
        let entity = entities[i];
        match mapping.map_eid_proxy_to_server(entity.id) {
            Ok(pair) => {
                done.push(EntityRef { id: pair.1, entity_type: entity.entity_type });
            },
            Err(_) => {
                assert(!mapping@.eids.dom().contains(entities@[i as int].id));
                return None;
            },
        }
        i = i + 1;
    }
    assert(eids_to_server(mapping@, entities@)->0 =~= done@);
    Some(done)
}

/// Turns the UUIDs of a packet from a backend into proxy-side UUIDs.
pub fn rewrite_uuids_to_proxy(mapping: &mut SplinterMapping, backend_id: u64, uuids: &Vec<u128>) -> (res:
    Option<Vec<u128>>)
    requires
        old(mapping).wf(),
    ensures
        final(mapping).wf(),
        final(mapping)@ == uuids_to_proxy(old(mapping)@, backend_id, uuids@).0,
        match res {
            Some(done) => uuids_to_proxy(old(mapping)@, backend_id, uuids@).1 == Some(done@),
            None => uuids_to_proxy(old(mapping)@, backend_id, uuids@).1 is None,
        },
{
    let ghost start = mapping@;
    let mut done: Vec<u128> = Vec::new();
    let mut i: usize = 0;
    assert(uuids@.take(0) =~= Seq::empty());
    while i < uuids.len()
        invariant
            i <= uuids.len(),
            mapping.wf(),
            start == old(mapping)@,
            uuids_to_proxy(start, backend_id, uuids@.take(i as int)) == (mapping@, Some(done@)),
        decreases uuids.len() - i,
    {
        let uuid = uuids[i];
        proof {
            let next = uuids@.take(i + 1);
            assert(next.drop_last() =~= uuids@.take(i as int));
            assert(next.last() == uuid);
        }
        match mapping.map_uuid_server_to_proxy(backend_id, uuid) {
            Ok(k) => {
                done.push(k);
            },
            Err(_) => {
                proof {
                    lemma_uuids_to_proxy_stops(start, backend_id, uuids@, i + 1);
                }
                return None;
            },
        }
        i = i + 1;
    }
    assert(uuids@.take(uuids.len() as int) =~= uuids@);
    Some(done)
}

/// Turns the UUIDs of a packet from the client into backend-side UUIDs.
pub fn rewrite_uuids_to_server(mapping: &SplinterMapping, uuids: &Vec<u128>) -> (res: Option<Vec<u128>>)
    ensures
        match res {
            Some(done) => uuids_to_server(mapping@, uuids@) == Some(done@),
            None => uuids_to_server(mapping@, uuids@) is None,
        },
{
    let mut done: Vec<u128> = Vec::new();
    let mut i: usize = 0;
    while i < uuids.len()
        invariant
            i <= uuids.len(),
            done@.len() == i,
            forall|j: int| 0 <= j < i ==> mapping@.uuids.dom().contains(#[trigger] uuids@[j]),
            forall|j: int| 0 <= j < i ==> #[trigger] done@[j] == mapping@.uuids[uuids@[j]].1,
        decreases uuids.len() - i,
    {
        match mapping.map_uuid_proxy_to_server(uuids[i]) {
            Ok(pair) => {
                done.push(pair.1);
            },
            Err(_) => {
                assert(!mapping@.uuids.dom().contains(uuids@[i as int]));
                return None;
            },
        }
        i = i + 1;
    }
    assert(uuids_to_server(mapping@, uuids@)->0 =~= done@);
    Some(done)
}

/// The entity ids of a list with the entity types of another list of the
/// same length.
pub open spec fn with_types_of(ids: Seq<EntityRef>, types: Seq<EntityRef>) -> Seq<EntityRef> {
    Seq::new(ids.len(), |i: int| EntityRef { id: ids[i].id, entity_type: types[i].entity_type })
}

/// Whether two lists name the same entities, whatever types they give.
pub open spec fn same_ids(a: Seq<EntityRef>, b: Seq<EntityRef>) -> bool {
    a.len() == b.len() && forall|i: int| 0 <= i < a.len() ==> (#[trigger] a[i]).id == b[i].id
}

/// What rewriting the entity ids of a backend's packet leaves behind: each
/// id of the packet is paired in the table with the proxy-side id it became,
/// a type is on record for it, and the rewritten packet names as many
/// entities, of the same types.
pub proof fn lemma_eids_to_proxy_pairs(mapping: MappingView, backend_id: u64, entities: Seq<EntityRef>)
    requires
        mapping.valid(),
    ensures
        eids_to_proxy(mapping, backend_id, entities).0.valid(),
        mapping.extended_by(eids_to_proxy(mapping, backend_id, entities).0),
        eids_to_proxy(mapping, backend_id, entities).1 matches Some(done) ==> {
            &&& done.len() == entities.len()
            &&& forall|i: int|
                0 <= i < done.len() ==> has_pair(
                    eids_to_proxy(mapping, backend_id, entities).0.eids,
                    (#[trigger] done[i]).id,
                    (backend_id, entities[i].id),
                ) && done[i].entity_type == entities[i].entity_type
        },
    decreases entities.len(),
{
    if entities.len() > 0 {
        let front = entities.drop_last();
        let last = entities.last();
        lemma_eids_to_proxy_pairs(mapping, backend_id, front);
        let (before, first) = eids_to_proxy(mapping, backend_id, front);
        lemma_after_eid_valid(before, backend_id, last.id, last.entity_type);
        let (after, out) = eids_to_proxy(mapping, backend_id, entities);
        if let Some(done) = out {
            let part = first->0;
            let k = before.eid_server_to_proxy(backend_id, last.id)->Ok_0;
            assert(has_pair(after.eids, k, (backend_id, last.id))) by {
                if before.proxy_eid(backend_id, last.id) is Some {
                    assert(has_pair(before.eids, k, (backend_id, last.id)));
                }
            }
            assert forall|i: int| 0 <= i < done.len() implies has_pair(
                after.eids,
                (#[trigger] done[i]).id,
                (backend_id, entities[i].id),
            ) && done[i].entity_type == entities[i].entity_type by {
                if i < part.len() {
                    assert(done[i] == part[i]);
                    assert(front[i] == entities[i]);
                    assert(has_pair(before.eids, part[i].id, (backend_id, front[i].id)));
                }
            }
        }
    }
}

/// Mapping round-trip for packets: the entity ids that a backend's packet
/// was given lead back, in the table as it is then and as it is at any later
/// time, to the ids that the backend sent. So a packet of the client that
/// names those entities reaches the backend with the backend's own ids.
pub proof fn lemma_eid_rewrite_round_trip(
    mapping: MappingView,
    backend_id: u64,
    entities: Seq<EntityRef>,
    later: MappingView,
)
    requires
        mapping.valid(),
        eids_to_proxy(mapping, backend_id, entities).1 is Some,
        eids_to_proxy(mapping, backend_id, entities).0.extended_by(later),
    ensures
        eids_to_server(later, eids_to_proxy(mapping, backend_id, entities).1->0) == Some(entities),
        forall|i: int|
            0 <= i < entities.len() ==> later.eid_proxy_to_server(
                (#[trigger] eids_to_proxy(mapping, backend_id, entities).1->0[i]).id,
            ) == Ok::<(u64, i32), SplinterError>((backend_id, entities[i].id)),
{
    lemma_eids_to_proxy_pairs(mapping, backend_id, entities);
    let (after, out) = eids_to_proxy(mapping, backend_id, entities);
    let done = out->0;
    assert forall|i: int| 0 <= i < done.len() implies later.eids.dom().contains((#[trigger] done[i]).id)
        && later.eids[done[i].id] == (backend_id, entities[i].id) by {
        assert(has_pair(after.eids, done[i].id, (backend_id, entities[i].id)));
    }
    assert(eids_to_server(later, done)->0 =~= entities);
}

/// The entities of a list under the ids of another list of the same length.
pub open spec fn under_ids(ids: Seq<i32>, entities: Seq<EntityRef>) -> Seq<EntityRef> {
    Seq::new(entities.len(), |i: int| EntityRef { id: ids[i], entity_type: entities[i].entity_type })
}

/// A backend's packet whose entities the table knows gets the ids that the
/// table holds for them, and changes nothing in the table: nothing is
/// allocated for it, whatever types it gives.
pub proof fn lemma_eids_to_proxy_known(
    mapping: MappingView,
    backend_id: u64,
    entities: Seq<EntityRef>,
    known: Seq<i32>,
)
    requires
        mapping.valid(),
        known.len() == entities.len(),
        forall|i: int|
            0 <= i < entities.len() ==> has_pair(mapping.eids, #[trigger] known[i], (backend_id, entities[i].id)),
    ensures
        eids_to_proxy(mapping, backend_id, entities) == (mapping, Some(under_ids(known, entities))),
    decreases entities.len(),
{
    if entities.len() == 0 {
        assert(under_ids(known, entities) =~= Seq::empty());
    } else {
        let n = entities.len() - 1;
        let front = entities.drop_last();
        assert forall|i: int| 0 <= i < front.len() implies has_pair(
            mapping.eids,
            #[trigger] known.drop_last()[i],
            (backend_id, front[i].id),
        ) by {
            assert(has_pair(mapping.eids, known[i], (backend_id, entities[i].id)));
        }
        lemma_eids_to_proxy_known(mapping, backend_id, front, known.drop_last());
        assert(has_pair(mapping.eids, known[n], (backend_id, entities[n].id)));
        lemma_proxy_eid_is(mapping, known[n], backend_id, entities.last().id);
        assert(under_ids(known.drop_last(), front).push(
            EntityRef { id: known[n], entity_type: entities.last().entity_type },
        ) =~= under_ids(known, entities));
    }
}

/// A backend's packet whose UUIDs the table knows gets the UUIDs that the
/// table holds for them, and changes nothing in the table.
pub proof fn lemma_uuids_to_proxy_known(mapping: MappingView, backend_id: u64, uuids: Seq<u128>, known: Seq<u128>)
    requires
        mapping.valid(),
        known.len() == uuids.len(),
        forall|i: int|
            0 <= i < uuids.len() ==> has_pair(mapping.uuids, #[trigger] known[i], (backend_id, uuids[i])),
    ensures
        uuids_to_proxy(mapping, backend_id, uuids) == (mapping, Some(known)),
    decreases uuids.len(),
{
    if uuids.len() == 0 {
        assert(known =~= Seq::empty());
    } else {
        let n = uuids.len() - 1;
        let front = uuids.drop_last();
        assert forall|i: int| 0 <= i < front.len() implies has_pair(
            mapping.uuids,
            #[trigger] known.drop_last()[i],
            (backend_id, front[i]),
        ) by {
            assert(has_pair(mapping.uuids, known[i], (backend_id, uuids[i])));
        }
        lemma_uuids_to_proxy_known(mapping, backend_id, front, known.drop_last());
        assert(has_pair(mapping.uuids, known[n], (backend_id, uuids[n])));
        lemma_proxy_uuid_is(mapping, known[n], backend_id, uuids.last());
        assert(known.drop_last().push(known[n]) =~= known);
    }
}

/// A packet of the client whose identifiers the table holds gets, for each,
/// the backend-side identifier that it stands for.
pub proof fn lemma_identifiers_to_server(mapping: MappingView, entities: Seq<EntityRef>, uuids: Seq<u128>)
    requires
        forall|i: int| 0 <= i < entities.len() ==> mapping.eids.dom().contains((#[trigger] entities[i]).id),
        forall|i: int| 0 <= i < uuids.len() ==> mapping.uuids.dom().contains(#[trigger] uuids[i]),
    ensures
        eids_to_server(mapping, entities) matches Some(done) && done.len() == entities.len() && forall|i: int|
            0 <= i < done.len() ==> (#[trigger] done[i]).id == mapping.eids[entities[i].id].1 && done[i].entity_type
                == entities[i].entity_type,
        uuids_to_server(mapping, uuids) matches Some(done) && done.len() == uuids.len() && forall|i: int|
            0 <= i < done.len() ==> #[trigger] done[i] == mapping.uuids[uuids[i]].1,
{
}

/// Mapping stability for packets: a backend's packet that names entities
/// which an earlier packet of the backend named gets the same proxy-side
/// ids, at any later time and whatever types it gives, and changes nothing
/// in the table: nothing is allocated for it.
pub proof fn lemma_eid_rewrite_stable(
    mapping: MappingView,
    backend_id: u64,
    entities: Seq<EntityRef>,
    later: MappingView,
    again: Seq<EntityRef>,
)
    requires
        mapping.valid(),
        eids_to_proxy(mapping, backend_id, entities).1 is Some,
        eids_to_proxy(mapping, backend_id, entities).0.extended_by(later),
        later.valid(),
        same_ids(entities, again),
    ensures
        eids_to_proxy(later, backend_id, again) == (
            later,
            Some(with_types_of(eids_to_proxy(mapping, backend_id, entities).1->0, again)),
        ),
{
    lemma_eids_to_proxy_pairs(mapping, backend_id, entities);
    let (after, out) = eids_to_proxy(mapping, backend_id, entities);
    let done = out->0;
    let known = Seq::new(done.len(), |i: int| done[i].id);
    assert forall|i: int| 0 <= i < again.len() implies has_pair(
        later.eids,
        #[trigger] known[i],
        (backend_id, again[i].id),
    ) by {
        assert(has_pair(after.eids, done[i].id, (backend_id, entities[i].id)));
        assert(entities[i].id == again[i].id);
    }
    lemma_eids_to_proxy_known(later, backend_id, again, known);
    assert(under_ids(known, again) =~= with_types_of(done, again));
}

/// Fresh allocation for packets: an entity of a backend's packet that the
/// table did not know gets an id that is larger than every id allocated
/// before the packet, and an entity that the table knew keeps its id.
pub proof fn lemma_eid_rewrite_fresh(mapping: MappingView, backend_id: u64, entities: Seq<EntityRef>, i: int)
    requires
        mapping.valid(),
        eids_to_proxy(mapping, backend_id, entities).1 is Some,
        0 <= i < entities.len(),
    ensures
        eids_to_proxy(mapping, backend_id, entities).1->0.len() == entities.len(),
        match mapping.proxy_eid(backend_id, entities[i].id) {
            Some(k) => eids_to_proxy(mapping, backend_id, entities).1->0[i].id == k,
            None => eids_to_proxy(mapping, backend_id, entities).1->0[i].id > mapping.eids_issued
                && !mapping.eids.dom().contains(eids_to_proxy(mapping, backend_id, entities).1->0[i].id),
        },
        mapping.eids_issued == 0 ==> eids_to_proxy(mapping, backend_id, entities).1->0[0].id == 1,
{
    lemma_eids_to_proxy_pairs(mapping, backend_id, entities);
    let (after, out) = eids_to_proxy(mapping, backend_id, entities);
    let done = out->0;
    let k = done[i].id;
    assert(has_pair(after.eids, k, (backend_id, entities[i].id)));
    match mapping.proxy_eid(backend_id, entities[i].id) {
        Some(known) => {
            assert(has_pair(mapping.eids, known, (backend_id, entities[i].id)));
            assert(after.eids.dom().contains(known) && after.eids[known] == after.eids[k]);
        },
        None => {
            if mapping.eids.dom().contains(k) {
                assert(has_pair(mapping.eids, k, (backend_id, entities[i].id)));
            }
        },
    }
    if mapping.eids_issued == 0 {
        lemma_eids_to_proxy_first(mapping, backend_id, entities);
    }
}

/// The first entity of a backend's packet is given its id before the others.
proof fn lemma_eids_to_proxy_first(mapping: MappingView, backend_id: u64, entities: Seq<EntityRef>)
    requires
        eids_to_proxy(mapping, backend_id, entities).1 is Some,
        entities.len() > 0,
    ensures
        mapping.eid_server_to_proxy(backend_id, entities[0].id) is Ok,
        eids_to_proxy(mapping, backend_id, entities).1->0[0].id == mapping.eid_server_to_proxy(
            backend_id,
            entities[0].id,
        )->Ok_0,
    decreases entities.len(),
{
    let front = entities.drop_last();
    if front.len() == 0 {
        assert(eids_to_proxy(mapping, backend_id, front) == (mapping, Some(Seq::<EntityRef>::empty())));
    } else {
        lemma_eids_to_proxy_first(mapping, backend_id, front);
        assert(front[0] == entities[0]);
    }
}

/// What rewriting the UUIDs of a backend's packet leaves behind: each UUID
/// of the packet is paired in the table with the proxy-side UUID it became.
pub proof fn lemma_uuids_to_proxy_pairs(mapping: MappingView, backend_id: u64, uuids: Seq<u128>)
    requires
        mapping.valid(),
    ensures
        uuids_to_proxy(mapping, backend_id, uuids).0.valid(),
        mapping.extended_by(uuids_to_proxy(mapping, backend_id, uuids).0),
        uuids_to_proxy(mapping, backend_id, uuids).1 matches Some(done) ==> {
            &&& done.len() == uuids.len()
            &&& forall|i: int|
                0 <= i < done.len() ==> has_pair(
                    uuids_to_proxy(mapping, backend_id, uuids).0.uuids,
                    #[trigger] done[i],
                    (backend_id, uuids[i]),
                )
        },
    decreases uuids.len(),
{
    if uuids.len() > 0 {
        let front = uuids.drop_last();
        let last = uuids.last();
        lemma_uuids_to_proxy_pairs(mapping, backend_id, front);
        let (before, first) = uuids_to_proxy(mapping, backend_id, front);
        lemma_after_uuid_valid(before, backend_id, last);
        let (after, out) = uuids_to_proxy(mapping, backend_id, uuids);
        if let Some(done) = out {
            let part = first->0;
            let k = before.uuid_server_to_proxy(backend_id, last)->Ok_0;
            assert(has_pair(after.uuids, k, (backend_id, last))) by {
                if before.proxy_uuid(backend_id, last) is Some {
                    assert(has_pair(before.uuids, k, (backend_id, last)));
                }
            }
            assert forall|i: int| 0 <= i < done.len() implies has_pair(
                after.uuids,
                #[trigger] done[i],
                (backend_id, uuids[i]),
            ) by {
                if i < part.len() {
                    assert(done[i] == part[i]);
                    assert(front[i] == uuids[i]);
                    assert(has_pair(before.uuids, part[i], (backend_id, front[i])));
                }
            }
        }
    }
}

/// Mapping round-trip for the UUIDs of packets: the UUIDs that a backend's
/// packet was given lead back, then and at any later time, to the UUIDs
/// that the backend sent.
pub proof fn lemma_uuid_rewrite_round_trip(
    mapping: MappingView,
    backend_id: u64,
    uuids: Seq<u128>,
    later: MappingView,
)
    requires
        mapping.valid(),
        uuids_to_proxy(mapping, backend_id, uuids).1 is Some,
        uuids_to_proxy(mapping, backend_id, uuids).0.extended_by(later),
    ensures
        uuids_to_server(later, uuids_to_proxy(mapping, backend_id, uuids).1->0) == Some(uuids),
        forall|i: int|
            0 <= i < uuids.len() ==> later.uuid_proxy_to_server(
                #[trigger] uuids_to_proxy(mapping, backend_id, uuids).1->0[i],
            ) == Ok::<(u64, u128), SplinterError>((backend_id, uuids[i])),
{
    lemma_uuids_to_proxy_pairs(mapping, backend_id, uuids);
    let (after, out) = uuids_to_proxy(mapping, backend_id, uuids);
    let done = out->0;
    assert forall|i: int| 0 <= i < done.len() implies later.uuids.dom().contains(#[trigger] done[i])
        && later.uuids[done[i]] == (backend_id, uuids[i]) by {
        assert(has_pair(after.uuids, done[i], (backend_id, uuids[i])));
    }
    assert(uuids_to_server(later, done)->0 =~= uuids);
}

/// Mapping stability for the UUIDs of packets: a backend's packet with
/// UUIDs that an earlier packet of the backend had gets the same proxy-side
/// UUIDs, at any later time, and changes nothing in the table.
pub proof fn lemma_uuid_rewrite_stable(mapping: MappingView, backend_id: u64, uuids: Seq<u128>, later: MappingView)
    requires
        mapping.valid(),
        uuids_to_proxy(mapping, backend_id, uuids).1 is Some,
        uuids_to_proxy(mapping, backend_id, uuids).0.extended_by(later),
        later.valid(),
    ensures
        uuids_to_proxy(later, backend_id, uuids) == (later, uuids_to_proxy(mapping, backend_id, uuids).1),
{
    lemma_uuids_to_proxy_pairs(mapping, backend_id, uuids);
    let (after, out) = uuids_to_proxy(mapping, backend_id, uuids);
    let done = out->0;
    assert forall|i: int| 0 <= i < uuids.len() implies has_pair(
        later.uuids,
        #[trigger] done[i],
        (backend_id, uuids[i]),
    ) by {
        assert(has_pair(after.uuids, done[i], (backend_id, uuids[i])));
    }
    lemma_uuids_to_proxy_known(later, backend_id, uuids, done);
}

} // verus!
