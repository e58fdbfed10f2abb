//! The identifier mapping table: entity ids and UUIDs of each backend, and
//! the proxy-side identifiers that stand for them before the client.

use vstd::prelude::*;
use std::collections::HashMap;
use crate::bijection::{
    eid_pairs, eid_table_get_by_left, eid_table_get_by_right, eid_table_insert, eid_table_new,
    has_pair, has_right, kept_in, lemma_insert_fresh_pair, lemma_insert_pair_one_to_one,
    one_to_one, uuid_pairs, uuid_table_get_by_left, uuid_table_get_by_right, uuid_table_insert,
    uuid_table_new, EidTable, UuidTable,
};
use crate::error::SplinterError;
use crate::ids::IdGenerator;

verus! {

broadcast use vstd::std_specs::hash::group_hash_axioms;

/// The largest proxy-side entity id.
pub const MAX_ENTITY_ID: u64 = 0x7fff_ffff;

/// The largest number from which a proxy-side UUID is made.
pub const MAX_UUID: u64 = 0xffff_ffff_ffff_ffff;

/// What the proxy keeps about an entity besides its identifiers.
#[derive(Copy, Clone, Debug, PartialEq, Eq)]
pub struct EntityData {
    /// The proxy-side entity id.
    pub id: i32,
    /// The entity type code that the backend gave when the entity was first seen.
    pub entity_type: i32,
}

/// What a mapping table holds.
pub struct MappingView {
    /// Proxy-side entity id to (backend id, backend-side entity id).
    pub eids: Map<i32, (u64, i32)>,
    /// Proxy-side entity id to the entity's type code.
    pub entity_types: Map<i32, i32>,
    /// Proxy-side UUID to (backend id, backend-side UUID).
    pub uuids: Map<u128, (u64, u128)>,
    /// How many entity ids have been allocated: they are `1..=eids_issued`.
    pub eids_issued: nat,
    /// How many UUIDs have been allocated: they are `1..=uuids_issued`.
    pub uuids_issued: nat,
    /// The largest entity id that may be allocated.
    pub eid_limit: nat,
    /// The largest number from which a UUID may be made.
    pub uuid_limit: nat,
}

impl MappingView {
    /// The invariant of a mapping table. Both tables are one-to-one; the mapped
    /// proxy-side identifiers are exactly those that were allocated, so none
    /// is used twice; each mapped entity has a type on record.
    pub open spec fn valid(self) -> bool {
        &&& one_to_one(self.eids)
        &&& one_to_one(self.uuids)
        &&& self.eids_issued <= self.eid_limit <= MAX_ENTITY_ID
        &&& self.uuids_issued <= self.uuid_limit <= MAX_UUID
        &&& forall|k: i32| #[trigger] self.eids.dom().contains(k) <==> 1 <= k <= self.eids_issued
        &&& forall|k: u128| #[trigger] self.uuids.dom().contains(k) <==> 1 <= k <= self.uuids_issued
        &&& self.entity_types.dom() == self.eids.dom()
    }

    /// The table before anything was mapped, with the largest limits.
    pub open spec fn empty() -> MappingView {
        MappingView::empty_within(MAX_ENTITY_ID as nat, MAX_UUID as nat)
    }

    /// The table before anything was mapped, with these limits.
    pub open spec fn empty_within(eid_limit: nat, uuid_limit: nat) -> MappingView {
        MappingView {
            eids: Map::empty(),
            entity_types: Map::empty(),
            uuids: Map::empty(),
            eids_issued: 0,
            uuids_issued: 0,
            eid_limit,
            uuid_limit,
        }
    }

    /// The proxy-side entity id mapped to a backend's entity, if there is one.
    pub open spec fn proxy_eid(self, backend_id: u64, backend_eid: i32) -> Option<i32> {
        if has_right(self.eids, (backend_id, backend_eid)) {
            Some(choose|k: i32| has_pair(self.eids, k, (backend_id, backend_eid)))
        } else {
            None
        }
    }

    /// The proxy-side UUID mapped to a backend's UUID, if there is one.
    pub open spec fn proxy_uuid(self, backend_id: u64, backend_uuid: u128) -> Option<u128> {
        if has_right(self.uuids, (backend_id, backend_uuid)) {
            Some(choose|k: u128| has_pair(self.uuids, k, (backend_id, backend_uuid)))
        } else {
            None
        }
    }

    /// What `map_eid_server_to_proxy` returns.
    pub open spec fn eid_server_to_proxy(self, backend_id: u64, backend_eid: i32) -> Result<
        i32,
        SplinterError,
    > {
        match self.proxy_eid(backend_id, backend_eid) {
            Some(k) => Ok(k),
            None => if self.eids_issued < self.eid_limit {
                Ok((self.eids_issued + 1) as i32)
            } else {
                Err(SplinterError::IdsExhausted)
            },
        }
    }

    /// The table after `map_eid_server_to_proxy`. A pair that is mapped, or
    /// that cannot be for want of identifiers, leaves the table as it is.
    pub open spec fn after_eid(self, backend_id: u64, backend_eid: i32, entity_type: i32) -> MappingView {
        if self.proxy_eid(backend_id, backend_eid) is None && self.eids_issued < self.eid_limit {
            let k = (self.eids_issued + 1) as i32;
            MappingView {
                eids: self.eids.insert(k, (backend_id, backend_eid)),
                entity_types: self.entity_types.insert(k, entity_type),
                eids_issued: self.eids_issued + 1,
                ..self
            }
        } else {
            self
        }
    }

    /// What `map_eid_proxy_to_server` returns.
    pub open spec fn eid_proxy_to_server(self, proxy_eid: i32) -> Result<(u64, i32), SplinterError> {
        if self.eids.dom().contains(proxy_eid) {
            Ok(self.eids[proxy_eid])
        } else {
            Err(SplinterError::NotMapped)
        }
    }

    /// What `map_uuid_server_to_proxy` returns.
    pub open spec fn uuid_server_to_proxy(self, backend_id: u64, backend_uuid: u128) -> Result<
        u128,
        SplinterError,
    > {
        match self.proxy_uuid(backend_id, backend_uuid) {
            Some(k) => Ok(k),
            None => if self.uuids_issued < self.uuid_limit {
                Ok((self.uuids_issued + 1) as u128)
            } else {
                Err(SplinterError::IdsExhausted)
            },
        }
    }

    /// The table after `map_uuid_server_to_proxy`.
    pub open spec fn after_uuid(self, backend_id: u64, backend_uuid: u128) -> MappingView {
        if self.proxy_uuid(backend_id, backend_uuid) is None && self.uuids_issued < self.uuid_limit {
            let k = (self.uuids_issued + 1) as u128;
            MappingView {
                uuids: self.uuids.insert(k, (backend_id, backend_uuid)),
                uuids_issued: self.uuids_issued + 1,
                ..self
            }
        } else {
            self
        }
    }

    /// What `map_uuid_proxy_to_server` returns.
    pub open spec fn uuid_proxy_to_server(self, proxy_uuid: u128) -> Result<
        (u64, u128),
        SplinterError,
    > {
        if self.uuids.dom().contains(proxy_uuid) {
            Ok(self.uuids[proxy_uuid])
        } else {
            Err(SplinterError::NotMapped)
        }
    }

    /// Every mapping of `self` is a mapping of `later`, with the same type on
    /// record, and `later` has allocated no fewer identifiers.
    pub open spec fn extended_by(self, later: MappingView) -> bool {
        &&& kept_in(self.eids, later.eids)
        &&& kept_in(self.entity_types, later.entity_types)
        &&& kept_in(self.uuids, later.uuids)
        &&& self.eids_issued <= later.eids_issued
        &&& self.uuids_issued <= later.uuids_issued
        &&& self.eid_limit == later.eid_limit
        &&& self.uuid_limit == later.uuid_limit
    }
}

/// The per-proxy identifier tables with their allocators.
pub struct SplinterMapping {
    eids: EidTable,
    eid_data: HashMap<i32, EntityData>,
    uuids: UuidTable,
    eid_gen: IdGenerator,
    uuid_gen: IdGenerator,
}

impl View for SplinterMapping {
    type V = MappingView;

    closed spec fn view(&self) -> MappingView {
        MappingView {
            eids: eid_pairs(self.eids),
            entity_types: Map::new(
                |k: i32| self.eid_data@.dom().contains(k),
                |k: i32| self.eid_data@[k].entity_type,
            ),
            uuids: uuid_pairs(self.uuids),
            eids_issued: self.eid_gen.issued(),
            uuids_issued: self.uuid_gen.issued(),
            eid_limit: self.eid_gen.limit(),
            uuid_limit: self.uuid_gen.limit(),
        }
    }
}

impl SplinterMapping {
    /// The table is valid, and its parts agree with each other.
    pub closed spec fn wf(&self) -> bool {
        &&& self@.valid()
        &&& self.eid_gen.wf()
        &&& self.uuid_gen.wf()
        &&& forall|k: i32| #[trigger] self.eid_data@.dom().contains(k) ==> self.eid_data@[k].id == k
    }

    /// A well-formed table is a valid one.
    pub proof fn lemma_wf_valid(&self)
        requires
            self.wf(),
        ensures
            self@.valid(),
    {
    }

    /// A table with no mapping, whose allocators start from 1 and go as far
    /// as the identifiers do.
    pub fn new() -> (mapping: SplinterMapping)
        ensures
            mapping.wf(),
            mapping@ == MappingView::empty(),
    {
        SplinterMapping::with_limits(MAX_ENTITY_ID, MAX_UUID)
    }

    /// A table with no mapping, whose allocators start from 1 and stop at
    /// the given limits. An entity-id limit above the largest entity id
    /// counts as the largest entity id.
    pub fn with_limits(eid_limit: u64, uuid_limit: u64) -> (mapping: SplinterMapping)
        ensures
            mapping.wf(),
            mapping@ == MappingView::empty_within(
                if eid_limit <= MAX_ENTITY_ID {
                    eid_limit as nat
                } else {
                    MAX_ENTITY_ID as nat
                },
                uuid_limit as nat,
            ),
    {
        let eid_limit = if eid_limit <= MAX_ENTITY_ID {
            eid_limit
        } else {
            MAX_ENTITY_ID
        };
        let mapping = SplinterMapping {
            eids: eid_table_new(),
            eid_data: HashMap::new(),
            uuids: uuid_table_new(),
            eid_gen: IdGenerator::new(eid_limit),
            uuid_gen: IdGenerator::new(uuid_limit),
        };
        proof {
            assert(mapping@.entity_types =~= Map::empty());
            assert(mapping@.entity_types.dom() =~= mapping@.eids.dom());
        }
        mapping
    }

    /// The proxy-side id of a backend's entity. The first call for a pair
    /// (`backend_id`, `backend_eid`) allocates the next id, records
    /// `entity_type` with it and maps the two to each other; every later call
    /// for the pair returns that id and changes nothing. Fails with
    /// `IdsExhausted`, changing nothing, when a new id is needed and none is left.
    pub fn map_eid_server_to_proxy(&mut self, backend_id: u64, backend_eid: i32, entity_type: i32) -> (res:
        Result<i32, SplinterError>)
        requires
            old(self).wf(),
        ensures
            final(self).wf(),
            res == old(self)@.eid_server_to_proxy(backend_id, backend_eid),
            final(self)@ == old(self)@.after_eid(backend_id, backend_eid, entity_type),
    {
        let ghost before = self@;
        match eid_table_get_by_right(&self.eids, (backend_id, backend_eid)) {
            Some(known) => {
                proof {
                    lemma_proxy_eid_is(before, known, backend_id, backend_eid);
                }
                Ok(known)
            },
            None => {
                match self.eid_gen.take_id() {
                    Some(id) => {
                        let proxy_eid = id as i32;
                        proof {
                            lemma_insert_fresh_pair(before.eids, proxy_eid, (backend_id, backend_eid));
                            lemma_insert_pair_one_to_one(before.eids, proxy_eid, (backend_id, backend_eid));
                        }
                        eid_table_insert(&mut self.eids, proxy_eid, (backend_id, backend_eid));
                        self.eid_data.insert(proxy_eid, EntityData { id: proxy_eid, entity_type });
                        proof {
                            let after = before.after_eid(backend_id, backend_eid, entity_type);
                            assert(self@.eids == after.eids);
                            assert(self@.entity_types =~= after.entity_types);
                            assert(self@.entity_types.dom() =~= self@.eids.dom());
                            assert(self@ == after);
                        }
                        Ok(proxy_eid)
                    },
                    None => Err(SplinterError::IdsExhausted),
                }
            },
        }
    }

    /// The backend and the backend-side id that a proxy-side entity id stands
    /// for, or `NotMapped` if it stands for none.
    pub fn map_eid_proxy_to_server(&self, proxy_eid: i32) -> (res: Result<(u64, i32), SplinterError>)
        ensures
            res == self@.eid_proxy_to_server(proxy_eid),
    {
        match eid_table_get_by_left(&self.eids, proxy_eid) {
            Some(pair) => Ok(pair),
            None => Err(SplinterError::NotMapped),
        }
    }

    /// The proxy-side UUID of a backend's UUID. The first call for a pair
    /// allocates the next UUID and maps the two to each other; every later
    /// call for the pair returns that UUID and changes nothing. Fails with
    /// `IdsExhausted`, changing nothing, when a new UUID is needed and none is left.
    pub fn map_uuid_server_to_proxy(&mut self, backend_id: u64, backend_uuid: u128) -> (res: Result<
        u128,
        SplinterError,
    >)
        requires
            old(self).wf(),
        ensures
            final(self).wf(),
            res == old(self)@.uuid_server_to_proxy(backend_id, backend_uuid),
            final(self)@ == old(self)@.after_uuid(backend_id, backend_uuid),
    {
        let ghost before = self@;
        match uuid_table_get_by_right(&self.uuids, (backend_id, backend_uuid)) {
            Some(known) => {
                proof {
                    lemma_proxy_uuid_is(before, known, backend_id, backend_uuid);
                }
                Ok(known)
            },
            None => {
                match self.uuid_gen.take_id() {
                    Some(id) => {
                        let proxy_uuid = id as u128;
                        proof {
                            lemma_insert_fresh_pair(before.uuids, proxy_uuid, (backend_id, backend_uuid));
                            lemma_insert_pair_one_to_one(
                                before.uuids,
                                proxy_uuid,
                                (backend_id, backend_uuid),
                            );
                        }
                        uuid_table_insert(&mut self.uuids, proxy_uuid, (backend_id, backend_uuid));
                        proof {
                            let after = before.after_uuid(backend_id, backend_uuid);
                            assert(self@.uuids == after.uuids);
                            assert(self@.entity_types =~= after.entity_types);
                            assert(self@ == after);
                        }
                        Ok(proxy_uuid)
                    },
                    None => Err(SplinterError::IdsExhausted),
                }
            },
        }
    }

    /// The backend and the backend-side UUID that a proxy-side UUID stands
    /// for, or `NotMapped` if it stands for none.
    pub fn map_uuid_proxy_to_server(&self, proxy_uuid: u128) -> (res: Result<
        (u64, u128),
        SplinterError,
    >)
        ensures
            res == self@.uuid_proxy_to_server(proxy_uuid),
    {
        match uuid_table_get_by_left(&self.uuids, proxy_uuid) {
            Some(pair) => Ok(pair),
            None => Err(SplinterError::NotMapped),
        }
    }

    /// What is on record about a proxy-side entity id.
    pub fn entity_data(&self, proxy_eid: i32) -> (res: Option<EntityData>)
        requires
            self.wf(),
        ensures
            match res {
                Some(data) => self@.entity_types.dom().contains(proxy_eid) && data.id == proxy_eid
                    && data.entity_type == self@.entity_types[proxy_eid],
                None => !self@.entity_types.dom().contains(proxy_eid),
            },
    {
        match self.eid_data.get(&proxy_eid) {
            Some(data) => Some(*data),
            None => None,
        }
    }
}

/// In a one-to-one table, the id found for a pair is the id of the pair.
pub proof fn lemma_proxy_eid_is(v: MappingView, k: i32, backend_id: u64, backend_eid: i32)
    requires
        one_to_one(v.eids),
        has_pair(v.eids, k, (backend_id, backend_eid)),
    ensures
        v.proxy_eid(backend_id, backend_eid) == Some(k),
{
    let chosen = choose|c: i32| has_pair(v.eids, c, (backend_id, backend_eid));
    assert(v.eids[chosen] == v.eids[k]);
}

/// In a one-to-one table, the UUID found for a pair is the UUID of the pair.
pub proof fn lemma_proxy_uuid_is(v: MappingView, k: u128, backend_id: u64, backend_uuid: u128)
    requires
        one_to_one(v.uuids),
        has_pair(v.uuids, k, (backend_id, backend_uuid)),
    ensures
        v.proxy_uuid(backend_id, backend_uuid) == Some(k),
{
    let chosen = choose|c: u128| has_pair(v.uuids, c, (backend_id, backend_uuid));
    assert(v.uuids[chosen] == v.uuids[k]);
}

/// Mapping an entity keeps the table valid and drops nothing from it.
pub proof fn lemma_after_eid_valid(v: MappingView, backend_id: u64, backend_eid: i32, entity_type: i32)
    requires
        v.valid(),
    ensures
        v.after_eid(backend_id, backend_eid, entity_type).valid(),
        v.extended_by(v.after_eid(backend_id, backend_eid, entity_type)),
{
    if v.proxy_eid(backend_id, backend_eid) is None && v.eids_issued < v.eid_limit {
        let k = (v.eids_issued + 1) as i32;
        let after = v.after_eid(backend_id, backend_eid, entity_type);
        assert(!v.eids.dom().contains(k));
        lemma_insert_fresh_pair(v.eids, k, (backend_id, backend_eid));
        lemma_insert_pair_one_to_one(v.eids, k, (backend_id, backend_eid));
        assert(after.entity_types.dom() =~= after.eids.dom());
        assert forall|j: i32| #[trigger] after.eids.dom().contains(j) <==> 1 <= j <= after.eids_issued by {
            if j != k {
                assert(v.eids.dom().contains(j) <==> 1 <= j <= v.eids_issued);
            }
        }
    }
}

/// Mapping a UUID keeps the table valid and drops nothing from it.
pub proof fn lemma_after_uuid_valid(v: MappingView, backend_id: u64, backend_uuid: u128)
    requires
        v.valid(),
    ensures
        v.after_uuid(backend_id, backend_uuid).valid(),
        v.extended_by(v.after_uuid(backend_id, backend_uuid)),
{
    if v.proxy_uuid(backend_id, backend_uuid) is None && v.uuids_issued < v.uuid_limit {
        let k = (v.uuids_issued + 1) as u128;
        let after = v.after_uuid(backend_id, backend_uuid);
        assert(!v.uuids.dom().contains(k));
        lemma_insert_fresh_pair(v.uuids, k, (backend_id, backend_uuid));
        lemma_insert_pair_one_to_one(v.uuids, k, (backend_id, backend_uuid));
        assert forall|j: u128| #[trigger] after.uuids.dom().contains(j) <==> 1 <= j <= after.uuids_issued by {
            if j != k {
                assert(v.uuids.dom().contains(j) <==> 1 <= j <= v.uuids_issued);
            }
        }
    }
}

/// A table that extends an extension of `a` extends `a`.
pub proof fn lemma_extended_by_transitive(a: MappingView, b: MappingView, c: MappingView)
    requires
        a.extended_by(b),
        b.extended_by(c),
    ensures
        a.extended_by(c),
        a.extended_by(a),
{
}

/// Mapping round-trip for entity ids: the id that `map_eid_server_to_proxy`
/// returns for (`backend_id`, `backend_eid`) is mapped back to that pair by
/// `map_eid_proxy_to_server`, at once and in every later state of the table.
pub proof fn lemma_eid_round_trip(
    v: MappingView,
    backend_id: u64,
    backend_eid: i32,
    entity_type: i32,
    later: MappingView,
)
    requires
        v.valid(),
        v.eid_server_to_proxy(backend_id, backend_eid) is Ok,
        v.after_eid(backend_id, backend_eid, entity_type).extended_by(later),
    ensures
        later.eid_proxy_to_server(v.eid_server_to_proxy(backend_id, backend_eid)->Ok_0) == Ok::<
            (u64, i32),
            SplinterError,
        >((backend_id, backend_eid)),
{
    let k = v.eid_server_to_proxy(backend_id, backend_eid)->Ok_0;
    let after = v.after_eid(backend_id, backend_eid, entity_type);
    if v.proxy_eid(backend_id, backend_eid) is Some {
        assert(has_pair(v.eids, k, (backend_id, backend_eid)));
    }
    assert(has_pair(after.eids, k, (backend_id, backend_eid)));
    assert(later.eids.dom().contains(k));
}

/// Mapping round-trip for UUIDs: the UUID that `map_uuid_server_to_proxy`
/// returns for (`backend_id`, `backend_uuid`) is mapped back to that pair by
/// `map_uuid_proxy_to_server`, at once and in every later state of the table.
pub proof fn lemma_uuid_round_trip(v: MappingView, backend_id: u64, backend_uuid: u128, later: MappingView)
    requires
        v.valid(),
        v.uuid_server_to_proxy(backend_id, backend_uuid) is Ok,
        v.after_uuid(backend_id, backend_uuid).extended_by(later),
    ensures
        later.uuid_proxy_to_server(v.uuid_server_to_proxy(backend_id, backend_uuid)->Ok_0) == Ok::<
            (u64, u128),
            SplinterError,
        >((backend_id, backend_uuid)),
{
    let k = v.uuid_server_to_proxy(backend_id, backend_uuid)->Ok_0;
    let after = v.after_uuid(backend_id, backend_uuid);
    if v.proxy_uuid(backend_id, backend_uuid) is Some {
        assert(has_pair(v.uuids, k, (backend_id, backend_uuid)));
    }
    assert(has_pair(after.uuids, k, (backend_id, backend_uuid)));
    assert(later.uuids.dom().contains(k));
}

/// The round trip in the other direction: a mapped proxy-side entity id is
/// what `map_eid_server_to_proxy` returns for the pair it stands for, and
/// asking for it changes nothing.
pub proof fn lemma_eid_round_trip_from_proxy(v: MappingView, proxy_eid: i32, entity_type: i32)
    requires
        v.valid(),
        v.eid_proxy_to_server(proxy_eid) is Ok,
    ensures
        v.eid_server_to_proxy(
            v.eid_proxy_to_server(proxy_eid)->Ok_0.0,
            v.eid_proxy_to_server(proxy_eid)->Ok_0.1,
        ) == Ok::<i32, SplinterError>(proxy_eid),
        v.after_eid(
            v.eid_proxy_to_server(proxy_eid)->Ok_0.0,
            v.eid_proxy_to_server(proxy_eid)->Ok_0.1,
            entity_type,
        ) == v,
{
    let pair = v.eids[proxy_eid];
    assert(has_pair(v.eids, proxy_eid, (pair.0, pair.1)));
    lemma_proxy_eid_is(v, proxy_eid, pair.0, pair.1);
}

/// Mapping stability for entity ids: once `map_eid_server_to_proxy` has
/// returned an id for (`backend_id`, `backend_eid`), it returns the same id
/// for that pair in every later state of the table, whatever was mapped in
/// between and whatever entity type the later call gives.
pub proof fn lemma_eid_mapping_stable(
    v: MappingView,
    backend_id: u64,
    backend_eid: i32,
    entity_type: i32,
    later: MappingView,
)
    requires
        v.valid(),
        v.eid_server_to_proxy(backend_id, backend_eid) is Ok,
        v.after_eid(backend_id, backend_eid, entity_type).extended_by(later),
        later.valid(),
    ensures
        later.eid_server_to_proxy(backend_id, backend_eid) == v.eid_server_to_proxy(
            backend_id,
            backend_eid,
        ),
{
    let k = v.eid_server_to_proxy(backend_id, backend_eid)->Ok_0;
    let after = v.after_eid(backend_id, backend_eid, entity_type);
    if v.proxy_eid(backend_id, backend_eid) is Some {
        assert(has_pair(v.eids, k, (backend_id, backend_eid)));
    }
    assert(has_pair(after.eids, k, (backend_id, backend_eid)));
    assert(has_pair(later.eids, k, (backend_id, backend_eid)));
    lemma_proxy_eid_is(later, k, backend_id, backend_eid);
}

/// Mapping stability for UUIDs: once `map_uuid_server_to_proxy` has returned
/// a UUID for (`backend_id`, `backend_uuid`), it returns the same UUID for
/// that pair in every later state of the table.
pub proof fn lemma_uuid_mapping_stable(
    v: MappingView,
    backend_id: u64,
    backend_uuid: u128,
    later: MappingView,
)
    requires
        v.valid(),
        v.uuid_server_to_proxy(backend_id, backend_uuid) is Ok,
        v.after_uuid(backend_id, backend_uuid).extended_by(later),
        later.valid(),
    ensures
        later.uuid_server_to_proxy(backend_id, backend_uuid) == v.uuid_server_to_proxy(
            backend_id,
            backend_uuid,
        ),
{
    let k = v.uuid_server_to_proxy(backend_id, backend_uuid)->Ok_0;
    let after = v.after_uuid(backend_id, backend_uuid);
    if v.proxy_uuid(backend_id, backend_uuid) is Some {
        assert(has_pair(v.uuids, k, (backend_id, backend_uuid)));
    }
    assert(has_pair(after.uuids, k, (backend_id, backend_uuid)));
    assert(has_pair(later.uuids, k, (backend_id, backend_uuid)));
    lemma_proxy_uuid_is(later, k, backend_id, backend_uuid);
}

/// Fresh allocation in the table: an id that `map_eid_server_to_proxy`
/// allocates is larger than every id mapped before, so it stands for no
/// other entity.
pub proof fn lemma_new_eid_is_fresh(v: MappingView, backend_id: u64, backend_eid: i32)
    requires
        v.valid(),
        v.proxy_eid(backend_id, backend_eid) is None,
        v.eid_server_to_proxy(backend_id, backend_eid) is Ok,
    ensures
        !v.eids.dom().contains(v.eid_server_to_proxy(backend_id, backend_eid)->Ok_0),
        forall|k: i32| #[trigger]
            v.eids.dom().contains(k) ==> k < v.eid_server_to_proxy(backend_id, backend_eid)->Ok_0,
{
}

/// Allocation in the table: a backend's entity that is not mapped, while an
/// id is left, gets the id after the last one allocated, which is 1 in a
/// table that never allocated. The pair and the type that came with it are
/// on record afterwards, and the allocator stands one further.
pub proof fn lemma_eid_allocation(v: MappingView, backend_id: u64, backend_eid: i32, entity_type: i32)
    requires
        v.valid(),
        v.proxy_eid(backend_id, backend_eid) is None,
        v.eids_issued < v.eid_limit,
    ensures
        v.eid_server_to_proxy(backend_id, backend_eid) == Ok::<i32, SplinterError>((v.eids_issued + 1) as i32),
        v.after_eid(backend_id, backend_eid, entity_type).eids_issued == v.eids_issued + 1,
        has_pair(
            v.after_eid(backend_id, backend_eid, entity_type).eids,
            (v.eids_issued + 1) as i32,
            (backend_id, backend_eid),
        ),
        v.after_eid(backend_id, backend_eid, entity_type).entity_types[(v.eids_issued + 1) as i32]
            == entity_type,
        v.after_eid(backend_id, backend_eid, entity_type).proxy_eid(backend_id, backend_eid) == Some(
            (v.eids_issued + 1) as i32,
        ),
{
    let k = (v.eids_issued + 1) as i32;
    let after = v.after_eid(backend_id, backend_eid, entity_type);
    lemma_after_eid_valid(v, backend_id, backend_eid, entity_type);
    assert(has_pair(after.eids, k, (backend_id, backend_eid)));
    lemma_proxy_eid_is(after, k, backend_id, backend_eid);
}

/// Fresh allocation in order: of two different entities that are new to the
/// table, the one that is mapped first gets the smaller id, whatever was
/// mapped between the two.
pub proof fn lemma_later_entity_gets_larger_id(
    v: MappingView,
    first_backend: u64,
    first_eid: i32,
    entity_type: i32,
    later: MappingView,
    second_backend: u64,
    second_eid: i32,
)
    requires
        v.valid(),
        v.proxy_eid(first_backend, first_eid) is None,
        v.eid_server_to_proxy(first_backend, first_eid) is Ok,
        v.after_eid(first_backend, first_eid, entity_type).extended_by(later),
        later.valid(),
        later.proxy_eid(second_backend, second_eid) is None,
        later.eid_server_to_proxy(second_backend, second_eid) is Ok,
    ensures
        1 <= v.eid_server_to_proxy(first_backend, first_eid)->Ok_0 < later.eid_server_to_proxy(
            second_backend,
            second_eid,
        )->Ok_0,
{
}

} // verus!
