//! The bidirectional hash maps that hold the identifier tables.
//!
//! The maps are `bimap::BiHashMap` values. Verus does not look inside them:
//! what a table holds is named by a spec function, and the four operations the
//! library needs (`new`, `insert`, `get_by_left`, `get_by_right`) are stated
//! over that name. A name takes no type parameter, so each operation is stated
//! once for each of the three tables: entity ids, UUIDs, and dictionary names.
//!
//! Nothing here says that a table is one-to-one. The types that own a table
//! prove it from what `new` and `insert` are stated to do.

use vstd::prelude::*;
use bimap::BiHashMap;

verus! {

/// `bimap::BiHashMap`: a map that is looked up from both sides. Nothing is
/// seen inside it; what it holds is named below.
#[verifier::external_type_specification]
#[verifier::external_body]
#[verifier::reject_recursive_types(L)]
#[verifier::reject_recursive_types(R)]
#[verifier::reject_recursive_types(LS)]
#[verifier::reject_recursive_types(RS)]
pub struct ExBiHashMap<L, R, LS, RS>(BiHashMap<L, R, LS, RS>);

/// A table from proxy-side entity ids to (backend id, backend-side entity id).
pub type EidTable = BiHashMap<i32, (u64, i32)>;

/// A table from proxy-side UUIDs to (backend id, backend-side UUID).
pub type UuidTable = BiHashMap<u128, (u64, u128)>;

/// A table from numeric ids to namespaced names.
pub type NameTable = BiHashMap<i32, String>;

/// The pairs of an entity-id table, left value to right value.
pub uninterp spec fn eid_pairs(table: EidTable) -> Map<i32, (u64, i32)>;

/// The pairs of a UUID table, left value to right value.
pub uninterp spec fn uuid_pairs(table: UuidTable) -> Map<u128, (u64, u128)>;

/// The pairs of a name table, left value to the characters of the right value.
pub uninterp spec fn name_pairs(table: NameTable) -> Map<i32, Seq<char>>;

/// A table without pairs.
pub open spec fn has_no_pairs<L, R>(pairs: Map<L, R>) -> bool {
    pairs =~= Map::empty()
}

/// Whether `left` is paired with `right`.
pub open spec fn has_pair<L, R>(pairs: Map<L, R>, left: L, right: R) -> bool {
    pairs.dom().contains(left) && pairs[left] == right
}

/// Whether some pair has `right` as its right value.
pub open spec fn has_right<L, R>(pairs: Map<L, R>, right: R) -> bool {
    exists|l: L| has_pair(pairs, l, right)
}

/// No two left values share a right value.
pub open spec fn one_to_one<L, R>(pairs: Map<L, R>) -> bool {
    forall|a: L, b: L|
        pairs.dom().contains(a) && pairs.dom().contains(b) && #[trigger] pairs[a] == #[trigger] pairs[b]
            ==> a == b
}

/// Every pair of `pairs` is a pair of `later`.
pub open spec fn kept_in<L, R>(pairs: Map<L, R>, later: Map<L, R>) -> bool {
    forall|l: L| #[trigger] pairs.dom().contains(l) ==> later.dom().contains(l) && later[l] == pairs[l]
}

/// What a table holds after `insert(left, right)`: the pair itself, and every
/// earlier pair that shares neither its left nor its right value.
pub open spec fn insert_pair<L, R>(pairs: Map<L, R>, left: L, right: R) -> Map<L, R> {
    Map::new(
        |l: L| l == left || (pairs.dom().contains(l) && pairs[l] != right),
        |l: L| if l == left { right } else { pairs[l] },
    )
}

/// Inserting into a one-to-one table leaves it one-to-one.
pub proof fn lemma_insert_pair_one_to_one<L, R>(pairs: Map<L, R>, left: L, right: R)
    requires
        one_to_one(pairs),
    ensures
        one_to_one(insert_pair(pairs, left, right)),
        has_pair(insert_pair(pairs, left, right), left, right),
{
    let after = insert_pair(pairs, left, right);
    assert forall|a: L, b: L|
        after.dom().contains(a) && after.dom().contains(b) && #[trigger] after[a] == #[trigger] after[b]
    implies a == b by {
        if a != left && b != left {
            assert(pairs[a] == pairs[b]);
        }
    }
}

/// Inserting a pair whose two values are both new only adds that pair.
pub proof fn lemma_insert_fresh_pair<L, R>(pairs: Map<L, R>, left: L, right: R)
    requires
        !pairs.dom().contains(left),
        !has_right(pairs, right),
    ensures
        insert_pair(pairs, left, right) == pairs.insert(left, right),
{
    assert forall|l: L| pairs.dom().contains(l) implies pairs[l] != right by {
        if pairs[l] == right {
            assert(has_pair(pairs, l, right));
        }
    }
    assert(insert_pair(pairs, left, right) =~= pairs.insert(left, right));
}

/// `BiHashMap::new`: a table without pairs.
#[verifier::external_body]
pub(crate) fn eid_table_new() -> (table: EidTable)
    ensures
        has_no_pairs(eid_pairs(table)),
{
    BiHashMap::new()
}

/// `BiHashMap::insert`: removes the pair of `left` and the pair of `right`, if
/// there are any, then adds the pair (`left`, `right`).
#[verifier::external_body]
pub(crate) fn eid_table_insert(table: &mut EidTable, left: i32, right: (u64, i32))
    ensures
        eid_pairs(*final(table)) == insert_pair(eid_pairs(*old(table)), left, right),
{
    table.insert(left, right);
}

/// `BiHashMap::get_by_left`: the right value paired with `left`, if there is one.
#[verifier::external_body]
pub(crate) fn eid_table_get_by_left(table: &EidTable, left: i32) -> (res: Option<(u64, i32)>)
    ensures
        match res {
            Some(right) => has_pair(eid_pairs(*table), left, right),
            None => !eid_pairs(*table).dom().contains(left),
        },
{
    table.get_by_left(&left).copied()
}

/// `BiHashMap::get_by_right`: a left value paired with `right`, if there is one.
#[verifier::external_body]
pub(crate) fn eid_table_get_by_right(table: &EidTable, right: (u64, i32)) -> (res: Option<i32>)
    ensures
        match res {
            Some(left) => has_pair(eid_pairs(*table), left, right),
            None => !has_right(eid_pairs(*table), right),
        },
{
    table.get_by_right(&right).copied()
}

/// `BiHashMap::new`: a table without pairs.
#[verifier::external_body]
pub(crate) fn uuid_table_new() -> (table: UuidTable)
    ensures
        has_no_pairs(uuid_pairs(table)),
{
    BiHashMap::new()
}

/// `BiHashMap::insert`: removes the pair of `left` and the pair of `right`, if
/// there are any, then adds the pair (`left`, `right`).
#[verifier::external_body]
pub(crate) fn uuid_table_insert(table: &mut UuidTable, left: u128, right: (u64, u128))
    ensures
        uuid_pairs(*final(table)) == insert_pair(uuid_pairs(*old(table)), left, right),
{
    table.insert(left, right);
}

/// `BiHashMap::get_by_left`: the right value paired with `left`, if there is one.
#[verifier::external_body]
pub(crate) fn uuid_table_get_by_left(table: &UuidTable, left: u128) -> (res: Option<(u64, u128)>)
    ensures
        match res {
            Some(right) => has_pair(uuid_pairs(*table), left, right),
            None => !uuid_pairs(*table).dom().contains(left),
        },
{
    table.get_by_left(&left).copied()
}

/// `BiHashMap::get_by_right`: a left value paired with `right`, if there is one.
#[verifier::external_body]
pub(crate) fn uuid_table_get_by_right(table: &UuidTable, right: (u64, u128)) -> (res: Option<u128>)
    ensures
        match res {
            Some(left) => has_pair(uuid_pairs(*table), left, right),
            None => !has_right(uuid_pairs(*table), right),
        },
{
    table.get_by_right(&right).copied()
}

/// `BiHashMap::new`: a table without pairs.
#[verifier::external_body]
pub(crate) fn name_table_new() -> (table: NameTable)
    ensures
        has_no_pairs(name_pairs(table)),
{
    BiHashMap::new()
}

/// `BiHashMap::insert`: removes the pair of `left` and the pair of `right`, if
/// there are any, then adds the pair (`left`, `right`). Two names are the same
/// right value when they have the same characters.
#[verifier::external_body]
pub(crate) fn name_table_insert(table: &mut NameTable, left: i32, right: String)
    ensures
        name_pairs(*final(table)) == insert_pair(name_pairs(*old(table)), left, right@),
{
    table.insert(left, right);
}

/// `BiHashMap::get_by_left`: a copy of the name paired with `left`, if there is one.
#[verifier::external_body]
pub(crate) fn name_table_get_by_left(table: &NameTable, left: i32) -> (res: Option<String>)
    ensures
        match res {
            Some(right) => has_pair(name_pairs(*table), left, right@),
            None => !name_pairs(*table).dom().contains(left),
        },
{
    table.get_by_left(&left).cloned()
}

/// `BiHashMap::get_by_right`: a left value paired with the name `right`, if there is one.
#[verifier::external_body]
pub(crate) fn name_table_get_by_right(table: &NameTable, right: &str) -> (res: Option<i32>)
    ensures
        match res {
            Some(left) => has_pair(name_pairs(*table), left, right@),
            None => !has_right(name_pairs(*table), right@),
        },
{
    table.get_by_right(right).copied()
}

} // verus!
