//! What the proxy keeps of the players who left: for each, its name and its
//! last position. The caller stores it in a file and reads it at startup.

use vstd::prelude::*;
use crate::client::SplinterClient;
use crate::keyed::{
    absent, distinct, first_at, lemma_distinct_push, lemma_place_of, lemma_place_of_absent,
    lemma_place_of_present, place_of,
};

verus! {

/// What is kept of a player who left: who it was and where.
#[derive(Clone, Debug, PartialEq, Eq)]
pub struct PlInfoPlayer {
    pub uuid: u128,
    pub x: i32,
    pub y: i32,
    pub z: i32,
    pub name: String,
}

/// A player record as a value.
pub struct PlayerRecord {
    pub uuid: u128,
    pub x: i32,
    pub y: i32,
    pub z: i32,
    pub name: Seq<char>,
}

impl View for PlInfoPlayer {
    type V = PlayerRecord;

    open spec fn view(&self) -> PlayerRecord {
        PlayerRecord { uuid: self.uuid, x: self.x, y: self.y, z: self.z, name: self.name@ }
    }
}

/// The record that is kept of a client.
pub open spec fn record_of(client: SplinterClient) -> PlayerRecord {
    PlayerRecord {
        uuid: client.uuid,
        x: client.position.x,
        y: client.position.y,
        z: client.position.z,
        name: client.name@,
    }
}

/// The records of a list as values.
pub open spec fn record_views(players: Seq<PlInfoPlayer>) -> Seq<PlayerRecord> {
    Seq::new(players.len(), |i: int| players[i]@)
}

/// The UUIDs of a list of records.
pub open spec fn record_uuids(records: Seq<PlayerRecord>) -> Seq<u128> {
    Seq::new(records.len(), |i: int| records[i].uuid)
}

/// The records after one was put: it replaces the record of its player
/// where that stands, or goes to the end.
pub open spec fn put_record(records: Seq<PlayerRecord>, record: PlayerRecord) -> Seq<PlayerRecord> {
    match place_of(record_uuids(records), record.uuid) {
        Some(i) => records.update(i, record),
        None => records.push(record),
    }
}

/// The records after those of a list of clients were put, in order.
pub open spec fn put_records_of(records: Seq<PlayerRecord>, clients: Seq<SplinterClient>) -> Seq<PlayerRecord>
    decreases clients.len(),
{
    if clients.len() == 0 {
        records
    } else {
        put_record(put_records_of(records, clients.drop_last()), record_of(clients.last()))
    }
}

/// Putting a record keeps one record for each player, and leaves the
/// player's record in the list.
pub proof fn lemma_put_record(records: Seq<PlayerRecord>, record: PlayerRecord)
    requires
        distinct(record_uuids(records)),
    ensures
        distinct(record_uuids(put_record(records, record))),
        !absent(record_uuids(put_record(records, record)), record.uuid),
{
    let uuids = record_uuids(records);
    let after = put_record(records, record);
    match place_of(uuids, record.uuid) {
        Some(i) => {
            assert(first_at(uuids, i, record.uuid));
            assert(record_uuids(after) =~= uuids);
        },
        None => {
            assert forall|j: int| 0 <= j < uuids.len() implies #[trigger] uuids[j] != record.uuid by {
                if uuids[j] == record.uuid {
                    lemma_place_of_present(uuids, j, record.uuid);
                }
            }
            lemma_distinct_push(uuids, record.uuid);
            assert(record_uuids(after) =~= uuids.push(record.uuid));
            assert(record_uuids(after)[uuids.len() as int] == record.uuid);
        },
    }
}

/// What is kept of the players who left, one record for each.
#[derive(Clone, Debug, PartialEq, Eq)]
pub struct PlInfo {
    pub players: Vec<PlInfoPlayer>,
}

impl View for PlInfo {
    type V = Seq<PlayerRecord>;

    open spec fn view(&self) -> Seq<PlayerRecord> {
        record_views(self.players@)
    }
}

impl PlInfo {
    /// No player has two records.
    pub open spec fn wf(&self) -> bool {
        distinct(record_uuids(self@))
    }

    /// No records.
    pub fn new() -> (info: PlInfo)
        ensures
            info.wf(),
            info@ == Seq::<PlayerRecord>::empty(),
    {
        let info = PlInfo { players: Vec::new() };
        assert(info@ =~= Seq::<PlayerRecord>::empty());
        info
    }

    /// The place of a player's record, if there is one.
    pub fn position_of(&self, uuid: u128) -> (res: Option<usize>)
        ensures
            match res {
                Some(i) => place_of(record_uuids(self@), uuid) == Some(i as int) && i < self.players@.len(),
                None => place_of(record_uuids(self@), uuid) is None,
            },
    {
        let ghost uuids = record_uuids(self@);
        let mut i: usize = 0;
        while i < self.players.len()
            invariant
                i <= self.players.len(),
                uuids == record_uuids(self@),
                forall|j: int| 0 <= j < i ==> #[trigger] uuids[j] != uuid,
            decreases self.players.len() - i,
        {
            if self.players[i].uuid == uuid {
                proof {
                    assert(uuids[i as int] == uuid);
                    lemma_place_of(uuids, i as int, uuid);
                }
                return Some(i);
            }
            assert(uuids[i as int] != uuid);
            i = i + 1;
        }
        proof {
            lemma_place_of_absent(uuids, uuid);
        }
        None
    }

    /// Puts a record: it replaces the record of its player where that
    /// stands, or goes to the end.
    pub fn insert(&mut self, record: PlInfoPlayer)
        requires
            old(self).wf(),
        ensures
            final(self).wf(),
            final(self)@ == put_record(old(self)@, record@),
    {
        proof {
            lemma_put_record(self@, record@);
        }
        let ghost before = self@;
        match self.position_of(record.uuid) {
            Some(i) => {
                self.players.set(i, record);
                assert(self@ =~= put_record(before, record@));
            },
            None => {
                self.players.push(record);
                assert(self@ =~= put_record(before, record@));
            },
        }
    }
}

} // verus!
