//! Zones of the world plane and the choice of the backend that owns a position.

use vstd::prelude::*;
use crate::error::SplinterError;

verus! {

/// A region of the world's X/Z plane.
#[derive(Copy, Clone, Debug, PartialEq, Eq)]
pub enum Zone {
    /// The positions with `x1 <= x <= x2` and `z1 <= z <= z2`.
    Rectangle { x1: i32, z1: i32, x2: i32, z2: i32 },
    /// Every position outside the rectangle with these bounds.
    InvertedRectangle { x1: i32, z1: i32, x2: i32, z2: i32 },
}

impl Zone {
    /// Whether the zone holds the position (`x`, `z`). Bounds are inclusive.
    pub open spec fn holds(self, x: int, z: int) -> bool {
        match self {
            Zone::Rectangle { x1, z1, x2, z2 } => x1 <= x <= x2 && z1 <= z <= z2,
            Zone::InvertedRectangle { x1, z1, x2, z2 } => !(x1 <= x <= x2 && z1 <= z <= z2),
        }
    }

    /// Whether the zone holds the position (`x`, `z`).
    pub fn contains(&self, x: i32, z: i32) -> (b: bool)
        ensures
            b == self.holds(x as int, z as int),
    {
        match self {
            Zone::Rectangle { x1, z1, x2, z2 } => *x1 <= x && x <= *x2 && *z1 <= z && z <= *z2,
            Zone::InvertedRectangle { x1, z1, x2, z2 } => !(*x1 <= x && x <= *x2 && *z1 <= z && z
                <= *z2),
        }
    }
}

/// Whether `i` is the place of the first zone of the list that holds (`x`, `z`).
pub open spec fn is_first_match(zones: Seq<(u64, Zone)>, i: int, x: int, z: int) -> bool {
    &&& 0 <= i < zones.len()
    &&& zones[i].1.holds(x, z)
    &&& forall|j: int| 0 <= j < i ==> !(#[trigger] zones[j]).1.holds(x, z)
}

/// Whether no zone of the list holds (`x`, `z`).
pub open spec fn no_match(zones: Seq<(u64, Zone)>, x: int, z: int) -> bool {
    forall|j: int| 0 <= j < zones.len() ==> !(#[trigger] zones[j]).1.holds(x, z)
}

/// The backend of a position: that of the first zone in list order that
/// holds it; the default backend if no zone does; `Unzoned` if there is no
/// default either.
pub open spec fn backend_of(zones: Seq<(u64, Zone)>, default: Option<u64>, x: int, z: int) -> Result<
    u64,
    SplinterError,
> {
    if exists|i: int| is_first_match(zones, i, x, z) {
        Ok(zones[choose|i: int| is_first_match(zones, i, x, z)].0)
    } else {
        match default {
            Some(id) => Ok(id),
            None => Err(SplinterError::Unzoned),
        }
    }
}

/// At most one place is that of the first match.
pub proof fn lemma_first_match_unique(zones: Seq<(u64, Zone)>, i: int, k: int, x: int, z: int)
    requires
        is_first_match(zones, i, x, z),
        is_first_match(zones, k, x, z),
    ensures
        i == k,
{
    if i < k {
        assert(!zones[i].1.holds(x, z));
    } else if k < i {
        assert(!zones[k].1.holds(x, z));
    }
}

/// An ordered list of zones, each bound to a backend, with the backend of
/// the positions that no zone holds.
#[derive(Clone, Debug, PartialEq, Eq)]
pub struct Zoner {
    /// The zones in the order in which they are tried.
    pub zones: Vec<(u64, Zone)>,
    /// The backend of a position outside every zone, if one is configured.
    pub default: Option<u64>,
}

impl Zoner {
    /// The backend that owns the position (`x`, `z`).
    pub fn zone_of(&self, x: i32, z: i32) -> (res: Result<u64, SplinterError>)
        ensures
            res == backend_of(self.zones@, self.default, x as int, z as int),
    {
        let mut i: usize = 0;
        while i < self.zones.len()
            invariant
                i <= self.zones.len(),
                forall|j: int| 0 <= j < i ==> !(#[trigger] self.zones@[j]).1.holds(x as int, z as int),
            decreases self.zones.len() - i,
        {
            if self.zones[i].1.contains(x, z) {
                proof {
                    let found = i as int;
                    assert(is_first_match(self.zones@, found, x as int, z as int));
                    let chosen = choose|k: int| is_first_match(self.zones@, k, x as int, z as int);
                    lemma_first_match_unique(self.zones@, found, chosen, x as int, z as int);
                }
                return Ok(self.zones[i].0);
            }
            i = i + 1;
        }
        proof {
            assert forall|k: int| !is_first_match(self.zones@, k, x as int, z as int) by {
                if 0 <= k < self.zones@.len() {
                    assert(!self.zones@[k].1.holds(x as int, z as int));
                }
            }
        }
        match self.default {
            Some(id) => Ok(id),
            None => Err(SplinterError::Unzoned),
        }
    }
}

/// Zones of one list do not overlap in effect: a position has one backend,
/// and it is the backend of the first zone that holds it even where a later
/// zone holds it too.
pub proof fn lemma_first_zone_wins(zones: Seq<(u64, Zone)>, default: Option<u64>, i: int, x: int, z: int)
    requires
        is_first_match(zones, i, x, z),
    ensures
        backend_of(zones, default, x, z) == Ok::<u64, SplinterError>(zones[i].0),
{
    let chosen = choose|k: int| is_first_match(zones, k, x, z);
    lemma_first_match_unique(zones, i, chosen, x, z);
}

/// A position that no zone holds belongs to the default backend, or to none.
pub proof fn lemma_unmatched_position(zones: Seq<(u64, Zone)>, default: Option<u64>, x: int, z: int)
    requires
        no_match(zones, x, z),
    ensures
        backend_of(zones, default, x, z) == match default {
            Some(id) => Ok::<u64, SplinterError>(id),
            None => Err::<u64, SplinterError>(SplinterError::Unzoned),
        },
{
    assert forall|k: int| !is_first_match(zones, k, x, z) by {
        if 0 <= k < zones.len() {
            assert(!zones[k].1.holds(x, z));
        }
    }
}

} // verus!
