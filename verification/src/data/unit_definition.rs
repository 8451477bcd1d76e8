use vstd::prelude::*;

use crate::data::loader::UnitId;
use crate::data::stats::Stats;
use crate::data::trait_id::TraitId;

use smallvec::SmallVec;

verus! {

/// The traits of a kind of unit, held in a `SmallVec` that keeps up to four of
/// them inline.
#[verifier::external_body]
pub struct TraitList {
    items: SmallVec<[TraitId; 4]>,
}

impl std::fmt::Debug for TraitList {
    /// Shows the list as the `SmallVec` shows itself: its items in brackets.
    #[verifier::external_body]
    fn fmt(&self, f: &mut std::fmt::Formatter<'_>) -> std::fmt::Result {
        std::fmt::Debug::fmt(&self.items, f)
    }
}

/// The traits that a list holds, in order.
pub uninterp spec fn trait_items(v: TraitList) -> Seq<TraitId>;

/// Builds a list of traits from a `Vec`, with `SmallVec::from_vec`.
///
/// Claimed: the list holds the items of `v`, in the same order.
#[verifier::external_body]
fn traits_from_vec(v: Vec<TraitId>) -> (r: TraitList)
    ensures
        trait_items(r) == v@,
{
    TraitList { items: SmallVec::from_vec(v) }
}

/// The number of traits held, with `SmallVec::len`.
///
/// Claimed: the result is the length of the items.
#[verifier::external_body]
pub(crate) fn traits_len(v: &TraitList) -> (r: usize)
    ensures
        r == trait_items(*v).len(),
{
    v.items.len()
}

/// The trait at position `i`, read through `SmallVec::as_slice`.
///
/// Claimed: the result is the item at `i`; `i` must be in bounds, where the
/// slice index would panic otherwise.
#[verifier::external_body]
pub(crate) fn traits_get(v: &TraitList, i: usize) -> (r: TraitId)
    requires
        i < trait_items(*v).len(),
    ensures
        r == trait_items(*v)[i as int],
{
    v.items.as_slice()[i]
}

impl TraitList {
    /// A list that holds the traits of `v`, in the same order.
    pub fn from_vec(v: Vec<TraitId>) -> (r: TraitList)
        ensures
            trait_items(r) == v@,
    {
        traits_from_vec(v)
    }

    /// Whether the list holds `t`.
    pub fn contains(&self, t: TraitId) -> (r: bool)
        ensures
            r == trait_items(*self).contains(t),
    {
        let n = traits_len(self);
        let mut i: usize = 0;
        while i < n
            invariant
                n == trait_items(*self).len(),
                i <= n,
                forall|j: int| 0 <= j < i ==> trait_items(*self)[j] != t,
            decreases n - i,
        {
            if traits_get(self, i) == t {
                return true;
            }
            i = i + 1;
        }
        false
    }
}

/// The definition of a kind of unit: its identifier, statistics and traits.
#[derive(Debug)]
pub struct UnitDefinition {
    pub id: UnitId,
    pub stats: Stats,
    pub traits: TraitList,
}

impl UnitDefinition {
    /// The traits of the unit, in order.
    pub open spec fn trait_seq(&self) -> Seq<TraitId> {
        trait_items(self.traits)
    }

}

} // verus!
