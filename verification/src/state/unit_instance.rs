use vstd::prelude::*;

use crate::data::loader::UnitId;
use crate::state::status_effect::StatusFlags;

verus! {

/// A unit on the battlefield: which kind it is, its current hit points
/// (fixed point, 1000 = 1) and its status effects.
#[derive(Debug)]
pub struct UnitInstance {
    pub unit_id: UnitId,
    pub hp: i64,
    pub statuses: StatusFlags,
}

impl UnitInstance {
    pub fn new(unit_id: UnitId, hp: i64, statuses: StatusFlags) -> (r: Self)
        ensures
            r.unit_id == unit_id,
            r.hp == hp,
            r.statuses == statuses,
    {
        Self { unit_id, hp, statuses }
    }

    pub fn new_no_status(unit_id: UnitId, hp: i64) -> (r: Self)
        ensures
            r.unit_id == unit_id,
            r.hp == hp,
            r.statuses.spec_bits() == 0,
    {
        Self { unit_id, hp, statuses: StatusFlags::empty() }
    }

    /// A unit with 10 hit points (10000 in fixed point) and no status effect.
    pub fn new_10_hp(unit_id: UnitId) -> (r: Self)
        ensures
            r.unit_id == unit_id,
            r.hp == 10000,
            r.statuses.spec_bits() == 0,
    {
        Self { unit_id, hp: 10000, statuses: StatusFlags::empty() }
    }
}

} // verus!
