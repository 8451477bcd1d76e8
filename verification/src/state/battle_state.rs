use vstd::prelude::*;

use crate::state::unit_instance::UnitInstance;

verus! {

/// The units of both sides of a battle.
pub struct BattleState {
    pub attackers: Vec<UnitInstance>,
    pub defenders: Vec<UnitInstance>,
}

} // verus!
