use vstd::prelude::*;

use crate::data::trait_id::TraitId;
use crate::data::unit_definition::{traits_get, traits_len, UnitDefinition};
use crate::engine::damage::{
    calculate_damage, damage_defined, damage_outcome, fight_defined, fight_outcome, fits_i64,
    lemma_damage_nonnegative,
};
use crate::state::status_effect::{lemma_bits_determine_set, lemma_defense_bonus_values, StatusFlags};
use crate::state::unit_instance::UnitInstance;

verus! {

/// The damage of one preemptive strike of the defender on an attacker that has
/// `attacker_hp` hit points left.
pub open spec fn preemptive_damage(
    attacker_hp: int,
    attacker: UnitInstance,
    defender: UnitInstance,
    attacker_def: UnitDefinition,
    defender_def: UnitDefinition,
) -> int {
    damage_outcome(
        defender_def.stats.attack as int,
        defender.hp as int,
        defender_def.stats.max_hp as int,
        attacker_def.stats.defense as int,
        attacker_hp,
        attacker.statuses.spec_defense_bonus(),
        attacker_def.stats.max_hp as int,
    ).1
}

/// Whether the preemptive strike on an attacker with `attacker_hp` hit points
/// left can be computed within `i64`.
pub open spec fn preemptive_strike_defined(
    attacker_hp: int,
    attacker: UnitInstance,
    defender: UnitInstance,
    attacker_def: UnitDefinition,
    defender_def: UnitDefinition,
) -> bool {
    damage_defined(
        defender_def.stats.attack as int,
        defender.hp as int,
        defender_def.stats.max_hp as int,
        attacker_def.stats.defense as int,
        attacker_hp,
        attacker.statuses.spec_defense_bonus(),
        attacker_def.stats.max_hp as int,
    )
}

/// The attacker's hit points after the defender's first `k` traits have acted:
/// each `PreemptiveRetaliation` among them strikes once, on the hit points
/// that the strikes before it left.
pub open spec fn hp_after_traits(
    k: nat,
    attacker: UnitInstance,
    defender: UnitInstance,
    attacker_def: UnitDefinition,
    defender_def: UnitDefinition,
) -> int
    decreases k,
{
    if k == 0 {
        attacker.hp as int
    } else {
        let prev = hp_after_traits((k - 1) as nat, attacker, defender, attacker_def, defender_def);
        if defender_def.trait_seq()[k - 1] == TraitId::PreemptiveRetaliation {
            prev - preemptive_damage(prev, attacker, defender, attacker_def, defender_def)
        } else {
            prev
        }
    }
}

/// Whether the first `k` traits of the defender act within `i64`: each strike
/// can be computed, and both the attacker's hit points and the damage summed so
/// far stay within `i64`.
pub open spec fn traits_act_defined(
    k: nat,
    attacker: UnitInstance,
    defender: UnitInstance,
    attacker_def: UnitDefinition,
    defender_def: UnitDefinition,
) -> bool
    decreases k,
{
    if k == 0 {
        true
    } else {
        let prev = hp_after_traits((k - 1) as nat, attacker, defender, attacker_def, defender_def);
        &&& traits_act_defined((k - 1) as nat, attacker, defender, attacker_def, defender_def)
        &&& defender_def.trait_seq()[k - 1] == TraitId::PreemptiveRetaliation ==> {
            &&& preemptive_strike_defined(prev, attacker, defender, attacker_def, defender_def)
            &&& fits_i64(prev - preemptive_damage(prev, attacker, defender, attacker_def, defender_def))
            &&& fits_i64(attacker.hp - (prev - preemptive_damage(prev, attacker, defender, attacker_def, defender_def)))
        }
    }
}

/// The attacker's hit points once all the defender's traits have acted.
pub open spec fn hp_after_preemption(
    attacker: UnitInstance,
    defender: UnitInstance,
    attacker_def: UnitDefinition,
    defender_def: UnitDefinition,
) -> int {
    hp_after_traits(defender_def.trait_seq().len(), attacker, defender, attacker_def, defender_def)
}

/// Whether retaliation is withheld: the attacker takes none, or the defender
/// does not retaliate.
pub open spec fn spec_retaliation_suppressed(
    attacker_def: UnitDefinition,
    defender_def: UnitDefinition,
) -> bool {
    attacker_def.trait_seq().contains(TraitId::NoRetaliationTaken) || !defender_def.trait_seq().contains(
        TraitId::Retaliates,
    )
}

/// The status bits that a hit by a unit with `traits` adds: `POISONED` for
/// `PoisonOnHit`, `FROZEN` for `FreezeOnHit`.
pub open spec fn on_hit_bits(traits: Seq<TraitId>) -> u32 {
    (if traits.contains(TraitId::PoisonOnHit) { 1u32 } else { 0u32 }) | (if traits.contains(
        TraitId::FreezeOnHit,
    ) {
        2u32
    } else {
        0u32
    })
}

/// The attacker as it enters the primary attack, after preemption.
pub open spec fn preempted(
    attacker: UnitInstance,
    defender: UnitInstance,
    attacker_def: UnitDefinition,
    defender_def: UnitDefinition,
) -> UnitInstance {
    UnitInstance {
        hp: hp_after_preemption(attacker, defender, attacker_def, defender_def) as i64,
        ..attacker
    }
}

/// The damage of the primary attack, as (to the attacker, to the defender).
pub open spec fn primary_outcome(
    attacker: UnitInstance,
    defender: UnitInstance,
    attacker_def: UnitDefinition,
    defender_def: UnitDefinition,
) -> (int, int) {
    fight_outcome(preempted(attacker, defender, attacker_def, defender_def), defender, attacker_def, defender_def)
}

/// The attacker's hit points once the attack is resolved.
pub open spec fn attacker_hp_after(
    attacker: UnitInstance,
    defender: UnitInstance,
    attacker_def: UnitDefinition,
    defender_def: UnitDefinition,
) -> int {
    let h = hp_after_preemption(attacker, defender, attacker_def, defender_def);
    let (to_attacker, to_defender) = primary_outcome(attacker, defender, attacker_def, defender_def);
    if h <= 0 || defender.hp - to_defender <= 0 || spec_retaliation_suppressed(
        attacker_def,
        defender_def,
    ) {
        h
    } else {
        h - to_attacker
    }
}

/// The defender's hit points once the attack is resolved.
pub open spec fn defender_hp_after(
    attacker: UnitInstance,
    defender: UnitInstance,
    attacker_def: UnitDefinition,
    defender_def: UnitDefinition,
) -> int {
    if hp_after_preemption(attacker, defender, attacker_def, defender_def) <= 0 {
        defender.hp as int
    } else {
        defender.hp - primary_outcome(attacker, defender, attacker_def, defender_def).1
    }
}

/// The defender's status bits once the attack is resolved: on-hit effects
/// apply only to a defender that survived the primary attack.
pub open spec fn defender_bits_after(
    attacker: UnitInstance,
    defender: UnitInstance,
    attacker_def: UnitDefinition,
    defender_def: UnitDefinition,
) -> u32 {
    if hp_after_preemption(attacker, defender, attacker_def, defender_def) <= 0
        || defender_hp_after(attacker, defender, attacker_def, defender_def) <= 0 {
        defender.statuses.spec_bits()
    } else {
        defender.statuses.spec_bits() | on_hit_bits(attacker_def.trait_seq())
    }
}

/// Whether resolving the attack stays within `i64` at every step and never
/// divides by zero.
pub open spec fn resolve_defined(
    attacker: UnitInstance,
    defender: UnitInstance,
    attacker_def: UnitDefinition,
    defender_def: UnitDefinition,
) -> bool {
    let h = hp_after_preemption(attacker, defender, attacker_def, defender_def);
    let (to_attacker, to_defender) = primary_outcome(attacker, defender, attacker_def, defender_def);
    &&& traits_act_defined(defender_def.trait_seq().len(), attacker, defender, attacker_def, defender_def)
    &&& h > 0 ==> {
        &&& fight_defined(preempted(attacker, defender, attacker_def, defender_def), defender, attacker_def, defender_def)
        &&& fits_i64(defender.hp - to_defender)
        &&& (defender.hp - to_defender > 0 && !spec_retaliation_suppressed(attacker_def, defender_def))
            ==> fits_i64(h - to_attacker)
    }
}

proof fn lemma_hp_after_traits_fits(
    k: nat,
    attacker: UnitInstance,
    defender: UnitInstance,
    attacker_def: UnitDefinition,
    defender_def: UnitDefinition,
)
    requires
        k <= defender_def.trait_seq().len(),
        traits_act_defined(k, attacker, defender, attacker_def, defender_def),
    ensures
        fits_i64(hp_after_traits(k, attacker, defender, attacker_def, defender_def)),
    decreases k,
{
    if k > 0 {
        lemma_hp_after_traits_fits((k - 1) as nat, attacker, defender, attacker_def, defender_def);
    }
}

proof fn lemma_traits_act_defined_prefix(
    k: nat,
    n: nat,
    attacker: UnitInstance,
    defender: UnitInstance,
    attacker_def: UnitDefinition,
    defender_def: UnitDefinition,
)
    requires
        k <= n,
        traits_act_defined(n, attacker, defender, attacker_def, defender_def),
    ensures
        traits_act_defined(k, attacker, defender, attacker_def, defender_def),
    decreases n - k,
{
    if k < n {
        lemma_traits_act_defined_prefix((k + 1) as nat, n, attacker, defender, attacker_def, defender_def);
    }
}

/// Lets the defender's traits act before the attack: each
/// `PreemptiveRetaliation` strikes the attacker once. Returns the damage dealt.
fn before_attack(
    attacker: &mut UnitInstance,
    defender: &UnitInstance,
    attacker_def: &UnitDefinition,
    defender_def: &UnitDefinition,
) -> (pre_damage: i64)
    requires
        traits_act_defined(defender_def.trait_seq().len(), *old(attacker), *defender, *attacker_def, *defender_def),
    ensures
        final(attacker).unit_id == old(attacker).unit_id,
        final(attacker).statuses == old(attacker).statuses,
        final(attacker).hp == hp_after_preemption(*old(attacker), *defender, *attacker_def, *defender_def),
        pre_damage == old(attacker).hp - final(attacker).hp,
{
    let ghost a0 = *attacker;
    let n = traits_len(&defender_def.traits);
    let mut pre_damage = 0i64;
    let mut i: usize = 0;
    while i < n
        invariant
            n == defender_def.trait_seq().len(),
            i <= n,
            traits_act_defined(n as nat, a0, *defender, *attacker_def, *defender_def),
            attacker.unit_id == a0.unit_id,
            attacker.statuses == a0.statuses,
            attacker.hp == hp_after_traits(i as nat, a0, *defender, *attacker_def, *defender_def),
            pre_damage == a0.hp - attacker.hp,
        decreases n - i,
    {
        proof {
            lemma_traits_act_defined_prefix((i + 1) as nat, n as nat, a0, *defender, *attacker_def, *defender_def);
        }
        let t = traits_get(&defender_def.traits, i);
        match t {
            TraitId::PreemptiveRetaliation => {
                let result = calculate_damage(defender, attacker, defender_def, attacker_def);
                attacker.hp = attacker.hp - result.damage_to_defender;
                pre_damage = pre_damage + result.damage_to_defender;
            },
            _ => {},
        }
        i = i + 1;
    }
    pre_damage
}

/// Applies the attacker's on-hit effects to the defender.
fn after_attack(attacker_def: &UnitDefinition, defender: &mut UnitInstance)
    ensures
        final(defender).unit_id == old(defender).unit_id,
        final(defender).hp == old(defender).hp,
        final(defender).statuses.spec_bits() == old(defender).statuses.spec_bits() | on_hit_bits(
            attacker_def.trait_seq(),
        ),
{
    let ghost d0 = *defender;
    let ghost traits = attacker_def.trait_seq();
    let n = traits_len(&attacker_def.traits);
    let mut i: usize = 0;
    proof {
        let x = d0.statuses.spec_bits();
        assert(traits.take(0) =~= Seq::<TraitId>::empty());
        assert(x | (0u32 | 0u32) == x) by (bit_vector);
    }
    while i < n
        invariant
            n == traits.len(),
            traits == attacker_def.trait_seq(),
            i <= n,
            defender.unit_id == d0.unit_id,
            defender.hp == d0.hp,
            defender.statuses.spec_bits() == d0.statuses.spec_bits() | on_hit_bits(traits.take(i as int)),
        decreases n - i,
    {
        let t = traits_get(&attacker_def.traits, i);
        let ghost before = defender.statuses.spec_bits();
        let ghost x = d0.statuses.spec_bits();
        let ghost p: u32 = if traits.take(i as int).contains(TraitId::PoisonOnHit) { 1 } else { 0 };
        let ghost f: u32 = if traits.take(i as int).contains(TraitId::FreezeOnHit) { 2 } else { 0 };
        assert(traits.take(i + 1) == traits.take(i as int).push(t));
        match t {
            TraitId::PoisonOnHit => {
                defender.statuses.insert(StatusFlags::poisoned());
                assert((x | (p | f)) | 1u32 == x | (1u32 | f)) by (bit_vector)
                    requires p == 0u32 || p == 1u32;
                assert(traits.take(i + 1)[i as int] == t);
            },
            TraitId::FreezeOnHit => {
                defender.statuses.insert(StatusFlags::frozen());
                assert((x | (p | f)) | 2u32 == x | (p | 2u32)) by (bit_vector)
                    requires f == 0u32 || f == 2u32;
                assert(traits.take(i + 1)[i as int] == t);
            },
            _ => {},
        }
        proof {
            let prefix = traits.take(i as int);
            let next = traits.take(i + 1);
            assert forall|u: TraitId| u != t implies (next.contains(u) == prefix.contains(u)) by {
                if next.contains(u) {
                    let j = choose|j: int| 0 <= j < next.len() && #[trigger] next[j] == u;
                    assert(prefix[j] == u);
                }
                if prefix.contains(u) {
                    let j = choose|j: int| 0 <= j < prefix.len() && #[trigger] prefix[j] == u;
                    assert(next[j] == u);
                }
            }
        }
        i = i + 1;
    }
    assert(traits.take(n as int) == traits);
}

/// Whether retaliation is withheld for this pair of units.
fn retaliation_suppressed(attacker_def: &UnitDefinition, defender_def: &UnitDefinition) -> (r: bool)
    ensures
        r == spec_retaliation_suppressed(*attacker_def, *defender_def),
{
    attacker_def.traits.contains(TraitId::NoRetaliationTaken) || !defender_def.traits.contains(
        TraitId::Retaliates,
    )
}

/// Resolves one attack of `attacker` on `defender`.
///
/// The defender's `PreemptiveRetaliation` traits strike first; an attacker left
/// with no hit points does not attack. Otherwise the primary attack damages the
/// defender; a defender left with no hit points neither takes on-hit effects
/// nor retaliates. A surviving defender takes the attacker's on-hit effects,
/// then retaliates unless retaliation is withheld.
pub fn resolve_attack(
    attacker: &mut UnitInstance,
    defender: &mut UnitInstance,
    attacker_def: &UnitDefinition,
    defender_def: &UnitDefinition,
)
    requires
        resolve_defined(*old(attacker), *old(defender), *attacker_def, *defender_def),
    ensures
        final(attacker).unit_id == old(attacker).unit_id,
        final(attacker).statuses == old(attacker).statuses,
        final(attacker).hp == attacker_hp_after(*old(attacker), *old(defender), *attacker_def, *defender_def),
        final(defender).unit_id == old(defender).unit_id,
        final(defender).hp == defender_hp_after(*old(attacker), *old(defender), *attacker_def, *defender_def),
        final(defender).statuses.spec_bits() == defender_bits_after(
            *old(attacker),
            *old(defender),
            *attacker_def,
            *defender_def,
        ),
{
    let ghost a0 = *attacker;
    let ghost d0 = *defender;
    proof {
        lemma_hp_after_traits_fits(defender_def.trait_seq().len(), a0, d0, *attacker_def, *defender_def);
    }
    // Step 1: before_attack — defender's traits may act preemptively
    before_attack(attacker, defender, attacker_def, defender_def);
    if attacker.hp <= 0 {
        return;
    }
    assert(*attacker == preempted(a0, d0, *attacker_def, *defender_def));

    // Step 2: Primary attack
    let result = calculate_damage(attacker, defender, attacker_def, defender_def);
    defender.hp = defender.hp - result.damage_to_defender;

    // Step 3: Defender death check
    if defender.hp <= 0 {
        return;
    }

    // Step 4: after_attack — apply on-hit effects to defender
    after_attack(attacker_def, defender);

    // Step 5: Retaliation
    if !retaliation_suppressed(attacker_def, defender_def) {
        attacker.hp = attacker.hp - result.damage_to_attacker;
    }
}

/// Applying the on-hit effects of the same attacker a second time changes
/// nothing: the bits already hold every effect that the attacker adds.
pub proof fn lemma_on_hit_idempotent(bits: u32, traits: Seq<TraitId>)
    ensures
        (bits | on_hit_bits(traits)) | on_hit_bits(traits) == bits | on_hit_bits(traits),
{
    let h = on_hit_bits(traits);
    assert((bits | h) | h == bits | h) by (bit_vector);
}

/// Two rounds of on-hit effects by the same attacker leave the defender as
/// one round does: a defender `d1` that one round turned out of `d0`, and a
/// defender `d2` that a second round turned out of `d1`, are equal.
pub proof fn lemma_after_attack_twice(
    attacker_def: UnitDefinition,
    d0: UnitInstance,
    d1: UnitInstance,
    d2: UnitInstance,
)
    requires
        d1.unit_id == d0.unit_id,
        d1.hp == d0.hp,
        d1.statuses.spec_bits() == d0.statuses.spec_bits() | on_hit_bits(attacker_def.trait_seq()),
        d2.unit_id == d1.unit_id,
        d2.hp == d1.hp,
        d2.statuses.spec_bits() == d1.statuses.spec_bits() | on_hit_bits(attacker_def.trait_seq()),
    ensures
        d2 == d1,
{
    lemma_on_hit_idempotent(d0.statuses.spec_bits(), attacker_def.trait_seq());
    lemma_bits_determine_set(d2.statuses, d1.statuses);
}

/// An attacker that the preemptive strikes leave without hit points does not
/// attack: the defender keeps its hit points and its status effects.
pub proof fn lemma_preempted_attacker_deals_nothing(
    attacker: UnitInstance,
    defender: UnitInstance,
    attacker_def: UnitDefinition,
    defender_def: UnitDefinition,
)
    requires
        hp_after_preemption(attacker, defender, attacker_def, defender_def) <= 0,
    ensures
        defender_hp_after(attacker, defender, attacker_def, defender_def) == defender.hp,
        defender_bits_after(attacker, defender, attacker_def, defender_def) == defender.statuses.spec_bits(),
        attacker_hp_after(attacker, defender, attacker_def, defender_def) == hp_after_preemption(
            attacker,
            defender,
            attacker_def,
            defender_def,
        ),
{
}

/// A defender that the primary attack leaves without hit points neither takes
/// on-hit effects nor retaliates.
pub proof fn lemma_killed_defender_is_inert(
    attacker: UnitInstance,
    defender: UnitInstance,
    attacker_def: UnitDefinition,
    defender_def: UnitDefinition,
)
    requires
        defender_hp_after(attacker, defender, attacker_def, defender_def) <= 0,
    ensures
        defender_bits_after(attacker, defender, attacker_def, defender_def) == defender.statuses.spec_bits(),
        attacker_hp_after(attacker, defender, attacker_def, defender_def) == hp_after_preemption(
            attacker,
            defender,
            attacker_def,
            defender_def,
        ),
{
}

/// When retaliation is withheld, the attacker takes no damage beyond the
/// preemptive strikes.
pub proof fn lemma_suppressed_retaliation(
    attacker: UnitInstance,
    defender: UnitInstance,
    attacker_def: UnitDefinition,
    defender_def: UnitDefinition,
)
    requires
        spec_retaliation_suppressed(attacker_def, defender_def),
    ensures
        attacker_hp_after(attacker, defender, attacker_def, defender_def) == hp_after_preemption(
            attacker,
            defender,
            attacker_def,
            defender_def,
        ),
{
}

proof fn lemma_no_preemption_prefix(
    k: nat,
    attacker: UnitInstance,
    defender: UnitInstance,
    attacker_def: UnitDefinition,
    defender_def: UnitDefinition,
)
    requires
        k <= defender_def.trait_seq().len(),
        !defender_def.trait_seq().contains(TraitId::PreemptiveRetaliation),
    ensures
        hp_after_traits(k, attacker, defender, attacker_def, defender_def) == attacker.hp,
    decreases k,
{
    if k > 0 {
        lemma_no_preemption_prefix((k - 1) as nat, attacker, defender, attacker_def, defender_def);
        assert(defender_def.trait_seq()[k - 1] != TraitId::PreemptiveRetaliation);
    }
}

/// A defender without `PreemptiveRetaliation` does not strike first.
pub proof fn lemma_no_preemption(
    attacker: UnitInstance,
    defender: UnitInstance,
    attacker_def: UnitDefinition,
    defender_def: UnitDefinition,
)
    requires
        !defender_def.trait_seq().contains(TraitId::PreemptiveRetaliation),
    ensures
        hp_after_preemption(attacker, defender, attacker_def, defender_def) == attacker.hp,
{
    lemma_no_preemption_prefix(defender_def.trait_seq().len(), attacker, defender, attacker_def, defender_def);
}

/// An attack never removes a status effect from the defender.
pub proof fn lemma_statuses_only_grow(
    attacker: UnitInstance,
    defender: UnitInstance,
    attacker_def: UnitDefinition,
    defender_def: UnitDefinition,
)
    ensures
        ({
            let before = defender.statuses.spec_bits();
            let after = defender_bits_after(attacker, defender, attacker_def, defender_def);
            after & before == before
        }),
{
    let before = defender.statuses.spec_bits();
    let extra = on_hit_bits(attacker_def.trait_seq());
    assert((before | extra) & before == before) by (bit_vector);
    assert(before & before == before) by (bit_vector);
}

/// A defender that survives the primary attack is poisoned when the attacker
/// has `PoisonOnHit`, and frozen when it has `FreezeOnHit`.
pub proof fn lemma_on_hit_effects(
    attacker: UnitInstance,
    defender: UnitInstance,
    attacker_def: UnitDefinition,
    defender_def: UnitDefinition,
)
    requires
        hp_after_preemption(attacker, defender, attacker_def, defender_def) > 0,
        defender_hp_after(attacker, defender, attacker_def, defender_def) > 0,
    ensures
        ({
            let after = defender_bits_after(attacker, defender, attacker_def, defender_def);
            &&& attacker_def.trait_seq().contains(TraitId::PoisonOnHit) ==> after & 1 == 1
            &&& attacker_def.trait_seq().contains(TraitId::FreezeOnHit) ==> after & 2 == 2
            &&& !attacker_def.trait_seq().contains(TraitId::PoisonOnHit) && !attacker_def.trait_seq().contains(
                TraitId::FreezeOnHit,
            ) ==> after == defender.statuses.spec_bits()
        }),
{
    let before = defender.statuses.spec_bits();
    assert(forall|x: u32, f: u32| (f == 0u32 || f == 2u32) ==> (x | (1u32 | f)) & 1 == 1) by (bit_vector);
    assert(forall|x: u32, p: u32| (p == 0u32 || p == 1u32) ==> (x | (p | 2u32)) & 2 == 2) by (bit_vector);
    assert(before | (0u32 | 0u32) == before) by (bit_vector);
}

/// Hitting a surviving defender sets its `POISONED` bit exactly when it was
/// poisoned already or the attacker has `PoisonOnHit`, sets its `FROZEN` bit
/// exactly when it was frozen already or the attacker has `FreezeOnHit`, and
/// leaves every other bit as it was.
pub proof fn lemma_on_hit_bits_exact(
    attacker: UnitInstance,
    defender: UnitInstance,
    attacker_def: UnitDefinition,
    defender_def: UnitDefinition,
)
    requires
        hp_after_preemption(attacker, defender, attacker_def, defender_def) > 0,
        defender_hp_after(attacker, defender, attacker_def, defender_def) > 0,
    ensures
        ({
            let before = defender.statuses.spec_bits();
            let after = defender_bits_after(attacker, defender, attacker_def, defender_def);
            let traits = attacker_def.trait_seq();
            &&& (after & 1 == 1) == (before & 1 == 1 || traits.contains(TraitId::PoisonOnHit))
            &&& (after & 2 == 2) == (before & 2 == 2 || traits.contains(TraitId::FreezeOnHit))
            &&& after & 0xffff_fffcu32 == before & 0xffff_fffcu32
        }),
{
    let x = defender.statuses.spec_bits();
    let traits = attacker_def.trait_seq();
    let p: u32 = if traits.contains(TraitId::PoisonOnHit) { 1 } else { 0 };
    let f: u32 = if traits.contains(TraitId::FreezeOnHit) { 2 } else { 0 };
    assert(on_hit_bits(traits) == p | f);
    assert(((x | (p | f)) & 1 == 1) == (x & 1 == 1 || p == 1)) by (bit_vector)
        requires
            p == 0u32 || p == 1u32,
            f == 0u32 || f == 2u32,
    ;
    assert(((x | (p | f)) & 2 == 2) == (x & 2 == 2 || f == 2)) by (bit_vector)
        requires
            p == 0u32 || p == 1u32,
            f == 0u32 || f == 2u32,
    ;
    assert((x | (p | f)) & 0xffff_fffcu32 == x & 0xffff_fffcu32) by (bit_vector)
        requires
            p == 0u32 || p == 1u32,
            f == 0u32 || f == 2u32,
    ;
}

/// Who retaliates, and for how much: after the primary attack, the attacker
/// loses the primary attack's damage to the attacker exactly when it survived
/// the preemptive strikes, the defender survived the primary attack, the
/// defender's kind has `Retaliates` and the attacker's kind lacks
/// `NoRetaliationTaken`; otherwise it keeps the hit points that the
/// preemptive strikes left. The defender's status effects play no part.
pub proof fn lemma_retaliation_rule(
    attacker: UnitInstance,
    defender: UnitInstance,
    attacker_def: UnitDefinition,
    defender_def: UnitDefinition,
)
    requires
        resolve_defined(attacker, defender, attacker_def, defender_def),
    ensures
        ({
            let h = hp_after_preemption(attacker, defender, attacker_def, defender_def);
            let (to_attacker, to_defender) = damage_outcome(
                attacker_def.stats.attack as int,
                h,
                attacker_def.stats.max_hp as int,
                defender_def.stats.defense as int,
                defender.hp as int,
                defender.statuses.spec_defense_bonus(),
                defender_def.stats.max_hp as int,
            );
            let retaliates = h > 0 && defender.hp - to_defender > 0
                && defender_def.trait_seq().contains(TraitId::Retaliates)
                && !attacker_def.trait_seq().contains(TraitId::NoRetaliationTaken);
            &&& h > 0 ==> defender_hp_after(attacker, defender, attacker_def, defender_def)
                == defender.hp - to_defender
            &&& h <= 0 ==> defender_hp_after(attacker, defender, attacker_def, defender_def) == defender.hp
            &&& retaliates ==> attacker_hp_after(attacker, defender, attacker_def, defender_def) == h
                - to_attacker
            &&& !retaliates ==> attacker_hp_after(attacker, defender, attacker_def, defender_def) == h
        }),
{
    lemma_hp_after_traits_fits(defender_def.trait_seq().len(), attacker, defender, attacker_def, defender_def);
    let h = hp_after_preemption(attacker, defender, attacker_def, defender_def);
    assert(preempted(attacker, defender, attacker_def, defender_def).hp == h);
}

proof fn lemma_preemption_prefix_ignores_attacker_traits(
    k: nat,
    attacker: UnitInstance,
    defender: UnitInstance,
    attacker_def1: UnitDefinition,
    attacker_def2: UnitDefinition,
    defender_def: UnitDefinition,
)
    requires
        attacker_def1.stats == attacker_def2.stats,
    ensures
        hp_after_traits(k, attacker, defender, attacker_def1, defender_def) == hp_after_traits(
            k,
            attacker,
            defender,
            attacker_def2,
            defender_def,
        ),
    decreases k,
{
    if k > 0 {
        lemma_preemption_prefix_ignores_attacker_traits(
            (k - 1) as nat,
            attacker,
            defender,
            attacker_def1,
            attacker_def2,
            defender_def,
        );
    }
}

/// The preemptive strikes do not depend on the attacker's traits: two kinds of
/// attacker with the same statistics are struck alike, whatever traits each
/// has (`NoRetaliationTaken` among them).
pub proof fn lemma_preemption_ignores_attacker_traits(
    attacker: UnitInstance,
    defender: UnitInstance,
    attacker_def1: UnitDefinition,
    attacker_def2: UnitDefinition,
    defender_def: UnitDefinition,
)
    requires
        attacker_def1.stats == attacker_def2.stats,
    ensures
        hp_after_preemption(attacker, defender, attacker_def1, defender_def) == hp_after_preemption(
            attacker,
            defender,
            attacker_def2,
            defender_def,
        ),
{
    lemma_preemption_prefix_ignores_attacker_traits(
        defender_def.trait_seq().len(),
        attacker,
        defender,
        attacker_def1,
        attacker_def2,
        defender_def,
    );
}

proof fn lemma_single_preemption_prefix(
    k: nat,
    j: int,
    attacker: UnitInstance,
    defender: UnitInstance,
    attacker_def: UnitDefinition,
    defender_def: UnitDefinition,
)
    requires
        k <= defender_def.trait_seq().len(),
        0 <= j < defender_def.trait_seq().len(),
        defender_def.trait_seq()[j] == TraitId::PreemptiveRetaliation,
        forall|l: int|
            0 <= l < defender_def.trait_seq().len() && l != j ==> defender_def.trait_seq()[l]
                != TraitId::PreemptiveRetaliation,
    ensures
        hp_after_traits(k, attacker, defender, attacker_def, defender_def) == if k <= j {
            attacker.hp as int
        } else {
            attacker.hp - damage_outcome(
                defender_def.stats.attack as int,
                defender.hp as int,
                defender_def.stats.max_hp as int,
                attacker_def.stats.defense as int,
                attacker.hp as int,
                attacker.statuses.spec_defense_bonus(),
                attacker_def.stats.max_hp as int,
            ).1
        },
    decreases k,
{
    if k > 0 {
        lemma_single_preemption_prefix((k - 1) as nat, j, attacker, defender, attacker_def, defender_def);
    }
}

/// A defender with exactly one `PreemptiveRetaliation` strikes the attacker
/// once, before the attack, for the damage that the defender attacking the
/// attacker would deal to it; a strike that deals damage leaves the attacker
/// with fewer hit points.
pub proof fn lemma_single_preemptive_strike(
    j: int,
    attacker: UnitInstance,
    defender: UnitInstance,
    attacker_def: UnitDefinition,
    defender_def: UnitDefinition,
)
    requires
        0 <= j < defender_def.trait_seq().len(),
        defender_def.trait_seq()[j] == TraitId::PreemptiveRetaliation,
        forall|l: int|
            0 <= l < defender_def.trait_seq().len() && l != j ==> defender_def.trait_seq()[l]
                != TraitId::PreemptiveRetaliation,
    ensures
        ({
            let strike = damage_outcome(
                defender_def.stats.attack as int,
                defender.hp as int,
                defender_def.stats.max_hp as int,
                attacker_def.stats.defense as int,
                attacker.hp as int,
                attacker.statuses.spec_defense_bonus(),
                attacker_def.stats.max_hp as int,
            ).1;
            &&& hp_after_preemption(attacker, defender, attacker_def, defender_def) == attacker.hp - strike
            &&& strike > 0 ==> hp_after_preemption(attacker, defender, attacker_def, defender_def)
                < attacker.hp
        }),
{
    lemma_single_preemption_prefix(
        defender_def.trait_seq().len(),
        j,
        attacker,
        defender,
        attacker_def,
        defender_def,
    );
}

/// When neither kind of unit has negative statistics and the defender has no
/// negative hit points, the primary attack does not heal the defender and
/// retaliation does not heal the attacker.
pub proof fn lemma_attack_never_heals(
    attacker: UnitInstance,
    defender: UnitInstance,
    attacker_def: UnitDefinition,
    defender_def: UnitDefinition,
)
    requires
        resolve_defined(attacker, defender, attacker_def, defender_def),
        attacker_def.stats.attack >= 0,
        attacker_def.stats.max_hp > 0,
        defender_def.stats.defense >= 0,
        defender_def.stats.max_hp > 0,
        defender.hp >= 0,
    ensures
        defender_hp_after(attacker, defender, attacker_def, defender_def) <= defender.hp,
        attacker_hp_after(attacker, defender, attacker_def, defender_def) <= hp_after_preemption(
            attacker,
            defender,
            attacker_def,
            defender_def,
        ),
{
    let h = hp_after_preemption(attacker, defender, attacker_def, defender_def);
    lemma_hp_after_traits_fits(defender_def.trait_seq().len(), attacker, defender, attacker_def, defender_def);
    lemma_defense_bonus_values(defender.statuses);
    if h > 0 {
        assert(preempted(attacker, defender, attacker_def, defender_def).hp == h);
        lemma_damage_nonnegative(
            attacker_def.stats.attack as int,
            h,
            attacker_def.stats.max_hp as int,
            defender_def.stats.defense as int,
            defender.hp as int,
            defender.statuses.spec_defense_bonus(),
            defender_def.stats.max_hp as int,
        );
    }
}

} // verus!
