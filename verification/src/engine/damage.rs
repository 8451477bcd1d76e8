use vstd::prelude::*;

use crate::data::unit_definition::UnitDefinition;
use crate::state::unit_instance::UnitInstance;

verus! {

/// Whether `x` is a value of `i64`.
pub open spec fn fits_i64(x: int) -> bool {
    i64::MIN <= x <= i64::MAX
}

/// Integer division that rounds the quotient toward zero, as `/` on `i64` does.
pub open spec fn trunc_div(a: int, b: int) -> int {
    if a >= 0 {
        if b > 0 { a / b } else { -(a / (-b)) }
    } else {
        if b > 0 { -((-a) / b) } else { (-a) / (-b) }
    }
}

/// Whether `a / b` is defined on `i64`: the divisor is not zero and the
/// quotient does not overflow.
pub open spec fn div_defined(a: int, b: int) -> bool {
    b != 0 && fits_i64(trunc_div(a, b))
}

/// `a / b` on `i64`.
fn div_toward_zero(a: i64, b: i64) -> (r: i64)
    requires
        div_defined(a as int, b as int),
    ensures
        r == trunc_div(a as int, b as int),
{
    if b > 0 {
        a / b
    } else if b == i64::MIN {
        if a == i64::MIN {
            1
        } else {
            0
        }
    } else {
        let q = a / (-b);
        -q
    }
}

/// The force of the attacking side: attack scaled by the share of hit points
/// left (1000 times the fixed point scale).
pub open spec fn attack_force(attack: int, hp: int, max_hp: int) -> int {
    trunc_div(attack * hp * 1000, max_hp)
}

/// The force of the defending side: defense scaled by the share of hit points
/// left and by the defense multiplier.
pub open spec fn defense_force(defense: int, hp: int, bonus: int, max_hp: int) -> int {
    trunc_div(defense * hp * bonus, max_hp)
}

/// The damage that one side deals, rounded to the nearest whole hit point and
/// scaled back to fixed point: `force * stat * 4.5 / total`.
pub open spec fn dealt(force: int, stat: int, total: int) -> int {
    trunc_div(trunc_div(force * stat * 45, 10000) + trunc_div(total, 2), total) * 1000
}

/// Whether every step of `dealt` stays within `i64` and divides by a non-zero value.
pub open spec fn dealt_defined(force: int, stat: int, total: int) -> bool {
    &&& fits_i64(force * stat)
    &&& fits_i64(force * stat * 45)
    &&& fits_i64(trunc_div(force * stat * 45, 10000) + trunc_div(total, 2))
    &&& div_defined(trunc_div(force * stat * 45, 10000) + trunc_div(total, 2), total)
    &&& fits_i64(trunc_div(trunc_div(force * stat * 45, 10000) + trunc_div(total, 2), total) * 1000)
}

/// The outcome of a fight, as (damage to the attacker, damage to the defender).
pub open spec fn damage_outcome(
    attack: int,
    attacker_hp: int,
    attacker_max_hp: int,
    defense: int,
    defender_hp: int,
    bonus: int,
    defender_max_hp: int,
) -> (int, int) {
    let af = attack_force(attack, attacker_hp, attacker_max_hp);
    let df = defense_force(defense, defender_hp, bonus, defender_max_hp);
    (dealt(df, defense, af + df), dealt(af, attack, af + df))
}

/// Whether the computation of `damage_outcome` stays within `i64` at every
/// step and never divides by zero.
pub open spec fn damage_defined(
    attack: int,
    attacker_hp: int,
    attacker_max_hp: int,
    defense: int,
    defender_hp: int,
    bonus: int,
    defender_max_hp: int,
) -> bool {
    let af = attack_force(attack, attacker_hp, attacker_max_hp);
    let df = defense_force(defense, defender_hp, bonus, defender_max_hp);
    &&& fits_i64(attack * attacker_hp)
    &&& fits_i64(attack * attacker_hp * 1000)
    &&& div_defined(attack * attacker_hp * 1000, attacker_max_hp)
    &&& fits_i64(defense * defender_hp)
    &&& fits_i64(defense * defender_hp * bonus)
    &&& div_defined(defense * defender_hp * bonus, defender_max_hp)
    &&& fits_i64(af + df)
    &&& dealt_defined(df, defense, af + df)
    &&& dealt_defined(af, attack, af + df)
}

/// `damage_outcome` for an attacker and a defender of the given kinds.
pub open spec fn fight_outcome(
    attacker: UnitInstance,
    defender: UnitInstance,
    attacker_unit: UnitDefinition,
    defender_unit: UnitDefinition,
) -> (int, int) {
    damage_outcome(
        attacker_unit.stats.attack as int,
        attacker.hp as int,
        attacker_unit.stats.max_hp as int,
        defender_unit.stats.defense as int,
        defender.hp as int,
        defender.statuses.spec_defense_bonus(),
        defender_unit.stats.max_hp as int,
    )
}

/// `damage_defined` for an attacker and a defender of the given kinds.
pub open spec fn fight_defined(
    attacker: UnitInstance,
    defender: UnitInstance,
    attacker_unit: UnitDefinition,
    defender_unit: UnitDefinition,
) -> bool {
    damage_defined(
        attacker_unit.stats.attack as int,
        attacker.hp as int,
        attacker_unit.stats.max_hp as int,
        defender_unit.stats.defense as int,
        defender.hp as int,
        defender.statuses.spec_defense_bonus(),
        defender_unit.stats.max_hp as int,
    )
}

/// Every damage is a whole number of hit points.
pub proof fn lemma_damage_whole_hit_points(
    attack: int,
    attacker_hp: int,
    attacker_max_hp: int,
    defense: int,
    defender_hp: int,
    bonus: int,
    defender_max_hp: int,
)
    ensures
        ({
            let (to_attacker, to_defender) = damage_outcome(
                attack,
                attacker_hp,
                attacker_max_hp,
                defense,
                defender_hp,
                bonus,
                defender_max_hp,
            );
            to_attacker % 1000 == 0 && to_defender % 1000 == 0
        }),
{
    let af = attack_force(attack, attacker_hp, attacker_max_hp);
    let df = defense_force(defense, defender_hp, bonus, defender_max_hp);
    let q1 = trunc_div(trunc_div(df * defense * 45, 10000) + trunc_div(af + df, 2), af + df);
    let q2 = trunc_div(trunc_div(af * attack * 45, 10000) + trunc_div(af + df, 2), af + df);
    assert((q1 * 1000) % 1000 == 0) by (nonlinear_arith);
    assert((q2 * 1000) % 1000 == 0) by (nonlinear_arith);
}

proof fn lemma_nonneg_product(a: int, b: int, c: int)
    requires
        a >= 0,
        b >= 0,
        c >= 0,
    ensures
        a * b >= 0,
        a * b * c >= 0,
{
    assert(a * b >= 0) by (nonlinear_arith)
        requires
            a >= 0,
            b >= 0,
    ;
    assert(a * b * c >= 0) by (nonlinear_arith)
        requires
            a * b >= 0,
            c >= 0,
    ;
}

/// When neither side has negative statistics or hit points, no side takes
/// negative damage: a fight never heals.
pub proof fn lemma_damage_nonnegative(
    attack: int,
    attacker_hp: int,
    attacker_max_hp: int,
    defense: int,
    defender_hp: int,
    bonus: int,
    defender_max_hp: int,
)
    requires
        attack >= 0,
        attacker_hp >= 0,
        attacker_max_hp > 0,
        defense >= 0,
        defender_hp >= 0,
        bonus >= 0,
        defender_max_hp > 0,
        damage_defined(attack, attacker_hp, attacker_max_hp, defense, defender_hp, bonus, defender_max_hp),
    ensures
        ({
            let (to_attacker, to_defender) = damage_outcome(
                attack,
                attacker_hp,
                attacker_max_hp,
                defense,
                defender_hp,
                bonus,
                defender_max_hp,
            );
            to_attacker >= 0 && to_defender >= 0
        }),
{
    lemma_nonneg_product(attack, attacker_hp, 1000);
    lemma_nonneg_product(defense, defender_hp, bonus);
    let af = attack_force(attack, attacker_hp, attacker_max_hp);
    let df = defense_force(defense, defender_hp, bonus, defender_max_hp);
    assert(af >= 0 && df >= 0);
    assert(af + df > 0);
    lemma_nonneg_product(df, defense, 45);
    lemma_nonneg_product(af, attack, 45);
    let q1 = trunc_div(trunc_div(df * defense * 45, 10000) + trunc_div(af + df, 2), af + df);
    let q2 = trunc_div(trunc_div(af * attack * 45, 10000) + trunc_div(af + df, 2), af + df);
    assert(q1 >= 0 && q2 >= 0);
    lemma_nonneg_product(q1, 1000, 1);
    lemma_nonneg_product(q2, 1000, 1);
}

/// Rounding `a / t` to the nearest integer, as `(a + t / 2) / t`, does not
/// grow when `t` grows.
proof fn lemma_rounded_share_antitone(a: int, t1: int, t2: int)
    requires
        a >= 0,
        0 < t1 <= t2,
    ensures
        (a + t2 / 2) / t2 <= (a + t1 / 2) / t1,
{
    let h1 = t1 / 2;
    let h2 = t2 / 2;
    let q1 = (a + h1) / t1;
    let q2 = (a + h2) / t2;
    assert(2 * h1 <= t1 <= 2 * h1 + 1);
    assert(2 * h2 <= t2);
    assert(q1 * t1 <= a + h1 < q1 * t1 + t1) by (nonlinear_arith)
        requires
            t1 > 0,
            q1 == (a + h1) / t1,
    ;
    assert(q2 * t2 <= a + h2) by (nonlinear_arith)
        requires
            t2 > 0,
            q2 == (a + h2) / t2,
    ;
    assert(q1 >= 0) by (nonlinear_arith)
        requires
            t1 > 0,
            a + h1 >= 0,
            q1 == (a + h1) / t1,
    ;
    assert(q2 <= q1) by (nonlinear_arith)
        requires
            q1 >= 0,
            0 < t1 <= t2,
            2 * h1 <= t1 <= 2 * h1 + 1,
            2 * h2 <= t2,
            q1 * t1 <= a + h1,
            a + h1 < q1 * t1 + t1,
            q2 * t2 <= a + h2,
    ;
}

/// With no negative statistics or hit points, the damage that the defender
/// takes does not grow when the defender has more hit points or a larger
/// defense multiplier.
pub proof fn lemma_damage_to_defender_antitone(
    attack: int,
    attacker_hp: int,
    attacker_max_hp: int,
    defense: int,
    defender_hp1: int,
    bonus1: int,
    defender_hp2: int,
    bonus2: int,
    defender_max_hp: int,
)
    requires
        attack >= 0,
        attacker_hp >= 0,
        attacker_max_hp > 0,
        defense >= 0,
        0 <= defender_hp1 <= defender_hp2,
        0 <= bonus1 <= bonus2,
        defender_max_hp > 0,
        damage_defined(attack, attacker_hp, attacker_max_hp, defense, defender_hp1, bonus1, defender_max_hp),
        damage_defined(attack, attacker_hp, attacker_max_hp, defense, defender_hp2, bonus2, defender_max_hp),
    ensures
        damage_outcome(attack, attacker_hp, attacker_max_hp, defense, defender_hp2, bonus2, defender_max_hp).1
            <= damage_outcome(attack, attacker_hp, attacker_max_hp, defense, defender_hp1, bonus1, defender_max_hp).1,
{
    lemma_nonneg_product(attack, attacker_hp, 1000);
    lemma_nonneg_product(defense, defender_hp1, bonus1);
    lemma_nonneg_product(defense, defender_hp2, bonus2);
    assert(defense * defender_hp1 * bonus1 <= defense * defender_hp2 * bonus2) by (nonlinear_arith)
        requires
            defense >= 0,
            0 <= defender_hp1 <= defender_hp2,
            0 <= bonus1 <= bonus2,
    ;
    let af = attack_force(attack, attacker_hp, attacker_max_hp);
    let df1 = defense_force(defense, defender_hp1, bonus1, defender_max_hp);
    let df2 = defense_force(defense, defender_hp2, bonus2, defender_max_hp);
    vstd::arithmetic::div_mod::lemma_div_is_ordered(
        defense * defender_hp1 * bonus1,
        defense * defender_hp2 * bonus2,
        defender_max_hp,
    );
    assert(af >= 0 && 0 <= df1 <= df2);
    assert(af + df1 > 0);
    lemma_nonneg_product(af, attack, 45);
    let a = trunc_div(af * attack * 45, 10000);
    assert(a >= 0);
    lemma_rounded_share_antitone(a, af + df1, af + df2);
    let q1 = trunc_div(a + trunc_div(af + df1, 2), af + df1);
    let q2 = trunc_div(a + trunc_div(af + df2, 2), af + df2);
    assert(q2 <= q1);
    assert(q2 * 1000 <= q1 * 1000);
}

/// The damage that `force` deals in a fight whose forces add up to `total`.
fn damage_share(force: i64, stat: i64, total: i64) -> (r: i64)
    requires
        dealt_defined(force as int, stat as int, total as int),
    ensures
        r == dealt(force as int, stat as int, total as int),
{
    let scaled = div_toward_zero(force * stat * 45, 10000);
    let half = div_toward_zero(total, 2);
    div_toward_zero(scaled + half, total) * 1000
}

/// The damage that an attack deals to both sides, in fixed point (1000 = 1 hit
/// point), each rounded to a whole hit point.
pub fn calculate_damage(
    attacker: &UnitInstance,
    defender: &UnitInstance,
    attacker_unit: &UnitDefinition,
    defender_unit: &UnitDefinition,
) -> (r: CombatResult)
    requires
        fight_defined(*attacker, *defender, *attacker_unit, *defender_unit),
    ensures
        (r.damage_to_attacker as int, r.damage_to_defender as int) == fight_outcome(
            *attacker,
            *defender,
            *attacker_unit,
            *defender_unit,
        ),
{
    let attacker_force = div_toward_zero(
        attacker_unit.stats.attack * attacker.hp * 1000,
        attacker_unit.stats.max_hp,
    );  // 1milx
    let defender_force = div_toward_zero(
        defender_unit.stats.defense  // 1000x
         * defender.hp  // 1milx
         * defender.statuses.defense_bonus(),  // 1bilx
        defender_unit.stats.max_hp,
    );  // 1milx

    let total_damage = attacker_force + defender_force;  // 1milx

    // rounded
    let damage_to_attacker = damage_share(defender_force, defender_unit.stats.defense, total_damage);
    let damage_to_defender = damage_share(attacker_force, attacker_unit.stats.attack, total_damage);

    CombatResult { damage_to_attacker, damage_to_defender }
}

/// The damage that an attack deals to each side.
#[derive(Debug, Clone, Copy, PartialEq, Eq, PartialOrd, Ord, Structural)]
pub struct CombatResult {
    pub damage_to_attacker: i64,
    pub damage_to_defender: i64,
}

} // verus!
