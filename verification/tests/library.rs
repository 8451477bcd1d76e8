use combat_core::data::loader::{Loader, UnitData, UnitId};
use combat_core::data::stats::Stats;
use combat_core::data::trait_id::TraitId;
use combat_core::data::unit_definition::{TraitList, UnitDefinition};
use combat_core::engine::combat::resolve_attack;
use combat_core::engine::damage::calculate_damage;
use combat_core::state::battle_state::BattleState;
use combat_core::state::status_effect::StatusFlags;
use combat_core::state::unit_instance::UnitInstance;

fn def(id: usize, attack: i64, defense: i64, max_hp: i64, traits: &[TraitId]) -> UnitDefinition {
    UnitDefinition {
        id: UnitId(id),
        stats: Stats { attack, defense, max_hp, range: 1, cost: 1 },
        traits: TraitList::from_vec(traits.to_vec()),
    }
}

/// The damage formula written out with Rust's own operators.
fn reference_damage(attack: i64, a_hp: i64, a_max: i64, defense: i64, d_hp: i64, bonus: i64, d_max: i64) -> (i64, i64) {
    let af = attack * a_hp * 1000 / a_max;
    let df = defense * d_hp * bonus / d_max;
    let total = af + df;
    let to_a = (df * defense * 45 / 10000 + (total / 2)) / total * 1000;
    let to_d = (af * attack * 45 / 10000 + (total / 2)) / total * 1000;
    (to_a, to_d)
}

#[test]
fn trait_names_parse_back() {
    let all = [
        ("Retaliates", TraitId::Retaliates),
        ("ConvertOnHit", TraitId::ConvertOnHit),
        ("PoisonOnHit", TraitId::PoisonOnHit),
        ("FreezeOnHit", TraitId::FreezeOnHit),
        ("NoRetaliationTaken", TraitId::NoRetaliationTaken),
        ("PreemptiveRetaliation", TraitId::PreemptiveRetaliation),
    ];
    for (name, t) in all {
        assert_eq!(name.parse::<TraitId>().unwrap(), t);
    }
}

#[test]
fn unknown_trait_name_is_refused() {
    let err = "retaliates".parse::<TraitId>().unwrap_err();
    assert_eq!(err.value(), "retaliates");
    let err = "".parse::<TraitId>().unwrap_err();
    assert_eq!(err.value(), "");
    let err = "Retaliates ".parse::<TraitId>().unwrap_err();
    assert_eq!(err.value(), "Retaliates ");
}

#[test]
fn defense_bonus_table() {
    assert_eq!(StatusFlags::empty().defense_bonus(), 1000);
    assert_eq!(StatusFlags::fortified().defense_bonus(), 1500);
    assert_eq!(StatusFlags::walled().defense_bonus(), 4000);
    assert_eq!(StatusFlags::frozen().defense_bonus(), 1000);
    assert_eq!(StatusFlags::veteran().defense_bonus(), 1000);
    assert_eq!(StatusFlags::poisoned().defense_bonus(), 500);
    // whole-set matching: a set that holds more than FORTIFIED gets the default
    assert_eq!(StatusFlags::fortified().union(StatusFlags::veteran()).defense_bonus(), 1000);
}

#[test]
fn poisoned_units_always_get_half_defense() {
    let p = StatusFlags::poisoned();
    assert_eq!(p.union(StatusFlags::fortified()).defense_bonus(), 500);
    assert_eq!(p.union(StatusFlags::walled()).defense_bonus(), 500);
    assert_eq!(p.union(StatusFlags::frozen()).defense_bonus(), 500);
}

#[test]
fn status_insert_and_contains() {
    let mut s = StatusFlags::empty();
    assert_eq!(s.bits(), 0);
    assert!(!s.contains(StatusFlags::poisoned()));
    s.insert(StatusFlags::poisoned());
    assert!(s.contains(StatusFlags::poisoned()));
    assert!(!s.contains(StatusFlags::frozen()));
    s.insert(StatusFlags::frozen());
    assert!(s.contains(StatusFlags::poisoned()));
    assert!(s.contains(StatusFlags::frozen()));
    assert_eq!(s.bits(), 3);
    assert_eq!(StatusFlags::veteran().bits(), 4);
    assert_eq!(StatusFlags::fortified().bits(), 8);
    assert_eq!(StatusFlags::walled().bits(), 16);
    assert!(s.contains(StatusFlags::empty()));
}

#[test]
fn unit_instance_constructors() {
    let a = UnitInstance::new(UnitId(3), 42, StatusFlags::walled());
    assert_eq!(a.unit_id, UnitId(3));
    assert_eq!(a.hp, 42);
    assert_eq!(a.statuses, StatusFlags::walled());
    let b = UnitInstance::new_no_status(UnitId(4), 7);
    assert_eq!(b.unit_id, UnitId(4));
    assert_eq!(b.hp, 7);
    assert_eq!(b.statuses, StatusFlags::empty());
    let c = UnitInstance::new_10_hp(UnitId(5));
    assert_eq!(c.unit_id, UnitId(5));
    assert_eq!(c.hp, 10000);
    assert_eq!(c.statuses, StatusFlags::empty());
}

#[test]
fn battle_state_holds_both_sides() {
    let state = BattleState {
        attackers: vec![UnitInstance::new_10_hp(UnitId(0))],
        defenders: vec![UnitInstance::new_10_hp(UnitId(1)), UnitInstance::new_10_hp(UnitId(2))],
    };
    assert_eq!(state.attackers.len(), 1);
    assert_eq!(state.defenders[1].unit_id, UnitId(2));
}

#[test]
fn loader_refuses_a_missing_file() {
    match Loader::new("missing.toml", false) {
        Ok(_) => panic!("a missing file must be refused"),
        Err(err) => assert_eq!(err.file_path, "missing.toml"),
    }
    let loader = Loader::new("unit_data.toml", true).unwrap();
    assert_eq!(loader.data_path(), "unit_data.toml");
}

fn data(attack: i64, traits: &[TraitId]) -> UnitData {
    UnitData { attack, defense: attack + 1, hp: 10, range: 2, cost: 3, traits: traits.to_vec() }
}

#[test]
fn load_numbers_units_in_file_order() {
    let loader = Loader::new("unit_data.toml", true).unwrap();
    let registry = loader.load(vec![
        ("Warrior".to_string(), data(2000, &[TraitId::Retaliates])),
        ("Archer".to_string(), data(1000, &[])),
        ("Jelly".to_string(), data(500, &[TraitId::PreemptiveRetaliation, TraitId::Retaliates])),
    ]);
    assert_eq!(registry.definitions.len(), 3);
    for (i, name) in ["Warrior", "Archer", "Jelly"].iter().enumerate() {
        let id = registry.id_of(name).unwrap();
        assert_eq!(id, UnitId(i));
        assert_eq!(registry.definitions[id.0].id, id);
    }
    let archer = &registry.definitions[1];
    assert_eq!(archer.stats.attack, 1000);
    assert_eq!(archer.stats.defense, 1001);
    assert_eq!(archer.stats.max_hp, 10);
    assert_eq!(archer.stats.range, 2);
    assert_eq!(archer.stats.cost, 3);
    assert!(!archer.traits.contains(TraitId::Retaliates));
    let jelly = &registry.definitions[2];
    assert!(jelly.traits.contains(TraitId::PreemptiveRetaliation));
    assert!(jelly.traits.contains(TraitId::Retaliates));
    assert!(!jelly.traits.contains(TraitId::PoisonOnHit));
    assert_eq!(registry.id_of("Dagger"), None);
    assert_eq!(registry.id_of("warrior"), None);
}

#[test]
fn lookup_takes_the_last_entry_of_a_name() {
    let loader = Loader::new("unit_data.toml", true).unwrap();
    let registry = loader.load(vec![
        ("Warrior".to_string(), data(2000, &[])),
        ("Archer".to_string(), data(1000, &[])),
        ("Warrior".to_string(), data(3000, &[])),
    ]);
    assert_eq!(registry.id_of("Warrior"), Some(UnitId(2)));
    assert_eq!(registry.id_of("Archer"), Some(UnitId(1)));
    assert_eq!(registry.definitions.len(), 3);
    assert_eq!(registry.name_to_id.len(), 2);
    assert_eq!(registry.definitions[0].stats.attack, 2000);
    assert_eq!(registry.definitions[2].stats.attack, 3000);
}

#[test]
fn trait_list_holds_its_items() {
    let list = TraitList::from_vec(vec![TraitId::FreezeOnHit, TraitId::ConvertOnHit, TraitId::Retaliates, TraitId::PoisonOnHit, TraitId::NoRetaliationTaken]);
    assert!(list.contains(TraitId::FreezeOnHit));
    assert!(list.contains(TraitId::NoRetaliationTaken));
    assert!(!list.contains(TraitId::PreemptiveRetaliation));
    let empty = TraitList::from_vec(Vec::new());
    assert!(!empty.contains(TraitId::Retaliates));
}

#[test]
fn damage_is_whole_hit_points() {
    let a = def(0, 2300, 1700, 13, &[]);
    let d = def(1, 1900, 2100, 11, &[]);
    for hp_a in [1, 3, 7, 13, 1000] {
        for hp_d in [1, 2, 9, 11, 777] {
            let r = calculate_damage(
                &UnitInstance::new(UnitId(0), hp_a, StatusFlags::empty()),
                &UnitInstance::new(UnitId(1), hp_d, StatusFlags::walled()),
                &a,
                &d,
            );
            assert_eq!(r.damage_to_attacker % 1000, 0);
            assert_eq!(r.damage_to_defender % 1000, 0);
            assert!(r.damage_to_attacker >= 0 && r.damage_to_defender >= 0);
        }
    }
}

#[test]
fn damage_matches_rust_division_with_negative_values() {
    let cases = [
        (2000, 10, -10, 2000, 20, 1000, 10),
        (2000, -7, 10, 1500, 10, 1500, -3),
        (-2500, 10, 15, 1000, -4, 500, 15),
        (3000, 9, -7, -1000, 5, 4000, -11),
    ];
    for (attack, a_hp, a_max, defense, d_hp, bonus, d_max) in cases {
        let status = match bonus {
            1000 => StatusFlags::empty(),
            1500 => StatusFlags::fortified(),
            4000 => StatusFlags::walled(),
            _ => StatusFlags::poisoned(),
        };
        assert_eq!(status.defense_bonus(), bonus);
        let r = calculate_damage(
            &UnitInstance::new(UnitId(0), a_hp, StatusFlags::empty()),
            &UnitInstance::new(UnitId(1), d_hp, status),
            &def(0, attack, 0, a_max, &[]),
            &def(1, 0, defense, d_max, &[]),
        );
        assert_eq!(
            (r.damage_to_attacker, r.damage_to_defender),
            reference_damage(attack, a_hp, a_max, defense, d_hp, bonus, d_max)
        );
    }
}

#[test]
fn preemptive_strikes_apply_one_after_another() {
    let attacker_def = def(0, 2000, 2000, 10000, &[]);
    let defender_def = def(
        1,
        2000,
        2000,
        10000,
        &[TraitId::PreemptiveRetaliation, TraitId::PreemptiveRetaliation],
    );
    let mut attacker = UnitInstance::new_10_hp(UnitId(0));
    let mut defender = UnitInstance::new_10_hp(UnitId(1));

    let first = calculate_damage(&defender, &attacker, &defender_def, &attacker_def).damage_to_defender;
    let after_first = UnitInstance::new(UnitId(0), 10000 - first, StatusFlags::empty());
    let second = calculate_damage(&defender, &after_first, &defender_def, &attacker_def).damage_to_defender;
    let after_second = 10000 - first - second;
    let primary = calculate_damage(
        &UnitInstance::new(UnitId(0), after_second, StatusFlags::empty()),
        &defender,
        &attacker_def,
        &defender_def,
    );

    resolve_attack(&mut attacker, &mut defender, &attacker_def, &defender_def);

    assert!(first > 0 && second > 0);
    assert_eq!(attacker.hp, after_second);
    assert_eq!(defender.hp, 10000 - primary.damage_to_defender);
}

#[test]
fn surviving_defender_keeps_its_statuses_and_gains_on_hit_effects() {
    let attacker_def = def(0, 2000, 2000, 10, &[TraitId::PoisonOnHit, TraitId::FreezeOnHit, TraitId::Retaliates]);
    let defender_def = def(1, 2000, 2000, 10, &[TraitId::Retaliates]);
    let mut attacker = UnitInstance::new(UnitId(0), 10000, StatusFlags::empty());
    let mut defender = UnitInstance::new(UnitId(1), 10000, StatusFlags::veteran());

    let primary = calculate_damage(&attacker, &defender, &attacker_def, &defender_def);
    resolve_attack(&mut attacker, &mut defender, &attacker_def, &defender_def);

    assert_eq!(defender.hp, 10000 - primary.damage_to_defender);
    assert!(defender.hp > 0);
    assert!(defender.statuses.contains(StatusFlags::veteran()));
    assert!(defender.statuses.contains(StatusFlags::poisoned()));
    assert!(defender.statuses.contains(StatusFlags::frozen()));
    assert_eq!(defender.statuses.bits(), 7);
    assert_eq!(attacker.hp, 10000 - primary.damage_to_attacker);
    assert_eq!(attacker.unit_id, UnitId(0));
    assert_eq!(defender.unit_id, UnitId(1));
}

#[test]
fn attack_without_effects_leaves_statuses_alone() {
    let attacker_def = def(0, 2000, 2000, 10, &[TraitId::ConvertOnHit]);
    let defender_def = def(1, 2000, 2000, 10, &[]);
    let mut attacker = UnitInstance::new(UnitId(0), 10000, StatusFlags::walled());
    let mut defender = UnitInstance::new(UnitId(1), 10000, StatusFlags::fortified());

    resolve_attack(&mut attacker, &mut defender, &attacker_def, &defender_def);

    assert!(defender.hp > 0 && defender.hp < 10000);
    assert_eq!(defender.statuses, StatusFlags::fortified());
    assert_eq!(attacker.statuses, StatusFlags::walled());
    assert_eq!(attacker.hp, 10000);
}

#[test]
fn error_messages_name_the_input() {
    match Loader::new("gone.toml", false) {
        Ok(_) => panic!("a missing file must be refused"),
        Err(err) => assert_eq!(err.message(), "unable to find unit data file at path \"gone.toml\""),
    }
    let err = "Healer".parse::<TraitId>().unwrap_err();
    assert_eq!(err.message(), "unable to parse string \"Healer\" into a TraitId");
}

#[test]
fn on_hit_effects_twice_change_nothing_more() {
    let attacker_def = def(0, 100, 2000, 10, &[TraitId::PoisonOnHit, TraitId::FreezeOnHit]);
    let defender_def = def(1, 2000, 2000, 10, &[]);
    let mut attacker = UnitInstance::new(UnitId(0), 10000, StatusFlags::empty());
    let mut defender = UnitInstance::new(UnitId(1), 10000, StatusFlags::veteran());
    resolve_attack(&mut attacker, &mut defender, &attacker_def, &defender_def);
    let once = defender.statuses;
    resolve_attack(&mut attacker, &mut defender, &attacker_def, &defender_def);
    assert!(defender.hp > 0);
    assert_eq!(defender.statuses, once);
    assert_eq!(once.bits(), 7);
}

#[test]
fn status_flags_show_their_names() {
    assert_eq!(format!("{:?}", StatusFlags::empty()), "StatusFlags(0x0)");
    assert_eq!(format!("{:?}", StatusFlags::walled()), "StatusFlags(WALLED)");
    let s = StatusFlags::frozen().union(StatusFlags::poisoned()).union(StatusFlags::fortified());
    assert_eq!(format!("{:?}", s), "StatusFlags(POISONED | FROZEN | FORTIFIED)");
    assert_eq!(format!("{:#?}", s), "StatusFlags(\n    POISONED | FROZEN | FORTIFIED,\n)");
    assert_eq!(s.flag_text(), "POISONED | FROZEN | FORTIFIED");
    let all = s.union(StatusFlags::veteran()).union(StatusFlags::walled());
    assert_eq!(all.flag_text(), "POISONED | FROZEN | VETERAN | FORTIFIED | WALLED");
    assert_eq!(StatusFlags::empty().flag_text(), "0x0");
}

#[test]
fn definitions_and_registry_show_as_before() {
    let loader = Loader::new("unit_data.toml", true).unwrap();
    let registry = loader.load(vec![(
        "Warrior".to_string(),
        UnitData { attack: 1, defense: 2, hp: 3, range: 4, cost: 5, traits: vec![TraitId::Retaliates, TraitId::PoisonOnHit] },
    )]);
    assert_eq!(
        format!("{:?}", registry.definitions[0]),
        "UnitDefinition { id: UnitId(0), stats: Stats { attack: 1, defense: 2, max_hp: 3, range: 4, cost: 5 }, traits: [Retaliates, PoisonOnHit] }"
    );
    assert_eq!(
        format!("{:?}", registry),
        "UnitRegistry { definitions: [UnitDefinition { id: UnitId(0), stats: Stats { attack: 1, defense: 2, max_hp: 3, range: 4, cost: 5 }, traits: [Retaliates, PoisonOnHit] }], name_to_id: {\"Warrior\": UnitId(0)} }"
    );
    let unit = UnitInstance::new(UnitId(0), 10, StatusFlags::frozen());
    assert_eq!(format!("{:?}", unit), "UnitInstance { unit_id: UnitId(0), hp: 10, statuses: StatusFlags(FROZEN) }");
}

#[test]
fn damage_to_defender_does_not_grow_with_defense() {
    let a = def(0, 2000, 2000, 10, &[]);
    let d = def(1, 2000, 2000, 10, &[]);
    let attacker = UnitInstance::new(UnitId(0), 10, StatusFlags::empty());
    let bonuses = [StatusFlags::poisoned(), StatusFlags::empty(), StatusFlags::fortified(), StatusFlags::walled()];
    for hp in [1, 2, 5, 10, 40] {
        let mut last = i64::MAX;
        for flags in bonuses {
            let r = calculate_damage(&attacker, &UnitInstance::new(UnitId(1), hp, flags), &a, &d);
            assert!(r.damage_to_defender <= last);
            last = r.damage_to_defender;
        }
    }
    for flags in bonuses {
        let mut last = i64::MAX;
        for hp in [1, 2, 5, 10, 40] {
            let r = calculate_damage(&attacker, &UnitInstance::new(UnitId(1), hp, flags), &a, &d);
            assert!(r.damage_to_defender <= last);
            last = r.damage_to_defender;
        }
    }
    let weak = calculate_damage(&attacker, &UnitInstance::new(UnitId(1), 2, StatusFlags::empty()), &a, &d);
    let strong = calculate_damage(&attacker, &UnitInstance::new(UnitId(1), 10, StatusFlags::walled()), &a, &d);
    assert_eq!(weak.damage_to_defender, 8000);
    assert_eq!(strong.damage_to_defender, 2000);
}
