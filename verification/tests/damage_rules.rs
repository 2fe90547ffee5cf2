use combat_engine::combatant::{Combatant, Gender, Modifier, Stat};
use combat_engine::damage::DamageAspect;
use combat_engine::effects::{calculate_damage_value, process_damage, EffectSource};
use combat_engine::lifetime::Lifetime;
use combat_engine::math::Fraction;

fn fighter(hp: u32, hp_max: u32, stats: [u32; 7]) -> Combatant {
    Combatant {
        name: String::from("fighter"),
        gender: Gender::Male,
        hp,
        hp_max,
        stats: stats.to_vec(),
        modifiers: vec![vec![], vec![], vec![], vec![], vec![], vec![], vec![]],
        status_effects: vec![],
        actions: vec![0],
    }
}

#[test]
fn damage_below_defense_is_negated() {
    // Physical Defense 10, 8 raw physical damage: fully negated.
    let mut c = fighter(70, 100, [0, 0, 10, 0, 0, 0, 0]);
    process_damage(&mut c, DamageAspect::Physical, 8);
    assert_eq!(c.hp, 70);
}

#[test]
fn damage_at_defense_is_not_negated() {
    // Net damage is zero, but the hit is processed: hp loses 0.
    let mut c = fighter(70, 100, [0, 0, 10, 0, 0, 0, 0]);
    process_damage(&mut c, DamageAspect::Physical, 10);
    assert_eq!(c.hp, 70);
}

#[test]
fn absorption_above_hundred_heals() {
    // Physical Absorption 150, 40 net damage: heals min(hp_max - hp, 40 * 50 / 100) = 20.
    let mut c = fighter(30, 100, [0, 0, 10, 150, 0, 0, 0]);
    process_damage(&mut c, DamageAspect::Physical, 50);
    assert_eq!(c.hp, 50);
}

#[test]
fn absorption_healing_caps_at_full_health() {
    let mut c = fighter(90, 100, [0, 0, 10, 150, 0, 0, 0]);
    process_damage(&mut c, DamageAspect::Physical, 50);
    assert_eq!(c.hp, 100);
}

#[test]
fn absorption_zero_takes_full_net_damage() {
    // Absorption 0, 40 net damage: loses 40 * 100 / 100 = 40.
    let mut c = fighter(100, 100, [0, 0, 10, 0, 0, 0, 0]);
    process_damage(&mut c, DamageAspect::Physical, 50);
    assert_eq!(c.hp, 60);
}

#[test]
fn damage_saturates_at_zero_health() {
    let mut c = fighter(30, 100, [0, 0, 10, 0, 0, 0, 0]);
    process_damage(&mut c, DamageAspect::Physical, 50);
    assert_eq!(c.hp, 0);
}

#[test]
fn partial_absorption_scales_net_damage() {
    // Absorption 50: 40 net becomes 40 * 50 / 100 = 20.
    let mut c = fighter(100, 100, [0, 0, 10, 50, 0, 0, 0]);
    process_damage(&mut c, DamageAspect::Physical, 50);
    assert_eq!(c.hp, 80);
}

#[test]
fn fire_damage_reads_fire_stats() {
    // Fire Defense 5, Fire Absorption 0: 12 raw fire damage wounds by 7.
    let mut c = fighter(50, 100, [0, 0, 99, 150, 0, 5, 0]);
    process_damage(&mut c, DamageAspect::Fire, 12);
    assert_eq!(c.hp, 43);
}

#[test]
fn damage_value_from_other_source_uses_its_attack() {
    let target = fighter(50, 100, [0, 3, 0, 0, 0, 0, 0]);
    let source = fighter(50, 100, [0, 14, 0, 0, 0, 0, 0]);
    let dv = calculate_damage_value(
        &target,
        EffectSource::Other(&source),
        DamageAspect::Physical,
        Fraction { numerator: 1, denominator: 1 },
    );
    assert_eq!(dv, 14);
}

#[test]
fn damage_value_from_origin_uses_target_attack() {
    let target = fighter(50, 100, [0, 0, 0, 0, 9, 0, 0]);
    let dv = calculate_damage_value(
        &target,
        EffectSource::Origin,
        DamageAspect::Fire,
        Fraction { numerator: 2, denominator: 1 },
    );
    assert_eq!(dv, 18);
}

#[test]
fn damage_value_from_environment_is_one_scaled() {
    let target = fighter(50, 100, [0, 55, 0, 0, 0, 0, 0]);
    let dv = calculate_damage_value(
        &target,
        EffectSource::Environment,
        DamageAspect::Physical,
        Fraction { numerator: 3, denominator: 1 },
    );
    assert_eq!(dv, 3);
}

#[test]
fn scaling_truncates_toward_zero() {
    let f = Fraction { numerator: 1, denominator: 2 };
    assert_eq!(f.scale(7), 3);
    assert_eq!(f.scale(1), 0);
}

#[test]
fn scaling_clamps_huge_products() {
    let f = Fraction { numerator: u32::MAX, denominator: 1 };
    assert_eq!(f.scale(u32::MAX), u32::MAX);
}

#[test]
fn modifiers_shift_the_effective_stat() {
    let mut c = fighter(50, 100, [0, 10, 0, 0, 0, 0, 0]);
    c.modifiers[Stat::PhysicalAttack.index()].push(Modifier {
        value: 5,
        lifetime: Lifetime::Permanent,
    });
    assert_eq!(c.get_stat(Stat::PhysicalAttack), 15);
    c.modifiers[Stat::PhysicalAttack.index()].push(Modifier {
        value: -30,
        lifetime: Lifetime::Permanent,
    });
    // The running value clamps at zero.
    assert_eq!(c.get_stat(Stat::PhysicalAttack), 0);
}

#[test]
fn modifier_order_matters_through_clamping() {
    let mut c = fighter(50, 100, [0, 10, 0, 0, 0, 0, 0]);
    c.modifiers[1].push(Modifier { value: -30, lifetime: Lifetime::Permanent });
    c.modifiers[1].push(Modifier { value: 5, lifetime: Lifetime::Permanent });
    // 10 clamps to 0 first, then gains 5.
    assert_eq!(c.get_stat(Stat::PhysicalAttack), 5);
}
