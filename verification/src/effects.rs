use vstd::prelude::*;
use crate::combatant::{Combatant, CombatantView, Modifier, Stat};
use crate::damage::{DamageAspect, StatusEffectEntry};
use crate::lifetime::Lifetime;
use crate::math::Fraction;

verus! {

impl DamageAspect {
    /// The attack stat consulted for damage of this aspect.
    pub open spec fn spec_attack_stat(self) -> Stat {
        match self {
            DamageAspect::Fire => Stat::FireAttack,
            DamageAspect::Physical => Stat::PhysicalAttack,
        }
    }

    /// The defense stat consulted for damage of this aspect.
    pub open spec fn spec_defense_stat(self) -> Stat {
        match self {
            DamageAspect::Fire => Stat::FireDefense,
            DamageAspect::Physical => Stat::PhysicalDefense,
        }
    }

    /// The absorption stat consulted for damage of this aspect.
    pub open spec fn spec_absorption_stat(self) -> Stat {
        match self {
            DamageAspect::Fire => Stat::FireAbsorption,
            DamageAspect::Physical => Stat::PhysicalAbsorption,
        }
    }

    pub fn attack_stat(self) -> (r: Stat)
        ensures
            r == self.spec_attack_stat(),
    {
        match self {
            DamageAspect::Fire => Stat::FireAttack,
            DamageAspect::Physical => Stat::PhysicalAttack,
        }
    }

    pub fn defense_stat(self) -> (r: Stat)
        ensures
            r == self.spec_defense_stat(),
    {
        match self {
            DamageAspect::Fire => Stat::FireDefense,
            DamageAspect::Physical => Stat::PhysicalDefense,
        }
    }

    pub fn absorption_stat(self) -> (r: Stat)
        ensures
            r == self.spec_absorption_stat(),
    {
        match self {
            DamageAspect::Fire => Stat::FireAbsorption,
            DamageAspect::Physical => Stat::PhysicalAbsorption,
        }
    }
}

/// An instantaneous damage effect: aspect and a scaling fraction applied to
/// the source's attack stat.
#[derive(Clone, Copy, Debug, PartialEq, Eq, Structural)]
pub struct DamageEffect {
    pub aspect: DamageAspect,
    pub scaling: Fraction,
}

/// A status effect as configured in the action catalog: its damage value is
/// computed once when it is applied, then stored.
#[derive(Clone, Copy, Debug, PartialEq, Eq, Structural)]
pub struct StatusEffect {
    pub aspect: DamageAspect,
    pub scaling: Fraction,
    pub lifetime: Lifetime,
}

/// One effect of a sub-action, applied to each selected target in
/// declaration order.
#[derive(Clone, Copy, Debug, PartialEq, Eq, Structural)]
pub enum Effect {
    Damage(DamageEffect),
    Modifier(Modifier, Stat),
    StatusEffect(StatusEffect),
}

/// The source context of an effect application: environmental (no living
/// origin), the target itself, or another combatant.
pub enum EffectSource<'a> {
    Environment,
    Origin,
    Other(&'a Combatant),
}

/// The mathematical model of an effect source.
pub ghost enum EffectSourceView {
    Environment,
    Origin,
    Other(CombatantView),
}

impl<'a> View for EffectSource<'a> {
    type V = EffectSourceView;

    open spec fn view(&self) -> EffectSourceView {
        match *self {
            EffectSource::Environment => EffectSourceView::Environment,
            EffectSource::Origin => EffectSourceView::Origin,
            EffectSource::Other(c) => EffectSourceView::Other(c@),
        }
    }
}

impl EffectSourceView {
    /// Whatever combatant the source carries is itself well-formed.
    pub open spec fn wf(self) -> bool {
        match self {
            EffectSourceView::Other(c) => c.wf(),
            _ => true,
        }
    }
}

/// The damage value of an effect: the source's attack stat for the aspect
/// (the target's own when the source is the target; 1 when environmental),
/// scaled by the fraction with truncating division.
pub open spec fn spec_damage_value(
    target: CombatantView,
    source: EffectSourceView,
    aspect: DamageAspect,
    scaling: Fraction,
) -> u32 {
    let base = match source {
        EffectSourceView::Environment => 1u32,
        EffectSourceView::Origin => target.stat_value(aspect.spec_attack_stat()),
        EffectSourceView::Other(s) => s.stat_value(aspect.spec_attack_stat()),
    };
    scaling.spec_scaled(base)
}

/// Compute the damage value of an effect from the source's (or, for a
/// self-targeted effect, the target's) attack stat and the scaling fraction.
pub fn calculate_damage_value(
    target: &Combatant,
    source: EffectSource<'_>,
    aspect: DamageAspect,
    scaling: Fraction,
) -> (r: u32)
    requires
        target@.wf(),
        source@.wf(),
        scaling.valid(),
    ensures
        r == spec_damage_value(target@, source@, aspect, scaling),
{
    let base = match source {
        EffectSource::Environment => 1,
        EffectSource::Origin => target.get_stat(aspect.attack_stat()),
        EffectSource::Other(source) => source.get_stat(aspect.attack_stat()),
    };
    scaling.scale(base)
}

/// The target's effective defense stat for the aspect.
pub fn calculate_defense_value(target: &Combatant, aspect: DamageAspect) -> (r: u32)
    requires
        target@.wf(),
    ensures
        r == target@.stat_value(aspect.spec_defense_stat()),
{
    target.get_stat(aspect.defense_stat())
}

/// The target's effective absorption stat for the aspect.
pub fn calculate_absorption_value(target: &Combatant, aspect: DamageAspect) -> (r: u32)
    requires
        target@.wf(),
    ensures
        r == target@.stat_value(aspect.spec_absorption_stat()),
{
    target.get_stat(aspect.absorption_stat())
}

/// The combatant after taking a hit of `damage_value` raw damage of the
/// given aspect.
///
/// A hit below the target's defense is fully negated. Otherwise the net
/// damage is scaled by the absorption stat: above 100 the surplus heals the
/// target (capped at full health), at or below 100 the remainder wounds it
/// (saturating at zero health). Only `hp` changes.
pub open spec fn spec_process_damage(
    c: CombatantView,
    aspect: DamageAspect,
    damage_value: u32,
) -> CombatantView {
    let defense = c.stat_value(aspect.spec_defense_stat());
    let absorption = c.stat_value(aspect.spec_absorption_stat());
    if damage_value < defense {
        c
    } else {
        let net = damage_value - defense;
        if absorption > 100 {
            let heal = vstd::math::min((c.hp_max - c.hp) as int, net * (absorption - 100) / 100);
            CombatantView { hp: (c.hp + heal) as u32, ..c }
        } else {
            let loss = vstd::math::min(c.hp as int, net * (100 - absorption) / 100);
            CombatantView { hp: (c.hp - loss) as u32, ..c }
        }
    }
}

/// Damage floor (law): a hit strictly below the target's defense for the
/// aspect is fully negated — the combatant is left exactly as it was.
pub proof fn lemma_damage_floor(c: CombatantView, aspect: DamageAspect, damage_value: u32)
    requires
        damage_value < c.stat_value(aspect.spec_defense_stat()),
    ensures
        spec_process_damage(c, aspect, damage_value) == c,
{
}

/// Absorption healing (law): with absorption above 100, a hit at or above
/// the defense heals the target by the surplus fraction of the net damage,
/// capped at full health — health never drops.
pub proof fn lemma_absorption_heals(c: CombatantView, aspect: DamageAspect, damage_value: u32)
    requires
        c.wf(),
        damage_value >= c.stat_value(aspect.spec_defense_stat()),
        c.stat_value(aspect.spec_absorption_stat()) > 100,
    ensures
        ({
            let net = damage_value - c.stat_value(aspect.spec_defense_stat());
            let absorption = c.stat_value(aspect.spec_absorption_stat());
            let r = spec_process_damage(c, aspect, damage_value);
            &&& r.hp == c.hp + vstd::math::min((c.hp_max - c.hp) as int, net * (absorption - 100) / 100)
            &&& r.hp >= c.hp
            &&& r.hp <= c.hp_max
        }),
{
    let net = damage_value - c.stat_value(aspect.spec_defense_stat());
    let absorption = c.stat_value(aspect.spec_absorption_stat());
    assert(net * (absorption - 100) >= 0) by (nonlinear_arith)
        requires
            net >= 0,
            absorption > 100,
    ;
}

/// Absorption damage (law): with absorption at or below 100, a hit at or
/// above the defense wounds the target by the remaining fraction of the net
/// damage, saturating at zero health.
pub proof fn lemma_absorption_damage(c: CombatantView, aspect: DamageAspect, damage_value: u32)
    requires
        c.wf(),
        damage_value >= c.stat_value(aspect.spec_defense_stat()),
        c.stat_value(aspect.spec_absorption_stat()) <= 100,
    ensures
        ({
            let net = damage_value - c.stat_value(aspect.spec_defense_stat());
            let absorption = c.stat_value(aspect.spec_absorption_stat());
            let r = spec_process_damage(c, aspect, damage_value);
            &&& r.hp == c.hp - vstd::math::min(c.hp as int, net * (100 - absorption) / 100)
            &&& r.hp <= c.hp
        }),
{
    let net = damage_value - c.stat_value(aspect.spec_defense_stat());
    let absorption = c.stat_value(aspect.spec_absorption_stat());
    assert(net * (100 - absorption) >= 0) by (nonlinear_arith)
        requires
            net >= 0,
            absorption <= 100,
    ;
}

/// Two factors each bounded by `u32` multiply without overflowing `u64`.
proof fn lemma_mul_u32_fits_u64(a: int, b: int)
    by (nonlinear_arith)
    requires
        0 <= a <= u32::MAX,
        0 <= b <= u32::MAX,
    ensures
        a * b <= (u32::MAX as int) * (u32::MAX as int),
        (u32::MAX as int) * (u32::MAX as int) < (u64::MAX as int),
{
}

/// Apply a hit of `damage_value` raw damage of the given aspect to the
/// target, negating, healing or wounding as `spec_process_damage` says.
pub fn process_damage(target: &mut Combatant, aspect: DamageAspect, damage_value: u32)
    requires
        old(target)@.wf(),
    ensures
        final(target)@ == spec_process_damage(old(target)@, aspect, damage_value),
        final(target)@.wf(),
{
    let defense_value = calculate_defense_value(target, aspect);
    let absorption_value = calculate_absorption_value(target, aspect);

    if damage_value < defense_value {
        return;
    }
    let net = damage_value - defense_value;

    if absorption_value > 100 {
        proof {
            lemma_mul_u32_fits_u64(net as int, (absorption_value - 100) as int);
        }
        let headroom = target.hp_max - target.hp;
        let wide: u64 = (net as u64) * ((absorption_value - 100) as u64) / 100;
        let heal = if wide > headroom as u64 {
            headroom
        } else {
            wide as u32
        };
        target.hp = target.hp + heal;
    } else {
        proof {
            lemma_mul_u32_fits_u64(net as int, (100 - absorption_value) as int);
        }
        let wide: u64 = (net as u64) * ((100 - absorption_value) as u64) / 100;
        let loss = if wide > target.hp as u64 {
            target.hp
        } else {
            wide as u32
        };
        target.hp = target.hp - loss;
    }
}

} // verus!
