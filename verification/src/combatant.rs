use vstd::prelude::*;
use crate::damage::StatusEffectEntry;
use crate::lifetime::Lifetime;

verus! {

/// A combatant's gender; some target-eligibility flags select by it.
#[derive(Clone, Copy, Debug, PartialEq, Eq, Structural)]
pub enum Gender {
    Male,
    Female,
}

/// The fixed, ordered set of named stats every combatant carries.
#[derive(Clone, Copy, Debug, PartialEq, Eq, Structural)]
pub enum Stat {
    Agility,
    PhysicalAttack,
    PhysicalDefense,
    PhysicalAbsorption,
    FireAttack,
    FireDefense,
    FireAbsorption,
}

/// How many stats there are; `stats` and `modifiers` hold one entry per stat.
pub const STAT_COUNT: usize = 7;

impl Stat {
    /// The position of this stat in a combatant's `stats` and `modifiers`.
    pub open spec fn spec_index(self) -> int {
        match self {
            Stat::Agility => 0,
            Stat::PhysicalAttack => 1,
            Stat::PhysicalDefense => 2,
            Stat::PhysicalAbsorption => 3,
            Stat::FireAttack => 4,
            Stat::FireDefense => 5,
            Stat::FireAbsorption => 6,
        }
    }

    pub fn index(self) -> (i: usize)
        ensures
            i as int == self.spec_index(),
            i < STAT_COUNT,
    {
        match self {
            Stat::Agility => 0,
            Stat::PhysicalAttack => 1,
            Stat::PhysicalDefense => 2,
            Stat::PhysicalAbsorption => 3,
            Stat::FireAttack => 4,
            Stat::FireDefense => 5,
            Stat::FireAbsorption => 6,
        }
    }
}

/// A timed or permanent additive adjustment to one stat.
#[derive(Clone, Copy, Debug, PartialEq, Eq, Structural)]
pub struct Modifier {
    pub value: i32,
    pub lifetime: Lifetime,
}

/// Clamp a mathematical integer into the range of `u32`.
pub open spec fn clamp_u32(x: int) -> u32 {
    if x < 0 {
        0u32
    } else if x > u32::MAX {
        u32::MAX
    } else {
        x as u32
    }
}

/// The value of a stat after applying a list of modifiers in order, each
/// addition clamped into the range of `u32`.
pub open spec fn spec_modified_stat(base: u32, mods: Seq<Modifier>) -> u32
    decreases mods.len(),
{
    if mods.len() == 0 {
        base
    } else {
        spec_modified_stat(clamp_u32(base + mods[0].value), mods.drop_first())
    }
}

/// Apply a list of modifiers to a base stat value in order, clamping each
/// step into the range of `u32`.
pub fn apply_modifiers(base: u32, mods: &Vec<Modifier>) -> (r: u32)
    ensures
        r == spec_modified_stat(base, mods@),
{
    let mut acc = base;
    let mut i: usize = 0;
    proof {
        assert(mods@.skip(0) =~= mods@);
    }
    while i < mods.len()
        invariant
            i <= mods.len(),
            spec_modified_stat(acc, mods@.skip(i as int)) == spec_modified_stat(base, mods@),
        decreases mods.len() - i,
    {
        proof {
            assert(mods@.skip(i as int).drop_first() =~= mods@.skip(i as int + 1));
            assert(mods@.skip(i as int)[0] == mods@[i as int]);
        }
        let wide: i64 = acc as i64 + mods[i].value as i64;
        acc = if wide < 0 {
            0
        } else if wide > u32::MAX as i64 {
            u32::MAX
        } else {
            wide as u32
        };
        i += 1;
    }
    proof {
        assert(mods@.skip(mods@.len() as int) =~= Seq::<Modifier>::empty());
    }
    acc
}

/// One participant in an encounter: identity, health, stats, per-stat
/// modifier lists, status effects, and the actions it can take (identifiers
/// into the encounter's action catalog).
#[derive(Debug)]
pub struct Combatant {
    pub name: String,
    pub gender: Gender,
    pub hp: u32,
    pub hp_max: u32,
    pub stats: Vec<u32>,
    pub modifiers: Vec<Vec<Modifier>>,
    pub status_effects: Vec<StatusEffectEntry>,
    pub actions: Vec<usize>,
}

/// The mathematical model of a combatant.
#[verifier::ext_equal]
pub ghost struct CombatantView {
    pub name: Seq<char>,
    pub gender: Gender,
    pub hp: u32,
    pub hp_max: u32,
    pub stats: Seq<u32>,
    pub modifiers: Seq<Seq<Modifier>>,
    pub status_effects: Seq<StatusEffectEntry>,
    pub actions: Seq<usize>,
}

impl View for Combatant {
    type V = CombatantView;

    open spec fn view(&self) -> CombatantView {
        CombatantView {
            name: self.name@,
            gender: self.gender,
            hp: self.hp,
            hp_max: self.hp_max,
            stats: self.stats@,
            modifiers: self.modifiers@.map_values(|row: Vec<Modifier>| row@),
            status_effects: self.status_effects@,
            actions: self.actions@,
        }
    }
}

impl CombatantView {
    /// Structural well-formedness: health within bounds, and one stat slot
    /// and one modifier list per named stat.
    pub open spec fn wf(self) -> bool {
        &&& self.hp <= self.hp_max
        &&& self.stats.len() == STAT_COUNT
        &&& self.modifiers.len() == STAT_COUNT
    }

    /// The stored base value of a stat, before modifiers.
    pub open spec fn base_stat(self, stat: Stat) -> u32 {
        self.stats[stat.spec_index()]
    }

    /// The effective value of a stat: the base value with every modifier in
    /// the stat's list applied in order.
    pub open spec fn stat_value(self, stat: Stat) -> u32 {
        spec_modified_stat(self.base_stat(stat), self.modifiers[stat.spec_index()])
    }
}

/// The model of a roster: the view of each combatant, in roster order.
pub open spec fn roster_view(cs: Seq<Combatant>) -> Seq<CombatantView> {
    cs.map_values(|c: Combatant| c@)
}

/// Duplicate a vector of copyable elements.
pub fn clone_copy_vec<T: Copy>(v: &Vec<T>) -> (r: Vec<T>)
    ensures
        r@ == v@,
{
    let mut r: Vec<T> = Vec::new();
    let mut i: usize = 0;
    while i < v.len()
        invariant
            i <= v.len(),
            r@ == v@.take(i as int),
        decreases v.len() - i,
    {
        r.push(v[i]);
        proof {
            assert(v@.take(i as int).push(v@[i as int]) =~= v@.take(i as int + 1));
        }
        i += 1;
    }
    proof {
        assert(v@.take(v@.len() as int) =~= v@);
    }
    r
}

/// Duplicate a vector of vectors of copyable elements.
pub fn clone_nested_copy_vec<T: Copy>(v: &Vec<Vec<T>>) -> (r: Vec<Vec<T>>)
    ensures
        r@.len() == v@.len(),
        forall|i: int| 0 <= i < v@.len() ==> r@[i]@ == #[trigger] v@[i]@,
{
    let mut r: Vec<Vec<T>> = Vec::new();
    let mut i: usize = 0;
    while i < v.len()
        invariant
            i <= v.len(),
            r@.len() == i,
            forall|j: int| 0 <= j < i ==> r@[j]@ == #[trigger] v@[j]@,
        decreases v.len() - i,
    {
        r.push(clone_copy_vec(&v[i]));
        i += 1;
    }
    r
}

impl Clone for Combatant {
    /// A duplicate that every contract treats as equal to the original.
    fn clone(&self) -> (r: Self)
        ensures
            r@ == self@,
    {
        let r = Combatant {
            name: self.name.clone(),
            gender: self.gender,
            hp: self.hp,
            hp_max: self.hp_max,
            stats: clone_copy_vec(&self.stats),
            modifiers: clone_nested_copy_vec(&self.modifiers),
            status_effects: clone_copy_vec(&self.status_effects),
            actions: clone_copy_vec(&self.actions),
        };
        proof {
            assert(r@.modifiers =~= self@.modifiers);
            assert(r@ =~= self@);
        }
        r
    }
}

/// Duplicate a roster, preserving its model exactly.
pub fn clone_combatants(v: &Vec<Combatant>) -> (r: Vec<Combatant>)
    ensures
        roster_view(r@) == roster_view(v@),
{
    let mut r: Vec<Combatant> = Vec::new();
    let mut i: usize = 0;
    while i < v.len()
        invariant
            i <= v.len(),
            r@.len() == i,
            forall|j: int| 0 <= j < i ==> r@[j]@ == #[trigger] v@[j]@,
        decreases v.len() - i,
    {
        r.push(v[i].clone());
        i += 1;
    }
    proof {
        assert(roster_view(r@) =~= roster_view(v@));
    }
    r
}

impl Combatant {
    /// The effective value of a stat, with all current modifiers applied.
    pub fn get_stat(&self, stat: Stat) -> (r: u32)
        requires
            self@.wf(),
        ensures
            r == self@.stat_value(stat),
    {
        let idx = stat.index();
        apply_modifiers(self.stats[idx], &self.modifiers[idx])
    }
}

} // verus!
