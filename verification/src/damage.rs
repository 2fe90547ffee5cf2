use vstd::prelude::*;
use crate::lifetime::Lifetime;

verus! {

/// The aspect of a damage source, deciding which attack, defense and
/// absorption stats take part in the damage arithmetic.
#[derive(Clone, Copy, Debug, PartialEq, Eq, Structural)]
pub enum DamageAspect {
    Fire,
    Physical,
}

/// A status effect as stored on a combatant: a damage value pre-computed once
/// at application time from the source's attack stat, re-applied every
/// subsequent turn of the owner with the stored value, independent of the
/// source from then on.
#[derive(Clone, Copy, Debug, PartialEq, Eq, Structural)]
pub struct StatusEffectEntry {
    pub aspect: DamageAspect,
    pub value: u32,
    pub lifetime: Lifetime,
}

} // verus!
