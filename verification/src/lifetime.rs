use vstd::prelude::*;

verus! {

/// How long a modifier or status effect stays attached to a combatant:
/// forever, or for a remaining number of the owner's turns.
///
/// An `Active(0)` entry is expired: the post-turn cleanup removes it, and it
/// is never applied again afterwards.
#[derive(Clone, Copy, Debug, PartialEq, Eq, Structural)]
pub enum Lifetime {
    Permanent,
    Active(u32),
}

impl Lifetime {
    /// The value after one pre-turn decrement: `Active` counts down,
    /// saturating at zero; `Permanent` is untouched.
    pub open spec fn spec_decremented(self) -> Lifetime {
        match self {
            Lifetime::Permanent => Lifetime::Permanent,
            Lifetime::Active(n) => Lifetime::Active(if n == 0 { 0u32 } else { (n - 1) as u32 }),
        }
    }

    /// An expired lifetime: exactly `Active(0)`.
    pub open spec fn spec_expired(self) -> bool {
        self == Lifetime::Active(0u32)
    }

    /// Decrement the remaining turns by at most one, saturating at zero.
    pub fn decremented(self) -> (r: Lifetime)
        ensures
            r == self.spec_decremented(),
    {
        match self {
            Lifetime::Permanent => Lifetime::Permanent,
            Lifetime::Active(n) => Lifetime::Active(if n == 0 { 0 } else { n - 1 }),
        }
    }

    /// Whether this lifetime has run out.
    pub fn expired(self) -> (r: bool)
        ensures
            r == self.spec_expired(),
    {
        match self {
            Lifetime::Permanent => false,
            Lifetime::Active(n) => n == 0,
        }
    }
}

} // verus!
