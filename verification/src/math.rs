use vstd::prelude::*;

verus! {

/// A rational scaling factor with which integer damage values are scaled as
/// `value * numerator / denominator`, with truncating integer division.
#[derive(Clone, Copy, Debug, PartialEq, Eq, Structural)]
pub struct Fraction {
    pub numerator: u32,
    pub denominator: u32,
}

impl Fraction {
    /// Valid catalog data never carries a zero denominator.
    pub open spec fn valid(self) -> bool {
        self.denominator > 0
    }

    /// The exact mathematical result of scaling `value`, before any clamping.
    pub open spec fn spec_scaled_exact(self, value: u32) -> int {
        value * self.numerator / self.denominator as int
    }

    /// Scaling as the engine performs it: the exact truncated quotient,
    /// clamped to the range of `u32`.
    pub open spec fn spec_scaled(self, value: u32) -> u32 {
        if self.spec_scaled_exact(value) > u32::MAX {
            u32::MAX
        } else {
            self.spec_scaled_exact(value) as u32
        }
    }

    /// Scale `value` by this fraction with truncating division, clamping the
    /// result to the range of `u32`.
    pub fn scale(self, value: u32) -> (r: u32)
        requires
            self.valid(),
        ensures
            r == self.spec_scaled(value),
    {
        proof {
            assert(value as int * self.numerator as int <= u32::MAX as int * u32::MAX as int)
                by (nonlinear_arith)
                requires
                    value <= u32::MAX,
                    self.numerator <= u32::MAX,
            ;
        }
        let wide: u64 = (value as u64) * (self.numerator as u64) / (self.denominator as u64);
        if wide > u32::MAX as u64 {
            u32::MAX
        } else {
            wide as u32
        }
    }
}

} // verus!
