//! Exact rational amounts.
//!
//! A monetary amount or an exchange factor is a pair `num / den` with a
//! strictly positive denominator. Keeping amounts as rationals makes
//! conversion arithmetic exact: two ratios denote the same value exactly
//! when they cross-multiply equally.

use vstd::prelude::*;

verus! {

/// An exact rational number `num / den`; well formed when `den > 0`.
#[derive(Clone, Copy, PartialEq, Eq, Structural, Debug)]
pub struct Ratio {
    pub num: i128,
    pub den: i128,
}

/// Two rationals `an / ad` and `bn / bd` denote the same value.
pub open spec fn same_value(an: int, ad: int, bn: int, bd: int) -> bool {
    an * bd == bn * ad
}

impl Ratio {
    /// A ratio is well formed when its denominator is positive.
    pub open spec fn wf(self) -> bool {
        self.den > 0
    }

    /// Build the ratio `num / den`.
    pub fn new(num: i128, den: i128) -> (r: Ratio)
        requires
            den > 0,
        ensures
            r.num == num,
            r.den == den,
            r.wf(),
    {
        Ratio { num, den }
    }

    /// The whole number `n`, as the ratio `n / 1`.
    pub fn from_int(n: i128) -> (r: Ratio)
        ensures
            r.num == n,
            r.den == 1,
            r.wf(),
    {
        Ratio { num: n, den: 1 }
    }
}

} // verus!
