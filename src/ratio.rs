//! Exact fractions of counts.
use vstd::prelude::*;

verus! {

/// A quotient of two counts, kept as `num / den` without reduction.
///
/// A zero denominator is a legitimate value: `0 / 0` stands for an undefined
/// quotient, `n / 0` for an unbounded one. Converting to floating point with
/// `num as f64 / den as f64` gives NaN and infinity for these.
#[derive(Clone, Copy, Debug, PartialEq, Eq, Structural)]
pub struct Ratio {
    pub num: u128,
    pub den: u128,
}

impl Ratio {
    pub fn new(num: u128, den: u128) -> (r: Ratio)
        ensures
            r.num == num,
            r.den == den,
    {
        Ratio { num, den }
    }
}

} // verus!
