use crate::interval::Interval;
use crate::scalar::Scalar;
use vstd::prelude::*;

verus! {

/// 0.999, the greatest intensity that is written.
pub const FULL_BITS: u32 = 0x3f7f_be77;

/// The gamma-corrected value of a linear colour component `x`, whose square
/// root is `root`: the root for a component above zero, else zero.
pub fn linear_to_gamma(x: Scalar, root: Scalar) -> (g: Scalar)
    ensures
        g == if (Scalar { bits: 0 }).lt_spec(x) {
            root
        } else {
            Scalar { bits: 0 }
        },
{
    if x.gt(Scalar::zero()) {
        root
    } else {
        Scalar::zero()
    }
}

/// The intensity that is written for a gamma-corrected component: the
/// component held to the range from 0 to 0.999.
pub fn intensity(g: Scalar) -> (i: Scalar)
    ensures
        i == (Interval { min: Scalar { bits: 0 }, max: Scalar { bits: FULL_BITS } }).clamp_spec(g),
{
    Interval::new(Scalar::zero(), Scalar::from_bits(FULL_BITS)).clamp(g)
}

} // verus!
