//! Fixed-point uniform sampling helpers.

use vstd::prelude::*;
use crate::rng::Rng;

verus! {

/// A uniform fixed-point sample standing for a real in `[0, 1)`.
pub fn random_fixed(rng: &mut Rng) -> (r: i64)
    ensures
        0 <= r < 65536,
{
    rng.next_below(65536) as i64
}

/// A uniform fixed-point sample in `[min, max]`.
pub fn random_fixed_range(rng: &mut Rng, min: i64, max: i64) -> (r: i64)
    requires
        -0x2000_0000_0000_0000 <= min <= max <= 0x2000_0000_0000_0000,
    ensures
        min <= r <= max,
{
    let span = (max as i128 - min as i128) as u64 + 1;
    min + rng.next_below(span) as i64
}

} // verus!
