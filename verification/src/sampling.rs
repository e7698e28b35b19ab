//! Stochastic sampling helpers.
//!
//! The only unverified step in the whole pipeline is the draw of raw
//! randomness below; everything built on top of it is verified for
//! every value the source could hand back.  The rejection loops carry
//! a defensive iteration cap so that they provably terminate even
//! under a broken random source; the cap is far beyond the expected
//! handful of draws, and the fallback (the zero vector) satisfies the
//! same contract as an accepted sample.

use crate::fixed::{lemma_fmul_zero, SCALE, ONE};
use crate::vector::{spec_dot3, spec_len_sq, Vector4, TWO};
use vstd::prelude::*;

verus! {

/// Most draws a rejection loop makes before falling back.
const MAX_DRAWS: u32 = 64;

/// Relies on rand::random for a uniform raw 64-bit value; any outcome
/// is possible, so nothing is promised of the result.
#[verifier::external_body]
fn random_u64() -> u64 {
    rand::random::<u64>()
}

/// A random fixed-point scalar in [0, 1).
pub fn random_unit_scalar() -> (r: i64)
    ensures
        0 <= r < SCALE,
{
    (random_u64() % (SCALE as u64)) as i64
}

/// A random point strictly inside the unit sphere (`w` stays zero).
pub fn random_in_unit_sphere() -> (p: Vector4)
    ensures
        spec_len_sq(p) < SCALE,
        p.w == 0,
{
    let mut draws: u32 = 0;
    while draws < MAX_DRAWS
        decreases MAX_DRAWS - draws,
    {
        let p = Vector4::new3(
            random_unit_scalar(),
            random_unit_scalar(),
            random_unit_scalar(),
        ).scale(TWO).sub(Vector4::new3(ONE, ONE, ONE));
        if p.length_squared() < SCALE {
            return p;
        }
        draws = draws + 1;
    }
    let origin = Vector4::new3(0, 0, 0);
    proof {
        lemma_fmul_zero(0);
    }
    origin
}

/// A random point strictly inside the unit disk of the x/y plane.
pub fn random_in_unit_disk() -> (p: Vector4)
    ensures
        spec_dot3(p, p) < SCALE,
        p.z == 0,
        p.w == 0,
{
    let mut draws: u32 = 0;
    while draws < MAX_DRAWS
        decreases MAX_DRAWS - draws,
    {
        let p = Vector4::new3(random_unit_scalar(), random_unit_scalar(), 0).scale(TWO).sub(
            Vector4::new3(ONE, ONE, 0),
        );
        if p.dot3(p) < SCALE {
            return p;
        }
        draws = draws + 1;
    }
    let origin = Vector4::new3(0, 0, 0);
    proof {
        lemma_fmul_zero(0);
    }
    origin
}

} // verus!
