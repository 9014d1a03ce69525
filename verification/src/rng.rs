//! Randomness for the simulation.
//!
//! All randomness enters through [`random_u32`], a trusted wrapper around the
//! `rand` crate. Nothing is promised of the value it returns, so everything
//! proved downstream holds for every possible draw; the verified helpers here
//! only narrow a draw to a range.

use vstd::prelude::*;
use crate::fixed::FX_ONE;

verus! {

/// Relies on `rand::random::<u32>`: a value drawn from the thread-local
/// generator. Nothing is assumed of the value.
#[verifier::external_body]
fn random_u32() -> (r: u32) {
    rand::random::<u32>()
}

/// A random fixed-point fraction in `[0, 1)`, that is in `[0, FX_ONE)`.
pub fn rand_fraction() -> (r: i64)
    ensures
        0 <= r < FX_ONE,
{
    let raw = random_u32();
    (raw / 65536) as i64
}

/// A random index below `len`.
pub fn rand_index(len: usize) -> (r: usize)
    requires
        len >= 1,
    ensures
        r < len,
{
    let f = rand_fraction();
    proof {
        assert((f as int) * (len as int) <= 65536int * 0xFFFF_FFFF_FFFF_FFFFint)
            by (nonlinear_arith)
            requires
                0 <= f <= 65536,
                0 <= len <= 0xFFFF_FFFF_FFFF_FFFFu64,
        ;
    }
    let q: u128 = ((f as u128) * (len as u128)) / (FX_ONE as u128);
    proof {
        assert(((f as int) * (len as int)) / (FX_ONE as int) < len as int)
            by (nonlinear_arith)
            requires
                0 <= f < FX_ONE,
                FX_ONE == 65536,
                len >= 1,
        ;
    }
    q as usize
}

/// A random weight in `[-1, 1)`, that is in `[-FX_ONE, FX_ONE)`.
pub fn rand_weight() -> (r: i64)
    ensures
        -FX_ONE <= r < FX_ONE,
{
    let f = rand_fraction();
    2 * f - FX_ONE
}

} // verus!
