//! Fixed-point arithmetic.
//!
//! A scalar is an `i64` counting multiples of `1 / FX_ONE`. Every operation
//! first clips its operands to `[-FX_LIM, FX_LIM]` and clips its result the
//! same way, so all operations are total and never overflow. The spec
//! functions `fx_add_s`, `fx_sub_s`, `fx_mul_s`, `fx_div_s` and `fx_clip_s`
//! state each result exactly.

use vstd::prelude::*;

verus! {

/// The fixed-point unit: the scalar `1` is stored as `FX_ONE`.
pub const FX_ONE: i64 = 65536;

/// Magnitude bound every operation clips to.
pub const FX_LIM: i64 = 0x4000_0000_0000;

/// Clipping to `[-FX_LIM, FX_LIM]`.
pub open spec fn fx_clip_s(x: int) -> int {
    if x < -(FX_LIM as int) {
        -(FX_LIM as int)
    } else if x > FX_LIM as int {
        FX_LIM as int
    } else {
        x
    }
}

/// Magnitude of an integer.
pub open spec fn fx_abs_s(x: int) -> int {
    if x < 0 {
        -x
    } else {
        x
    }
}

/// Sum, with operands and result clipped.
pub open spec fn fx_add_s(a: int, b: int) -> int {
    fx_clip_s(fx_clip_s(a) + fx_clip_s(b))
}

/// Difference, with operands and result clipped.
pub open spec fn fx_sub_s(a: int, b: int) -> int {
    fx_clip_s(fx_clip_s(a) - fx_clip_s(b))
}

/// Product of two fixed-point scalars: magnitudes are multiplied, scaled
/// back down by `FX_ONE` rounding toward zero, and the sign reapplied.
pub open spec fn fx_mul_s(a: int, b: int) -> int {
    let ca = fx_clip_s(a);
    let cb = fx_clip_s(b);
    let m = (fx_abs_s(ca) * fx_abs_s(cb)) / (FX_ONE as int);
    if (ca < 0) != (cb < 0) {
        fx_clip_s(-m)
    } else {
        fx_clip_s(m)
    }
}

/// Quotient of two fixed-point scalars, rounding toward zero; zero when the
/// divisor clips to zero.
pub open spec fn fx_div_s(a: int, b: int) -> int {
    let ca = fx_clip_s(a);
    let cb = fx_clip_s(b);
    if cb == 0 {
        0
    } else {
        let m = (fx_abs_s(ca) * (FX_ONE as int)) / fx_abs_s(cb);
        if (ca < 0) != (cb < 0) {
            fx_clip_s(-m)
        } else {
            fx_clip_s(m)
        }
    }
}

/// Magnitude bound for the fixed-point product: clipping only shrinks
/// magnitudes, so the product's magnitude is at most the scaled product of
/// the operands' magnitude bounds.
pub proof fn lemma_fx_mul_mag(a: int, b: int, ma: int, mb: int)
    requires
        fx_abs_s(a) <= ma,
        fx_abs_s(b) <= mb,
    ensures
        fx_abs_s(fx_mul_s(a, b)) <= (ma * mb) / (FX_ONE as int),
{
    let ca = fx_clip_s(a);
    let cb = fx_clip_s(b);
    assert(fx_abs_s(ca) <= ma && fx_abs_s(cb) <= mb);
    assert(fx_abs_s(ca) * fx_abs_s(cb) <= ma * mb) by (nonlinear_arith)
        requires
            0 <= fx_abs_s(ca) <= ma,
            0 <= fx_abs_s(cb) <= mb,
    ;
    vstd::arithmetic::div_mod::lemma_div_is_ordered(
        fx_abs_s(ca) * fx_abs_s(cb),
        ma * mb,
        FX_ONE as int,
    );
}

pub fn fx_clip(x: i64) -> (r: i64)
    ensures
        r == fx_clip_s(x as int),
{
    if x < -FX_LIM {
        -FX_LIM
    } else if x > FX_LIM {
        FX_LIM
    } else {
        x
    }
}

pub fn fx_add(a: i64, b: i64) -> (r: i64)
    ensures
        r == fx_add_s(a as int, b as int),
{
    let ca = fx_clip(a);
    let cb = fx_clip(b);
    fx_clip(ca + cb)
}

pub fn fx_sub(a: i64, b: i64) -> (r: i64)
    ensures
        r == fx_sub_s(a as int, b as int),
{
    let ca = fx_clip(a);
    let cb = fx_clip(b);
    fx_clip(ca - cb)
}

pub fn fx_mul(a: i64, b: i64) -> (r: i64)
    ensures
        r == fx_mul_s(a as int, b as int),
{
    let ca = fx_clip(a);
    let cb = fx_clip(b);
    let ma: u64 = if ca < 0 {
        (-ca) as u64
    } else {
        ca as u64
    };
    let mb: u64 = if cb < 0 {
        (-cb) as u64
    } else {
        cb as u64
    };
    proof {
        assert((ma as int) * (mb as int) <= 0x4000_0000_0000int * 0x4000_0000_0000int)
            by (nonlinear_arith)
            requires
                ma <= 0x4000_0000_0000,
                mb <= 0x4000_0000_0000,
        ;
    }
    let p: u128 = (ma as u128) * (mb as u128);
    let q: u128 = p / (FX_ONE as u128);
    let qc: i64 = if q > FX_LIM as u128 {
        FX_LIM
    } else {
        q as i64
    };
    if (ca < 0) != (cb < 0) {
        -qc
    } else {
        qc
    }
}

pub fn fx_div(a: i64, b: i64) -> (r: i64)
    ensures
        r == fx_div_s(a as int, b as int),
{
    let ca = fx_clip(a);
    let cb = fx_clip(b);
    if cb == 0 {
        return 0;
    }
    let ma: u64 = if ca < 0 {
        (-ca) as u64
    } else {
        ca as u64
    };
    let mb: u64 = if cb < 0 {
        (-cb) as u64
    } else {
        cb as u64
    };
    proof {
        assert((ma as int) * (FX_ONE as int) <= 0x4000_0000_0000int * 0x4000_0000_0000int)
            by (nonlinear_arith)
            requires
                ma <= 0x4000_0000_0000,
        ;
    }
    let p: u128 = (ma as u128) * (FX_ONE as u128);
    let q: u128 = p / (mb as u128);
    let qc: i64 = if q > FX_LIM as u128 {
        FX_LIM
    } else {
        q as i64
    };
    if (ca < 0) != (cb < 0) {
        -qc
    } else {
        qc
    }
}

pub fn fx_abs(a: i64) -> (r: i64)
    ensures
        r == fx_clip_s(fx_abs_s(fx_clip_s(a as int))),
{
    let ca = fx_clip(a);
    if ca < 0 {
        -ca
    } else {
        ca
    }
}

/// Half of a scalar, rounding toward zero.
pub open spec fn fx_half_s(a: int) -> int {
    let ca = fx_clip_s(a);
    if ca < 0 {
        -((-ca) / 2)
    } else {
        ca / 2
    }
}

pub fn fx_half(a: i64) -> (r: i64)
    ensures
        r == fx_half_s(a as int),
{
    let ca = fx_clip(a);
    if ca < 0 {
        -((-ca) / 2)
    } else {
        ca / 2
    }
}

} // verus!
