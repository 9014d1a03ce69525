//! Fixed-point angle helpers.
//!
//! Angles are fixed-point radians. `cos_fx` and `sin_fx` are piecewise-linear
//! waves with the period, range, zeroes and signs of the circular functions;
//! `angle_to` is a piecewise-rational bearing with the quadrant behaviour of
//! `atan2`. Each executable function returns exactly its spec function.

use vstd::prelude::*;
use crate::fixed::{
    FX_ONE, fx_clip_s, fx_add_s, fx_sub_s, fx_mul_s, fx_div_s, fx_clip, fx_add, fx_sub, fx_mul,
    fx_div,
};

verus! {

/// Fixed-point approximation of pi, chosen divisible by four.
pub const PI_FX: i64 = 205888;

/// Fixed-point approximation of two pi.
pub const TAU_FX: i64 = 411776;

/// Fixed-point approximation of pi over two.
pub const HALF_PI_FX: i64 = 102944;

/// Fixed-point approximation of pi over four.
pub const QUARTER_PI_FX: i64 = 51472;

/// Fixed-point approximation of three pi over four.
pub const THREE_QUARTER_PI_FX: i64 = 154416;

/// An angle reduced to `[0, TAU_FX)`.
pub open spec fn angle_mod_s(x: int) -> int {
    fx_clip_s(x) % (TAU_FX as int)
}

/// Piecewise-linear cosine: falls linearly from one at zero to minus one at
/// pi, and rises back to one at two pi.
pub open spec fn cos_s(x: int) -> int {
    let t = angle_mod_s(x);
    if t < PI_FX as int {
        FX_ONE - (2 * t * (FX_ONE as int)) / (PI_FX as int)
    } else {
        -(FX_ONE as int) + (2 * (t - PI_FX as int) * (FX_ONE as int)) / (PI_FX as int)
    }
}

/// Piecewise-linear sine: the cosine shifted a quarter period.
pub open spec fn sin_s(x: int) -> int {
    cos_s(fx_sub_s(x, HALF_PI_FX as int))
}

/// Piecewise-rational bearing of the point `(x, y)` from the origin, in
/// `[-PI_FX, PI_FX]`, with the quadrant behaviour of `atan2`: zero along the
/// positive x axis, a half pi straight up, pi along the negative x axis, and
/// negated below the axis. Zero at the origin.
pub open spec fn angle_to_s(y: int, x: int) -> int {
    let ay = fx_abs_in_s(y);
    let a = if x >= 0 {
        fx_sub_s(
            QUARTER_PI_FX as int,
            fx_mul_s(QUARTER_PI_FX as int, fx_div_s(fx_sub_s(x, ay), fx_add_s(x, ay))),
        )
    } else {
        fx_sub_s(
            THREE_QUARTER_PI_FX as int,
            fx_mul_s(QUARTER_PI_FX as int, fx_div_s(fx_add_s(x, ay), fx_sub_s(ay, x))),
        )
    };
    if fx_clip_s(x) == 0 && fx_clip_s(y) == 0 {
        0
    } else if y < 0 {
        -a
    } else {
        a
    }
}

/// Clipped magnitude, as used by `angle_to_s`.
pub open spec fn fx_abs_in_s(x: int) -> int {
    let c = fx_clip_s(x);
    if c < 0 {
        -c
    } else {
        c
    }
}

/// An angle reduced to `[0, TAU_FX)`, exactly `angle_mod_s`.
pub fn angle_mod(x: i64) -> (r: i64)
    ensures
        r == angle_mod_s(x as int),
        0 <= r < TAU_FX,
{
    let c = fx_clip(x);
    if c >= 0 {
        c % TAU_FX
    } else {
        let m = (-c) % TAU_FX;
        if m == 0 {
            0
        } else {
            TAU_FX - m
        }
    }
}

/// Piecewise-linear cosine, exactly `cos_s`; the result lies in
/// `[-FX_ONE, FX_ONE]` and `cos_fx(0) == FX_ONE`.
pub fn cos_fx(x: i64) -> (r: i64)
    ensures
        r == cos_s(x as int),
        -FX_ONE <= r <= FX_ONE,
{
    let t = angle_mod(x);
    if t < PI_FX {
        FX_ONE - (2 * t * FX_ONE) / PI_FX
    } else {
        -FX_ONE + (2 * (t - PI_FX) * FX_ONE) / PI_FX
    }
}

/// Piecewise-linear sine, exactly `sin_s`; the result lies in
/// `[-FX_ONE, FX_ONE]` and `sin_fx(0) == 0`.
pub fn sin_fx(x: i64) -> (r: i64)
    ensures
        r == sin_s(x as int),
        -FX_ONE <= r <= FX_ONE,
{
    cos_fx(fx_sub(x, HALF_PI_FX))
}

/// Piecewise-rational bearing of `(x, y)`, exactly `angle_to_s`.
pub fn angle_to(y: i64, x: i64) -> (r: i64)
    ensures
        r == angle_to_s(y as int, x as int),
{
    let cy = fx_clip(y);
    let cx = fx_clip(x);
    let ay = if cy < 0 {
        -cy
    } else {
        cy
    };
    let a = if x >= 0 {
        fx_sub(QUARTER_PI_FX, fx_mul(QUARTER_PI_FX, fx_div(fx_sub(x, ay), fx_add(x, ay))))
    } else {
        fx_sub(THREE_QUARTER_PI_FX, fx_mul(QUARTER_PI_FX, fx_div(fx_add(x, ay), fx_sub(ay, x))))
    };
    if cx == 0 && cy == 0 {
        0
    } else if y < 0 {
        -a
    } else {
        a
    }
}

} // verus!
