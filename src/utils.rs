//! Small integer helpers.

use vstd::arithmetic::div_mod::{lemma_fundamental_div_mod, lemma_fundamental_div_mod_converse};
use vstd::prelude::*;

verus! {

/// The remainder of `a` by `b` that carries the sign of `b` (floored
/// modulo): the value congruent to `a` modulo `b` that lies from zero
/// towards `b`, `b` itself excluded.
pub open spec fn floor_mod(a: int, b: int) -> int
    recommends
        b != 0,
{
    if b > 0 {
        a % b
    } else {
        let m = a % (-b);
        if m == 0 {
            0
        } else {
            m + b
        }
    }
}

/// `val` limited to the range from `min` to `max`: `min` when below it,
/// otherwise `max` when above that, otherwise `val`.
pub open spec fn clamp_spec(val: int, min: int, max: int) -> int {
    if val < min {
        min
    } else if val > max {
        max
    } else {
        val
    }
}

/// Clamp a value to a range.
pub fn clamp(val: i64, min: i64, max: i64) -> (r: i64)
    ensures
        r == clamp_spec(val as int, min as int, max as int),
        min <= max ==> min <= r <= max,
{
    if val < min {
        min
    } else if val > max {
        max
    } else {
        val
    }
}

/// The modulo function: unlike `%`, the result takes the sign of the
/// divisor, so `modulo(-1, 6) == 5`.
pub fn modulo(a: i32, b: i32) -> (r: i32)
    requires
        b != 0,
    ensures
        r == floor_mod(a as int, b as int),
        b > 0 ==> 0 <= r < b,
        b < 0 ==> b < r <= 0,
{
    let ua: i64 = if a < 0 {
        -(a as i64)
    } else {
        a as i64
    };
    let ub: i64 = if b < 0 {
        -(b as i64)
    } else {
        b as i64
    };
    let t: i64 = ua % ub;
    proof {
        lemma_fundamental_div_mod(ua as int, ub as int);
        let q = (ua as int) / (ub as int);
        assert((-q - 1) * ub + (ub - t) == -(ub * q + t)) by (nonlinear_arith);
        assert(-q * ub == -(ub * q)) by (nonlinear_arith);
        if a < 0 && t > 0 {
            lemma_fundamental_div_mod_converse(
                a as int,
                ub as int,
                -q - 1,
                ub - t,
            );
        } else if a < 0 {
            lemma_fundamental_div_mod_converse(a as int, ub as int, -q, 0);
        }
    }
    // The remainder of the truncating division, with the sign of `a`.
    let r: i32 = if a < 0 {
        -(t as i32)
    } else {
        t as i32
    };
    if (r > 0 && b < 0) || (r < 0 && b > 0) {
        r + b
    } else {
        r
    }
}

} // verus!
