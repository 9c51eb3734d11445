//! Saturating and truncating arithmetic on screen coordinates.

use vstd::prelude::*;

verus! {

/// The value of `x` brought into the range of `i32`.
pub open spec fn clamp_i32(x: int) -> int {
    if x < i32::MIN {
        i32::MIN as int
    } else if x > i32::MAX {
        i32::MAX as int
    } else {
        x
    }
}

/// The larger of two integers.
pub open spec fn max_int(a: int, b: int) -> int {
    if a >= b {
        a
    } else {
        b
    }
}

/// The smaller of two integers.
pub open spec fn min_int(a: int, b: int) -> int {
    if a <= b {
        a
    } else {
        b
    }
}

/// The distance of an integer from zero.
pub open spec fn abs_int(a: int) -> int {
    if a >= 0 {
        a
    } else {
        -a
    }
}

/// Half of `x`, rounded towards zero.
pub open spec fn half_towards_zero(x: int) -> int {
    if x >= 0 {
        x / 2
    } else {
        -((-x) / 2)
    }
}

/// The quotient of `a` by a positive `b`, rounded towards zero.
pub open spec fn quotient_towards_zero(a: int, b: int) -> int {
    if a >= 0 {
        a / b
    } else {
        -((-a) / b)
    }
}

/// What `quotient_towards_zero` leaves over; it has the sign of `a`.
pub open spec fn remainder_towards_zero(a: int, b: int) -> int {
    if a >= 0 {
        a % b
    } else {
        -((-a) % b)
    }
}

/// Brings a wide value into the range of `i32`.
pub fn clamp_to_i32(x: i64) -> (r: i32)
    ensures
        r == clamp_i32(x as int),
{
    if x < i32::MIN as i64 {
        i32::MIN
    } else if x > i32::MAX as i64 {
        i32::MAX
    } else {
        x as i32
    }
}

/// `a + b`, held within `i32`.
pub fn sat_add(a: i32, b: i32) -> (r: i32)
    ensures
        r == clamp_i32(a + b),
{
    clamp_to_i32(a as i64 + b as i64)
}

/// `a - b`, held within `i32`.
pub fn sat_sub(a: i32, b: i32) -> (r: i32)
    ensures
        r == clamp_i32(a - b),
{
    clamp_to_i32(a as i64 - b as i64)
}

/// `a * b`, held within `i32`, for factors that are not negative.
pub fn sat_mul_nonneg(a: i32, b: i32) -> (r: i32)
    requires
        a >= 0,
        b >= 0,
    ensures
        r == clamp_i32(a * b),
{
    assert(0 <= a * b <= 0x7fff_ffff * 0x7fff_ffff) by (nonlinear_arith)
        requires
            0 <= a <= 0x7fff_ffff,
            0 <= b <= 0x7fff_ffff,
    ;
    clamp_to_i32(a as i64 * b as i64)
}

/// The larger of two coordinates.
pub fn max_i32(a: i32, b: i32) -> (r: i32)
    ensures
        r == max_int(a as int, b as int),
{
    if a >= b {
        a
    } else {
        b
    }
}

/// The smaller of two coordinates.
pub fn min_i32(a: i32, b: i32) -> (r: i32)
    ensures
        r == min_int(a as int, b as int),
{
    if a <= b {
        a
    } else {
        b
    }
}

/// Half of a coordinate, rounded towards zero.
pub fn half(x: i32) -> (r: i32)
    ensures
        r == half_towards_zero(x as int),
{
    if x >= 0 {
        x / 2
    } else {
        let wide: i64 = -(x as i64);
        (-(wide / 2)) as i32
    }
}

/// Divides by a positive count, rounding towards zero, and gives the quotient and what is left.
pub fn divide(a: i32, b: i32) -> (r: (i32, i32))
    requires
        b > 0,
    ensures
        r.0 == quotient_towards_zero(a as int, b as int),
        r.1 == remainder_towards_zero(a as int, b as int),
{
    if a >= 0 {
        (a / b, a % b)
    } else {
        let wide: i64 = -(a as i64);
        let divisor: i64 = b as i64;
        let quotient: i64 = wide / divisor;
        let rest: i64 = wide % divisor;
        proof {
            assert(0 <= wide / divisor <= wide) by (nonlinear_arith)
                requires
                    wide >= 0,
                    divisor >= 1,
            ;
        }
        ((-quotient) as i32, (-rest) as i32)
    }
}

} // verus!
