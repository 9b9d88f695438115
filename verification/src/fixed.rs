//! Fixed-point scalars: an `i32` counted in millionths.

use vstd::prelude::*;

verus! {

/// The integer that stands for the real number one.
pub const ONE: i32 = 1_000_000;

/// `value` held between `low` and `high`.
pub open spec fn clamp(value: int, low: int, high: int) -> int {
    if value < low {
        low
    } else if value > high {
        high
    } else {
        value
    }
}

/// `value` held within the range of `i32`.
pub open spec fn saturate(value: int) -> int {
    clamp(value, i32::MIN as int, i32::MAX as int)
}

/// For a negative dividend, the floored quotient in terms of a quotient of
/// non-negative numbers.
proof fn lemma_floor_div_negative(a: int, b: int)
    requires
        a < 0,
        b > 0,
    ensures
        a / b == -((-(a + 1)) / b) - 1,
{
    let n = -(a + 1);
    let t = n / b;
    let r = n % b;
    assert(n == b * t + r && 0 <= r < b) by (nonlinear_arith)
        requires
            t == n / b,
            r == n % b,
            b > 0,
    ;
    assert(a == (-t - 1) * b + (b - 1 - r)) by (nonlinear_arith)
        requires
            n == b * t + r,
            n == -(a + 1),
    ;
    vstd::arithmetic::div_mod::lemma_fundamental_div_mod_converse(a, b, -t - 1, b - 1 - r);
}

/// Quotient rounded towards negative infinity.
pub fn floor_div(a: i128, b: i128) -> (q: i128)
    requires
        b > 0,
    ensures
        q == a as int / b as int,
{
    if a >= 0 {
        a / b
    } else {
        proof {
            lemma_floor_div_negative(a as int, b as int);
        }
        (a + 1) / b - 1
    }
}

/// Narrows to `i32`, stopping at the ends of its range.
pub fn saturate_i32(value: i128) -> (r: i32)
    ensures
        r == saturate(value as int),
{
    if value < i32::MIN as i128 {
        i32::MIN
    } else if value > i32::MAX as i128 {
        i32::MAX
    } else {
        value as i32
    }
}

} // verus!
