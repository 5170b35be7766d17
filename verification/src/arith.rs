//! Small exact-arithmetic helpers shared by the other modules.

use vstd::prelude::*;

verus! {

/// The full 128-bit product of two 64-bit factors.
pub fn wide_mul(a: u64, b: u64) -> (r: u128)
    ensures
        r == a * b,
{
    proof {
        assert(a * b <= 0xffff_ffff_ffff_ffff * 0xffff_ffff_ffff_ffff) by (nonlinear_arith)
            requires
                0 <= a <= 0xffff_ffff_ffff_ffff,
                0 <= b <= 0xffff_ffff_ffff_ffff,
        ;
    }
    (a as u128) * (b as u128)
}

/// The full 64-bit product of two 32-bit factors.
pub fn wide_mul_u32(a: u32, b: u32) -> (r: u64)
    ensures
        r == a * b,
{
    proof {
        assert(a * b <= 0xffff_ffff * 0xffff_ffff) by (nonlinear_arith)
            requires
                0 <= a <= 0xffff_ffff,
                0 <= b <= 0xffff_ffff,
        ;
    }
    (a as u64) * (b as u64)
}

/// `x` forced into `[lo, hi]`.
pub open spec fn clamp(x: int, lo: int, hi: int) -> int {
    if x < lo {
        lo
    } else if x > hi {
        hi
    } else {
        x
    }
}

pub open spec fn min(a: int, b: int) -> int {
    if a <= b {
        a
    } else {
        b
    }
}

pub open spec fn max(a: int, b: int) -> int {
    if a >= b {
        a
    } else {
        b
    }
}

/// `a - b`, or zero where that would be negative.
pub open spec fn monus(a: int, b: int) -> int {
    if a >= b {
        a - b
    } else {
        0
    }
}

/// `n` without its lowest bit.
pub open spec fn even(n: int) -> int {
    n - n % 2
}

pub fn min_u32(a: u32, b: u32) -> (r: u32)
    ensures
        r == min(a as int, b as int),
{
    if a <= b {
        a
    } else {
        b
    }
}

pub fn max_u32(a: u32, b: u32) -> (r: u32)
    ensures
        r == max(a as int, b as int),
{
    if a >= b {
        a
    } else {
        b
    }
}

/// The lesser and the greater of two numbers are those two numbers, in order.
pub proof fn law_the_lesser_comes_before_the_greater(a: int, b: int)
    ensures
        min(a, b) <= a && min(a, b) <= b,
        max(a, b) >= a && max(a, b) >= b,
        min(a, b) + max(a, b) == a + b,
        min(a, b) == a || min(a, b) == b,
{
}

/// Forcing a number into a range moves it to the nearest place in the range, and
/// leaves it alone where it is in there already.
pub proof fn law_clamping_goes_to_the_nearest(x: int, lo: int, hi: int, other: int)
    requires
        lo <= other <= hi,
    ensures
        lo <= clamp(x, lo, hi) <= hi,
        lo <= x <= hi ==> clamp(x, lo, hi) == x,
        x <= clamp(x, lo, hi) ==> clamp(x, lo, hi) <= other || x == clamp(x, lo, hi),
        x >= clamp(x, lo, hi) ==> clamp(x, lo, hi) >= other || x == clamp(x, lo, hi),
{
}

/// What is left after taking away never falls below zero, and what is taken from
/// more than it comes back by adding.
pub proof fn law_taking_away_stops_at_zero(a: int, b: int)
    ensures
        monus(a, b) >= 0,
        a >= b ==> monus(a, b) + b == a,
        a < b ==> monus(a, b) == 0,
{
}

/// An even number is its own even part, and an odd one loses one.
pub proof fn law_even_parts_are_close(n: int)
    ensures
        even(n) % 2 == 0,
        even(n) <= n <= even(n) + 1,
{
}

} // verus!
