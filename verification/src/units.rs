//! Fixed-point arithmetic for rates, ratios and percentages.
//!
//! Fractional quantities are whole numbers of millionths of their unit: a
//! rate of 50 KiB/s is `50_000_000`, a ratio of 1.5 is `1_500_000`, and
//! 20 % is `20_000_000`.

use vstd::arithmetic::div_mod::{lemma_div_is_ordered, lemma_div_multiples_vanish};
use vstd::prelude::*;

verus! {

/// One hundred percent, in millionths of a percent.
pub const FULL_PERCENT: u64 = 100_000_000;

/// `x`, or the largest 64-bit unsigned number where `x` is larger.
pub open spec fn capped(x: int) -> nat {
    if x > u64::MAX {
        u64::MAX as nat
    } else if x < 0 {
        0
    } else {
        x as nat
    }
}

/// `a * b * c / d` rounded down, capped at the largest 64-bit unsigned
/// number.
pub open spec fn scaled(a: nat, b: nat, c: nat, d: nat) -> nat {
    capped((a * b * c) as int / d as int)
}

/// The size of a number without its sign.
pub open spec fn magnitude(x: int) -> nat {
    if x < 0 {
        (-x) as nat
    } else {
        x as nat
    }
}

/// `a + b`, capped.
pub open spec fn capped_sum(a: nat, b: nat) -> nat {
    capped((a + b) as int)
}

/// `a - b`, or zero where `b` is larger.
pub open spec fn floored_difference(a: nat, b: nat) -> nat {
    if a >= b {
        (a - b) as nat
    } else {
        0
    }
}

proof fn lemma_large_quotient(x: int, d: int)
    requires
        x >= 0x1_0000_0000_0000_0000_0000_0000_0000_0000,
        0 < d < 0x1_0000_0000_0000_0000,
    ensures
        x / d >= 0x1_0000_0000_0000_0000,
{
    let big: int = 0x1_0000_0000_0000_0000;
    let low = d * big;
    assert(low <= big * big) by (nonlinear_arith)
        requires
            low == d * big,
            0 < d < big,
            big > 0,
    ;
    assert(big * big == 0x1_0000_0000_0000_0000_0000_0000_0000_0000) by (nonlinear_arith)
        requires
            big == 0x1_0000_0000_0000_0000,
    ;
    lemma_div_is_ordered(low, x, d);
    lemma_div_multiples_vanish(big, d);
    assert(low / d == big);
}

/// Computes `a * b * c / d`, rounded down and capped.
pub fn scale(a: u64, b: u64, c: u64, d: u64) -> (r: u64)
    requires
        d > 0,
    ensures
        r == scaled(a as nat, b as nat, c as nat, d as nat),
{
    assert(a as int * b as int <= 0xffff_ffff_ffff_ffff * 0xffff_ffff_ffff_ffff)
        by (nonlinear_arith)
        requires
            0 <= a <= 0xffff_ffff_ffff_ffff,
            0 <= b <= 0xffff_ffff_ffff_ffff,
    ;
    assert(a as int * b as int >= 0) by (nonlinear_arith)
        requires
            0 <= a,
            0 <= b,
    ;
    let ab: u128 = (a as u128) * (b as u128);
    assert(ab as int * c as int >= 0) by (nonlinear_arith)
        requires
            0 <= ab,
            0 <= c,
    ;
    match ab.checked_mul(c as u128) {
        Some(p) => {
            let q: u128 = p / (d as u128);
            if q > u64::MAX as u128 {
                u64::MAX
            } else {
                q as u64
            }
        },
        None => {
            proof {
                lemma_large_quotient(ab as int * c as int, d as int);
            }
            u64::MAX
        },
    }
}

/// `a + b`, capped.
pub fn add_capped(a: u64, b: u64) -> (r: u64)
    ensures
        r == capped_sum(a as nat, b as nat),
{
    a.saturating_add(b)
}

/// The size of `x` without its sign.
pub fn size_of(x: i64) -> (r: u64)
    ensures
        r == magnitude(x as int),
{
    if x >= 0 {
        x as u64
    } else {
        let shifted: u64 = (x - i64::MIN) as u64;
        0x8000_0000_0000_0000u64 - shifted
    }
}

} // verus!
