//! Whole-number arithmetic that the geometry of the gradient needs.

use vstd::arithmetic::div_mod::{lemma_fundamental_div_mod, lemma_fundamental_div_mod_converse};
use vstd::prelude::*;

verus! {

/// `root` is the square root of `n`, rounded down.
pub open spec fn is_sqrt_floor(n: int, root: int) -> bool {
    0 <= root && root * root <= n < (root + 1) * (root + 1)
}

/// The square root of `n`, rounded down.
pub open spec fn sqrt_floor(n: int) -> int {
    choose|root: int| is_sqrt_floor(n, root)
}

/// Only one number is the rounded-down square root of `n`.
pub proof fn lemma_sqrt_floor_unique(n: int, root: int)
    requires
        is_sqrt_floor(n, root),
    ensures
        sqrt_floor(n) == root,
{
    let other = sqrt_floor(n);
    assert(is_sqrt_floor(n, other));
    assert(other == root) by (nonlinear_arith)
        requires
            0 <= root,
            0 <= other,
            root * root <= n < (root + 1) * (root + 1),
            other * other <= n < (other + 1) * (other + 1),
    ;
}

/// A larger number has no smaller rounded-down square root.
pub proof fn lemma_sqrt_floor_monotonic(a: int, ra: int, b: int, rb: int)
    requires
        a <= b,
        is_sqrt_floor(a, ra),
        is_sqrt_floor(b, rb),
    ensures
        ra <= rb,
{
    assert(ra <= rb) by (nonlinear_arith)
        requires
            a <= b,
            0 <= ra,
            0 <= rb,
            ra * ra <= a,
            b < (rb + 1) * (rb + 1),
    ;
}

/// The square root of `n`, rounded down.
pub fn integer_sqrt(n: u128) -> (root: u64)
    ensures
        is_sqrt_floor(n as int, root as int),
        root == sqrt_floor(n as int),
{
    let mut low: u128 = 0;
    let mut high: u128 = 0x1_0000_0000_0000_0000;
    assert(0x1_0000_0000_0000_0000 * 0x1_0000_0000_0000_0000 > n) by (nonlinear_arith)
        requires
            n <= 0xffff_ffff_ffff_ffff_ffff_ffff_ffff_ffff,
    ;
    while high - low > 1
        invariant
            low < high <= 0x1_0000_0000_0000_0000,
            low * low <= n < high * high,
        decreases high - low,
    {
        let middle: u128 = low + (high - low) / 2;
        assert(middle * middle <= 0xffff_ffff_ffff_ffff * 0xffff_ffff_ffff_ffff)
            by (nonlinear_arith)
            requires
                0 <= middle <= 0xffff_ffff_ffff_ffff,
        ;
        if middle * middle <= n {
            low = middle;
        } else {
            high = middle;
        }
    }
    proof {
        lemma_sqrt_floor_unique(n as int, low as int);
    }
    low as u64
}

/// Every number from 0 on has a rounded-down square root.
pub proof fn lemma_sqrt_floor_exists(n: int)
    requires
        0 <= n,
    ensures
        is_sqrt_floor(n, sqrt_floor(n)),
    decreases n,
{
    if n == 0 {
        assert(is_sqrt_floor(0, 0));
    } else {
        lemma_sqrt_floor_exists(n - 1);
        let before = sqrt_floor(n - 1);
        if n < (before + 1) * (before + 1) {
            assert(is_sqrt_floor(n, before));
        } else {
            assert(is_sqrt_floor(n, before + 1)) by (nonlinear_arith)
                requires
                    0 <= before,
                    before * before <= n - 1 < (before + 1) * (before + 1),
                    n >= (before + 1) * (before + 1),
            ;
        }
    }
}

/// The remainder of a negative number, from that of its opposite.
pub proof fn lemma_remainder_of_negative(value: int, modulus: int)
    requires
        value < 0,
        0 < modulus,
    ensures
        value % modulus == if (-value) % modulus == 0 {
            0
        } else {
            modulus - (-value) % modulus
        },
{
    let q = (-value) / modulus;
    let r = (-value) % modulus;
    lemma_fundamental_div_mod(-value, modulus);
    if r == 0 {
        assert(value == (-q) * modulus + 0) by (nonlinear_arith)
            requires
                -value == modulus * q + r,
                r == 0,
        ;
        lemma_fundamental_div_mod_converse(value, modulus, -q, 0);
    } else {
        assert(value == (-q - 1) * modulus + (modulus - r)) by (nonlinear_arith)
            requires
                -value == modulus * q + r,
        ;
        lemma_fundamental_div_mod_converse(value, modulus, -q - 1, modulus - r);
    }
}

} // verus!
