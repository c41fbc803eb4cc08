//! Integer square roots, and the few facts about squares that the rest of
//! the crate leans on.

use vstd::arithmetic::div_mod::{lemma_fundamental_div_mod, lemma_mod_bound};
use vstd::prelude::*;

verus! {

/// Whether `r` is the square root of `n`, rounded down.
pub open spec fn is_floor_sqrt(n: nat, r: nat) -> bool {
    r * r <= n < (r + 1) * (r + 1)
}

/// The square root of `n`, rounded down: the one `r` with
/// `r * r <= n < (r + 1) * (r + 1)`.
pub open spec fn floor_sqrt(n: nat) -> nat {
    choose|r: nat| is_floor_sqrt(n, r)
}

/// Squaring keeps the order of naturals.
pub proof fn lemma_square_le(a: nat, b: nat)
    requires
        a <= b,
    ensures
        a * a <= b * b,
{
    assert(a * a <= b * b) by (nonlinear_arith)
        requires
            a <= b,
    ;
}

/// A smaller square has the smaller root.
pub proof fn lemma_square_lt_root(a: nat, b: nat)
    requires
        a * a < b * b,
    ensures
        a < b,
{
    if a >= b {
        lemma_square_le(b, a);
    }
}

/// No two naturals are both the rounded-down root of `n`.
pub proof fn lemma_floor_sqrt_unique(n: nat, r: nat)
    requires
        is_floor_sqrt(n, r),
    ensures
        floor_sqrt(n) == r,
{
    let c = floor_sqrt(n);
    assert(is_floor_sqrt(n, c));
    if c < r {
        lemma_square_le(c + 1, r);
    } else if r < c {
        lemma_square_le(r + 1, c);
    }
}

/// Every natural has a rounded-down root.
pub proof fn lemma_floor_sqrt_exists(n: nat)
    ensures
        is_floor_sqrt(n, floor_sqrt(n)),
    decreases n,
{
    if n == 0 {
        assert(0nat * 0nat == 0 && (0nat + 1) * (0nat + 1) == 1) by (nonlinear_arith);
        assert(is_floor_sqrt(0, 0));
    } else {
        lemma_floor_sqrt_exists((n - 1) as nat);
        let r = floor_sqrt((n - 1) as nat);
        if (r + 1) * (r + 1) <= n {
            assert((r + 2) * (r + 2) > (r + 1) * (r + 1)) by (nonlinear_arith);
            assert(is_floor_sqrt(n, r + 1));
        } else {
            assert(is_floor_sqrt(n, r));
        }
    }
}

/// The root of a perfect square.
pub proof fn lemma_floor_sqrt_of_square(r: nat)
    ensures
        floor_sqrt(r * r) == r,
{
    assert(r * r < (r + 1) * (r + 1)) by (nonlinear_arith);
    lemma_floor_sqrt_unique(r * r, r);
}

/// The root of a quotient, without the division: `k = floor_sqrt(a / n)` is
/// the largest `k` with `k * k * n <= a`.
pub proof fn lemma_floor_sqrt_of_quotient(a: nat, n: nat)
    requires
        n > 0,
    ensures
        floor_sqrt(a / n) * floor_sqrt(a / n) * n <= a,
        a < (floor_sqrt(a / n) + 1) * (floor_sqrt(a / n) + 1) * n,
{
    let q = a / n;
    let k = floor_sqrt(q);
    lemma_floor_sqrt_exists(q);
    lemma_fundamental_div_mod(a as int, n as int);
    lemma_mod_bound(a as int, n as int);
    assert(q * n <= a < (q + 1) * n) by (nonlinear_arith)
        requires
            a == n * q + (a % n),
            0 <= a % n < n,
    ;
    assert(k * k * n <= q * n) by (nonlinear_arith)
        requires
            k * k <= q,
    ;
    assert((k + 1) * (k + 1) * n >= (q + 1) * n) by (nonlinear_arith)
        requires
            (k + 1) * (k + 1) >= q + 1,
    ;
}

/// Computes the square root of `n`, rounded down, by bisection.
pub fn isqrt(n: u128) -> (r: u64)
    ensures
        r == floor_sqrt(n as nat),
        is_floor_sqrt(n as nat, r as nat),
{
    let mut lo: u128 = 0;
    let mut hi: u128 = 0x1_0000_0000_0000_0000;
    assert(0x1_0000_0000_0000_0000 * 0x1_0000_0000_0000_0000 > n) by (nonlinear_arith)
        requires
            n <= u128::MAX,
    ;
    while hi - lo > 1
        invariant
            lo < hi <= 0x1_0000_0000_0000_0000,
            lo * lo <= n < hi * hi,
        decreases hi - lo,
    {
        let mid: u128 = lo + (hi - lo) / 2;
        assert(mid * mid <= u128::MAX) by (nonlinear_arith)
            requires
                mid < 0x1_0000_0000_0000_0000,
        ;
        if mid * mid <= n {
            lo = mid;
        } else {
            hi = mid;
        }
    }
    proof {
        assert(hi == lo + 1);
        lemma_floor_sqrt_unique(n as nat, lo as nat);
    }
    lo as u64
}

} // verus!
