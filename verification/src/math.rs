//! Integer arithmetic underlying the fixed-point prices: powers of ten and
//! the flooring square root.

use vstd::prelude::*;

verus! {

/// Number of atomics in one unit of an 18-digit fixed-point decimal, 10^18.
pub const FRAC: u128 = 1_000_000_000_000_000_000;

/// 10^n.
pub open spec fn p10(n: nat) -> nat
    decreases n,
{
    if n == 0 {
        1
    } else {
        10 * p10((n - 1) as nat)
    }
}

pub proof fn lemma_p10_pos(n: nat)
    ensures
        p10(n) >= 1,
    decreases n,
{
    if n > 0 {
        lemma_p10_pos((n - 1) as nat);
    }
}

pub proof fn lemma_p10_adds(a: nat, b: nat)
    ensures
        p10(a + b) == p10(a) * p10(b),
    decreases a,
{
    if a == 0 {
        assert(p10(a) * p10(b) == p10(b)) by (nonlinear_arith)
            requires p10(a) == 1;
    } else {
        lemma_p10_adds((a - 1) as nat, b);
        assert(((a - 1) as nat) + b == (a + b - 1) as nat);
        let pa1 = p10((a - 1) as nat);
        let pb = p10(b);
        assert(p10(a + b) == 10 * p10((a + b - 1) as nat));
        assert(p10((a + b - 1) as nat) == pa1 * pb);
        assert(p10(a) == 10 * pa1);
        assert(p10(a) * pb == 10 * (pa1 * pb)) by (nonlinear_arith)
            requires p10(a) == 10 * pa1;
    }
}

pub proof fn lemma_frac_is_p10_18()
    ensures
        FRAC as nat == p10(18),
{
    reveal_with_fuel(p10, 19);
}

/// The flooring square root: the largest r with r * r <= n.
pub open spec fn isqrt(n: nat) -> nat
    decreases n,
{
    if n == 0 {
        0
    } else {
        let r = isqrt((n - 1) as nat);
        if (r + 1) * (r + 1) <= n {
            (r + 1) as nat
        } else {
            r
        }
    }
}

pub proof fn lemma_isqrt_bounds(n: nat)
    ensures
        isqrt(n) * isqrt(n) <= n,
        n < (isqrt(n) + 1) * (isqrt(n) + 1),
    decreases n,
{
    let s = isqrt(n);
    if n == 0 {
        assert(s == 0);
        assert(s * s <= n && n < (s + 1) * (s + 1)) by (nonlinear_arith)
            requires n == 0 && s == 0;
    } else {
        lemma_isqrt_bounds((n - 1) as nat);
        let r = isqrt((n - 1) as nat);
        assert(r * r <= n - 1);
        assert(n - 1 < (r + 1) * (r + 1));
        if (r + 1) * (r + 1) <= n {
            assert(s == r + 1);
            assert(s * s <= n) by (nonlinear_arith)
                requires s == r + 1 && (r + 1) * (r + 1) <= n;
            assert(n < (s + 1) * (s + 1)) by (nonlinear_arith)
                requires s == r + 1 && n - 1 < (r + 1) * (r + 1);
        } else {
            assert(s == r);
            assert(s * s <= n) by (nonlinear_arith)
                requires s == r && r * r <= n - 1 && n >= 1;
            assert(n < (s + 1) * (s + 1)) by (nonlinear_arith)
                requires s == r && !((r + 1) * (r + 1) <= n);
        }
    }
}

pub proof fn lemma_isqrt_monotone(a: nat, b: nat)
    requires
        a <= b,
    ensures
        isqrt(a) <= isqrt(b),
    decreases b,
{
    if a < b {
        lemma_isqrt_monotone(a, (b - 1) as nat);
    }
}

} // verus!
