//! Laws of the engine, stated and proved over the same spec functions that
//! the entry points' contracts use.

use vstd::prelude::*;

use vstd::arithmetic::div_mod::{
    lemma_div_is_ordered, lemma_div_of0, lemma_div_pos_is_pos, lemma_fundamental_div_mod,
    lemma_fundamental_div_mod_converse,
};
use vstd::arithmetic::mul::lemma_mul_nonnegative;

use crate::arb_create::{value_weight, wsum_prefix, lemma_wsum_prefix_nonneg};
use crate::dec::{
    Dec, dec_sqrt_spec, lemma_dec_sqrt_monotone, lemma_dec_sqrt_square_le, ratio_atomics,
};
use crate::flash_loan::repay_amount_spec;
use crate::math::{FRAC, lemma_frac_is_p10_18, lemma_p10_adds, p10};
use crate::query::{MULTIPLIER_3, SQRT_DESCALE, estimate_spec, nav_prefix, scaled_sqrt};
use crate::ContractError;

verus! {

/// The remainder of an integer division by a positive divisor.
proof fn lemma_mod_range(x: int, d: int)
    requires
        0 < d,
    ensures
        0 <= x % d < d,
{
    lemma_fundamental_div_mod(x, d);
    if x % d < 0 || x % d >= d {
        lemma_fundamental_div_mod_converse(x, d, x / d, x % d);
    }
}

/// The repayment owed for a loan is the principal plus the ceiling of one
/// 999th of it, and therefore strictly exceeds the principal.
pub proof fn lemma_repay_exceeds_loan(loan: int)
    requires
        1 <= loan,
    ensures
        repay_amount_spec(loan) == loan + (loan + 998) / 999,
        repay_amount_spec(loan) > loan,
{
    lemma_fundamental_div_mod(loan, 999);
    lemma_mod_range(loan, 999);
    let q = loan / 999;
    let rm = loan % 999;
    if rm == 0 {
        assert(loan + 998 == q * 999 + 998);
        lemma_fundamental_div_mod_converse(loan + 998, 999, q, 998);
    } else {
        assert(loan + 998 == (q + 1) * 999 + (rm - 1)) by (nonlinear_arith)
            requires loan == 999 * q + rm;
        lemma_fundamental_div_mod_converse(loan + 998, 999, q + 1, rm - 1);
    }
    assert((loan + 998) / 999 >= 1) by {
        lemma_div_is_ordered(999, loan + 998, 999);
        assert(999int / 999 == 1) by (nonlinear_arith);
    }
}

/// The sum of the pro-rata shares of the first n target entries: entries
/// with a zero value weight contribute nothing, every other entry
/// contributes floor(loan * weight / total).
pub open spec fn shares_sum(
    target: Seq<crate::asset::AssetV>,
    prices: Seq<crate::dec::Dec>,
    loan: int,
    total: int,
    n: int,
) -> int
    decreases n,
{
    if n <= 0 {
        0
    } else {
        let w = value_weight(target[n - 1], prices[n - 1]);
        shares_sum(target, prices, loan, total, n - 1) + if w == 0 {
            0int
        } else {
            (loan * w) / total
        }
    }
}

/// Division distributes over addition up to rounding: the floors of two
/// summands never exceed the floor of their sum.
proof fn lemma_div_add_le(x: int, y: int, d: int)
    requires
        0 <= x,
        0 <= y,
        0 < d,
    ensures
        x / d + y / d <= (x + y) / d,
{
    lemma_fundamental_div_mod(x, d);
    lemma_fundamental_div_mod(y, d);
    lemma_mod_range(x, d);
    lemma_mod_range(y, d);
    let qx = x / d;
    let qy = y / d;
    let rx = x % d;
    let ry = y % d;
    if rx + ry < d {
        assert(x + y == (qx + qy) * d + (rx + ry)) by (nonlinear_arith)
            requires x == d * qx + rx && y == d * qy + ry;
        lemma_fundamental_div_mod_converse(x + y, d, qx + qy, rx + ry);
    } else {
        assert(x + y == (qx + qy + 1) * d + (rx + ry - d)) by (nonlinear_arith)
            requires x == d * qx + rx && y == d * qy + ry;
        lemma_fundamental_div_mod_converse(x + y, d, qx + qy + 1, rx + ry - d);
    }
}

proof fn lemma_shares_sum_upper(
    target: Seq<crate::asset::AssetV>,
    prices: Seq<crate::dec::Dec>,
    loan: int,
    total: int,
    n: int,
)
    requires
        0 <= loan,
        0 < total,
    ensures
        shares_sum(target, prices, loan, total, n) <= (loan * wsum_prefix(target, prices, n))
            / total,
    decreases n,
{
    if n <= 0 {
        assert(loan * wsum_prefix(target, prices, n) == 0) by (nonlinear_arith)
            requires wsum_prefix(target, prices, n) == 0;
        lemma_div_of0(total);
    } else {
        lemma_shares_sum_upper(target, prices, loan, total, n - 1);
        let s1 = wsum_prefix(target, prices, n - 1);
        let w = value_weight(target[n - 1], prices[n - 1]);
        lemma_wsum_prefix_nonneg(target, prices, n - 1);
        lemma_mul_nonnegative(target[n - 1].amount as int, prices[n - 1].atomics as int);
        lemma_div_pos_is_pos(target[n - 1].amount as int * prices[n - 1].atomics as int,
            FRAC as int);
        assert(w >= 0);
        lemma_mul_nonnegative(loan, s1);
        lemma_mul_nonnegative(loan, w);
        lemma_div_add_le(loan * s1, loan * w, total);
        assert(loan * s1 + loan * w == loan * (s1 + w)) by (nonlinear_arith);
        if w == 0 {
        } else {
            lemma_div_pos_is_pos(loan * w, total);
        }
        lemma_div_pos_is_pos(loan * s1, total);
    }
}

proof fn lemma_shares_sum_lower(
    target: Seq<crate::asset::AssetV>,
    prices: Seq<crate::dec::Dec>,
    loan: int,
    total: int,
    n: int,
)
    requires
        0 <= n,
        0 <= loan,
        0 < total,
    ensures
        total * shares_sum(target, prices, loan, total, n) >= loan * wsum_prefix(target, prices, n)
            - n * total + n,
    decreases n,
{
    if n == 0 {
        assert(loan * wsum_prefix(target, prices, 0) == 0) by (nonlinear_arith)
            requires wsum_prefix(target, prices, 0) == 0;
        assert(total * shares_sum(target, prices, loan, total, 0) == 0) by (nonlinear_arith)
            requires shares_sum(target, prices, loan, total, 0) == 0;
        assert(n * total == 0) by (nonlinear_arith)
            requires n == 0;
    } else {
        lemma_shares_sum_lower(target, prices, loan, total, n - 1);
        assert(n * total == (n - 1) * total + total) by (nonlinear_arith);
        let s1 = wsum_prefix(target, prices, n - 1);
        let sh1 = shares_sum(target, prices, loan, total, n - 1);
        let w = value_weight(target[n - 1], prices[n - 1]);
        lemma_mul_nonnegative(target[n - 1].amount as int, prices[n - 1].atomics as int);
        lemma_div_pos_is_pos(target[n - 1].amount as int * prices[n - 1].atomics as int,
            FRAC as int);
        if w == 0 {
            assert(loan * (s1 + w) == loan * s1) by (nonlinear_arith)
                requires w == 0;
            assert(total * shares_sum(target, prices, loan, total, n) == total * sh1)
                by (nonlinear_arith)
                requires shares_sum(target, prices, loan, total, n) == sh1;
        } else {
            lemma_fundamental_div_mod(loan * w, total);
            lemma_mod_range(loan * w, total);
            let q = (loan * w) / total;
            assert(total * q >= loan * w - total + 1);
            assert(total * (sh1 + q) == total * sh1 + total * q) by (nonlinear_arith);
            assert(loan * (s1 + w) == loan * s1 + loan * w) by (nonlinear_arith);
            assert(total * shares_sum(target, prices, loan, total, n) == total * sh1 + total * q)
                by (nonlinear_arith)
                requires shares_sum(target, prices, loan, total, n) == sh1 + q;
        }
    }
}

/// The create-path split: the pro-rata shares of the loan sum to the loan
/// up to integer rounding — never more than the loan, and short of it by
/// less than one unit per target entry. Entries with a zero value weight
/// take no share at all (see [`shares_sum`] and the create-path spec).
pub proof fn lemma_create_share_split(
    target: Seq<crate::asset::AssetV>,
    prices: Seq<crate::dec::Dec>,
    loan: int,
    n: int,
)
    requires
        0 <= loan,
        0 <= n,
        wsum_prefix(target, prices, n) > 0,
    ensures
        shares_sum(target, prices, loan, wsum_prefix(target, prices, n), n) <= loan,
        shares_sum(target, prices, loan, wsum_prefix(target, prices, n), n) > loan - n,
{
    let total = wsum_prefix(target, prices, n);
    lemma_shares_sum_upper(target, prices, loan, total, n);
    assert((loan * total) / total == loan) by {
        lemma_fundamental_div_mod_converse(loan * total, total, loan, 0);
    }
    lemma_shares_sum_lower(target, prices, loan, total, n);
    let sh = shares_sum(target, prices, loan, total, n);
    assert(n >= 1);
    assert(total * sh >= loan * total - n * total + n);
    assert(sh > loan - n) by (nonlinear_arith)
        requires
            total * sh >= loan * total - n * total + n,
            n >= 1,
            total > 0;
}

/// A target entry with a zero value weight adds no rebalancing swap: the
/// create path's instruction sequence is unchanged by it.
pub proof fn lemma_zero_weight_entry_emits_nothing(
    target: Seq<crate::asset::AssetV>,
    prices: Seq<crate::dec::Dec>,
    loan: int,
    total: int,
    aust: Seq<char>,
    anchor: Seq<char>,
    pairs: Seq<crate::asset::PairEntryV>,
    n: int,
)
    requires
        n >= 1,
        value_weight(target[n - 1], prices[n - 1]) == 0,
    ensures
        crate::arb_create::create_swaps_spec(target, prices, loan, total, aust, anchor, pairs, n)
            == crate::arb_create::create_swaps_spec(
            target,
            prices,
            loan,
            total,
            aust,
            anchor,
            pairs,
            n - 1,
        ),
{
}

proof fn lemma_div_mul_le(x: int, d: int)
    requires
        0 <= x,
        0 < d,
    ensures
        0 <= x / d,
        (x / d) * d <= x,
{
    lemma_fundamental_div_mod(x, d);
    lemma_mod_range(x, d);
    lemma_div_pos_is_pos(x, d);
    assert((x / d) * d == d * (x / d)) by (nonlinear_arith);
}

proof fn lemma_sq_le(x: int, y: int)
    requires
        0 <= x <= y,
    ensures
        x * x <= y * y,
{
    assert(x * x <= y * y) by (nonlinear_arith)
        requires 0 <= x <= y;
}

proof fn lemma_mul_cancel_le(x: int, y: int, k: int)
    requires
        x * k <= y * k,
        0 < k,
    ensures
        x <= y,
{
    assert(x <= y) by (nonlinear_arith)
        requires x * k <= y * k && 0 < k;
}

proof fn lemma_scale_consts()
    ensures
        p10(8) == 100_000_000,
        p10(10) == 10_000_000_000,
        p10(12) == MULTIPLIER_3,
        p10(14) == SQRT_DESCALE,
        p10(16) == 10_000_000_000_000_000,
        p10(18) == FRAC,
{
    reveal_with_fuel(p10, 19);
}

/// The bound the decimal square root gives a scaled square root: the
/// square of scaled_sqrt(x), carried at four extra digits, stays within
/// x itself — scaled_sqrt(x)^2 * 10^10 <= x.
proof fn lemma_scaled_sqrt_sq(x: int)
    requires
        0 <= x,
    ensures
        0 <= scaled_sqrt(x),
        scaled_sqrt(x) * scaled_sqrt(x) * p10(10) <= x,
{
    lemma_scale_consts();
    let s = dec_sqrt_spec(x as nat) as int;
    let a = scaled_sqrt(x);
    lemma_dec_sqrt_square_le(x as nat);
    assert(s * s <= x * p10(18)) by (nonlinear_arith)
        requires
            dec_sqrt_spec(x as nat) * dec_sqrt_spec(x as nat) <= (x as nat) * p10(18),
            s == dec_sqrt_spec(x as nat) as int,
            0 <= x;
    lemma_div_mul_le(s, SQRT_DESCALE as int);
    assert(a * (SQRT_DESCALE as int) <= s);
    lemma_sq_le(a * (SQRT_DESCALE as int), s);
    assert((a * (SQRT_DESCALE as int)) * (a * (SQRT_DESCALE as int)) == (a * a) * (p10(14) * p10(
        14,
    ))) by (nonlinear_arith)
        requires SQRT_DESCALE as int == p10(14);
    lemma_p10_adds(14, 14);
    lemma_p10_adds(10, 18);
    assert((a * a) * p10(28) == ((a * a) * p10(10)) * p10(18)) by (nonlinear_arith)
        requires p10(28) == p10(10) * p10(18);
    assert(((a * a) * p10(10)) * p10(18) <= x * p10(18));
    lemma_mul_cancel_le((a * a) * p10(10), x, p10(18) as int);
    assert(a * a * p10(10) == (a * a) * p10(10)) by (nonlinear_arith);
}

/// Extracts the redeem-branch quantities from an estimate known to be Ok
/// with market below intrinsic: the estimate equals Ok((market, intrinsic,
/// clamped front/10^12 - base_reserve)).
proof fn lemma_redeem_branch_shape(supply: int, inv: Seq<u128>, prices: Seq<Dec>, ust: int, ct:
    int)
    requires
        0 <= ust,
        0 < ct,
        estimate_spec(supply, inv, prices, ust, ct) is Ok,
        ratio_atomics(ust, ct) < ratio_atomics(
            nav_prefix(inv, prices, inv.len() as int),
            supply,
        ),
    ensures
        ({
            let nav = nav_prefix(inv, prices, inv.len() as int);
            let i_at = ratio_atomics(nav, supply);
            let m_at = ratio_atomics(ust, ct);
            let front = scaled_sqrt(i_at) * scaled_sqrt(ct * (FRAC as int)) * scaled_sqrt(
                ust * (FRAC as int),
            );
            let base = front / (MULTIPLIER_3 as int);
            estimate_spec(supply, inv, prices, ust, ct) == Ok::<(int, int, int), ContractError>(
                (m_at, i_at, if base >= ust {
                    base - ust
                } else {
                    0int
                }),
            )
        }),
{
}

/// Applying the sized redeem trade to the pool never overshoots: with the
/// trade bought into the pool, the implied price (base + trade)^2 / (k)
/// stays at or below the intrinsic price. In cross-multiplied form:
/// (base_reserve + trade)^2 * 10^18 <= intrinsic_atomics * both reserves.
pub proof fn lemma_redeem_price_at_most_intrinsic(
    supply: int,
    inv: Seq<u128>,
    prices: Seq<Dec>,
    ust: int,
    ct: int,
)
    requires
        0 <= ust,
        0 < ct,
        estimate_spec(supply, inv, prices, ust, ct) is Ok,
        ratio_atomics(ust, ct) < ratio_atomics(
            nav_prefix(inv, prices, inv.len() as int),
            supply,
        ),
    ensures
        ({
            let est = estimate_spec(supply, inv, prices, ust, ct);
            est matches Ok(t) && (ust + t.2) * (ust + t.2) * (FRAC as int) <= t.1 * ct * ust
        }),
{
    lemma_scale_consts();
    lemma_redeem_branch_shape(supply, inv, prices, ust, ct);
    let nav = nav_prefix(inv, prices, inv.len() as int);
    let i_at = ratio_atomics(nav, supply);
    let m_at = ratio_atomics(ust, ct);
    let a = scaled_sqrt(i_at);
    let b = scaled_sqrt(ct * (FRAC as int));
    let c = scaled_sqrt(ust * (FRAC as int));
    let front = a * b * c;
    let base = front / (MULTIPLIER_3 as int);
    let cost: int = if base >= ust {
        base - ust
    } else {
        0int
    };

    crate::math::lemma_p10_pos(18);
    assert(0 <= m_at) by {
        lemma_mul_nonnegative(ust, FRAC as int);
        lemma_div_pos_is_pos(ust * (FRAC as int), ct);
    }
    assert(0 <= i_at);
    lemma_mul_nonnegative(ct, FRAC as int);
    lemma_mul_nonnegative(ust, FRAC as int);

    lemma_scaled_sqrt_sq(i_at);
    lemma_scaled_sqrt_sq(ct * (FRAC as int));
    lemma_scaled_sqrt_sq(ust * (FRAC as int));
    // b^2 <= ct * 10^8 and c^2 <= ust * 10^8, peeling the 10^18 apart
    lemma_p10_adds(8, 28);
    lemma_p10_adds(10, 18);
    lemma_p10_adds(14, 14);
    assert(b * b * p10(10) <= ct * (FRAC as int));
    assert(b * b <= ct * p10(8)) by (nonlinear_arith)
        requires
            b * b * p10(10) <= ct * p10(18),
            p10(18) == p10(10) * p10(8),
            p10(10) > 0,
            0 <= b * b,
            0 <= ct;
    assert(c * c <= ust * p10(8)) by (nonlinear_arith)
        requires
            c * c * p10(10) <= ust * p10(18),
            p10(18) == p10(10) * p10(8),
            p10(10) > 0,
            0 <= c * c,
            0 <= ust;

    let x1 = a * a;
    let y23 = (b * b) * (c * c);
    assert(0 <= x1) by (nonlinear_arith)
        requires x1 == a * a;
    assert(0 <= b * b && 0 <= c * c) by (nonlinear_arith);
    assert(0 <= y23) by (nonlinear_arith)
        requires y23 == (b * b) * (c * c) && 0 <= b * b && 0 <= c * c;
    assert(y23 <= (ct * p10(8)) * (ust * p10(8))) by (nonlinear_arith)
        requires
            y23 == (b * b) * (c * c),
            b * b <= ct * p10(8),
            c * c <= ust * p10(8),
            0 <= b * b,
            0 <= c * c,
            0 <= ct,
            0 <= ust,
            0 < p10(8);
    lemma_p10_adds(8, 8);
    assert((ct * p10(8)) * (ust * p10(8)) == (ct * ust) * p10(16)) by (nonlinear_arith)
        requires p10(16) == p10(8) * p10(8);
    assert((x1 * p10(10)) * y23 <= i_at * ((ct * ust) * p10(16))) by (nonlinear_arith)
        requires
            x1 * p10(10) <= i_at,
            y23 <= (ct * ust) * p10(16),
            0 <= x1 * p10(10),
            0 <= y23,
            0 <= i_at,
            0 <= (ct * ust) * p10(16);

    lemma_mul_nonnegative(ct, ust);
    lemma_mul_nonnegative(ct * ust, p10(16) as int);
    assert(0 <= x1 * p10(10)) by (nonlinear_arith)
        requires 0 <= x1;

    // base^2 * 10^24 <= front^2 == x1 * y23
    assert(0 <= front) by (nonlinear_arith)
        requires front == a * b * c && 0 <= a && 0 <= b && 0 <= c;
    lemma_div_mul_le(front, MULTIPLIER_3 as int);
    lemma_sq_le(base * (MULTIPLIER_3 as int), front);
    lemma_p10_adds(12, 12);
    assert((base * (MULTIPLIER_3 as int)) * (base * (MULTIPLIER_3 as int)) == (base * base) * p10(
        24,
    )) by (nonlinear_arith)
        requires MULTIPLIER_3 as int == p10(12) && p10(24) == p10(12) * p10(12);
    assert(front * front == x1 * y23) by (nonlinear_arith)
        requires front == a * b * c && x1 == a * a && y23 == (b * b) * (c * c);
    assert((base * base) * p10(24) <= x1 * y23);

    // multiply through by 10^10 and cancel 10^16
    assert(((base * base) * p10(24)) * p10(10) <= (x1 * p10(10)) * y23) by (nonlinear_arith)
        requires (base * base) * p10(24) <= x1 * y23 && 0 < p10(10);
    lemma_p10_adds(24, 10);
    lemma_p10_adds(18, 16);
    assert(((base * base) * p10(24)) * p10(10) == ((base * base) * p10(18)) * p10(16))
        by (nonlinear_arith)
        requires p10(24) * p10(10) == p10(34) && p10(34) == p10(18) * p10(16);
    assert(i_at * ((ct * ust) * p10(16)) == (i_at * (ct * ust)) * p10(16)) by (nonlinear_arith);
    lemma_mul_cancel_le((base * base) * p10(18), i_at * (ct * ust), p10(16) as int);
    assert((base * base) * p10(18) <= i_at * (ct * ust));

    // the traded-up reserve is base when the trade is positive, else ust
    if base >= ust {
        assert(ust + cost == base);
        assert((ust + cost) * (ust + cost) * (FRAC as int) <= i_at * ct * ust) by (nonlinear_arith)
            requires
                (base * base) * p10(18) <= i_at * (ct * ust),
                ust + cost == base,
                FRAC as int == p10(18);
    } else {
        assert(ust + cost == ust);
        // market below intrinsic already means ust^2 * 10^18 <= i_at * ct * ust
        lemma_fundamental_div_mod(ust * (FRAC as int), ct);
        lemma_mod_range(ust * (FRAC as int), ct);
        assert(ust * (FRAC as int) < ct * (m_at + 1)) by (nonlinear_arith)
            requires
                ust * (FRAC as int) == ct * m_at + (ust * (FRAC as int)) % ct,
                (ust * (FRAC as int)) % ct < ct;
        assert(ust * (FRAC as int) <= ct * i_at) by (nonlinear_arith)
            requires ust * (FRAC as int) < ct * (m_at + 1) && m_at + 1 <= i_at && 0 < ct;
        assert((ust + cost) * (ust + cost) * (FRAC as int) <= i_at * ct * ust) by (nonlinear_arith)
            requires
                ust * (FRAC as int) <= ct * i_at,
                ust + cost == ust,
                0 <= ust;
    }
}

/// For fixed reserves the market price is fixed, so a wider spread on the
/// redeem side means a higher intrinsic price — and the sized trade only
/// grows with it. Holds for intrinsic prices the full-precision square
/// root covers.
pub proof fn lemma_redeem_trade_monotone(
    supply1: int,
    inv1: Seq<u128>,
    prices1: Seq<Dec>,
    supply2: int,
    inv2: Seq<u128>,
    prices2: Seq<Dec>,
    ust: int,
    ct: int,
)
    requires
        0 <= ust,
        0 < ct,
        estimate_spec(supply1, inv1, prices1, ust, ct) is Ok,
        estimate_spec(supply2, inv2, prices2, ust, ct) is Ok,
        ratio_atomics(ust, ct) < ratio_atomics(
            nav_prefix(inv1, prices1, inv1.len() as int),
            supply1,
        ),
        ratio_atomics(ust, ct) < ratio_atomics(
            nav_prefix(inv2, prices2, inv2.len() as int),
            supply2,
        ),
        ratio_atomics(nav_prefix(inv1, prices1, inv1.len() as int), supply1) <= ratio_atomics(
            nav_prefix(inv2, prices2, inv2.len() as int),
            supply2,
        ),
        ratio_atomics(nav_prefix(inv2, prices2, inv2.len() as int), supply2) * (FRAC as int)
            <= u128::MAX,
    ensures
        ({
            let est1 = estimate_spec(supply1, inv1, prices1, ust, ct);
            let est2 = estimate_spec(supply2, inv2, prices2, ust, ct);
            est1 matches Ok(t1) && (est2 matches Ok(t2) && t1.2 <= t2.2)
        }),
{
    lemma_scale_consts();
    lemma_frac_is_p10_18();
    lemma_redeem_branch_shape(supply1, inv1, prices1, ust, ct);
    lemma_redeem_branch_shape(supply2, inv2, prices2, ust, ct);
    let i1 = ratio_atomics(nav_prefix(inv1, prices1, inv1.len() as int), supply1);
    let i2 = ratio_atomics(nav_prefix(inv2, prices2, inv2.len() as int), supply2);
    let m_at = ratio_atomics(ust, ct);
    assert(0 <= m_at) by {
        lemma_mul_nonnegative(ust, FRAC as int);
        lemma_div_pos_is_pos(ust * (FRAC as int), ct);
    }
    assert((i1 as nat) * p10(18) <= (i2 as nat) * p10(18)) by (nonlinear_arith)
        requires 0 <= i1 <= i2;
    assert((i2 as nat) * p10(18) <= u128::MAX) by (nonlinear_arith)
        requires
            i2 * (FRAC as int) <= u128::MAX,
            FRAC as int == p10(18),
            0 <= i2;
    lemma_dec_sqrt_monotone(i1 as nat, i2 as nat);
    let a1 = scaled_sqrt(i1);
    let a2 = scaled_sqrt(i2);
    lemma_div_is_ordered(
        dec_sqrt_spec(i1 as nat) as int,
        dec_sqrt_spec(i2 as nat) as int,
        SQRT_DESCALE as int,
    );
    assert(a1 <= a2);
    let b = scaled_sqrt(ct * (FRAC as int));
    let c = scaled_sqrt(ust * (FRAC as int));
    lemma_mul_nonnegative(ct, FRAC as int);
    lemma_mul_nonnegative(ust, FRAC as int);
    lemma_scaled_sqrt_sq(i1);
    lemma_scaled_sqrt_sq(ct * (FRAC as int));
    lemma_scaled_sqrt_sq(ust * (FRAC as int));
    assert(a1 * b * c <= a2 * b * c) by (nonlinear_arith)
        requires a1 <= a2 && 0 <= a1 && 0 <= b && 0 <= c;
    lemma_div_is_ordered(a1 * b * c, a2 * b * c, MULTIPLIER_3 as int);
    let base1 = (a1 * b * c) / (MULTIPLIER_3 as int);
    let base2 = (a2 * b * c) / (MULTIPLIER_3 as int);
    assert(base1 <= base2);
}

/// The strategy follows the price comparison: a market price below the
/// intrinsic price makes the loan continue on the redeem path, any other
/// market price on the create path.
pub proof fn lemma_strategy_selection(
    m_at: int,
    i_at: int,
    cluster: Seq<char>,
    user: Seq<char>,
    loan: u128,
    target: Seq<crate::asset::AssetV>,
    prices: Seq<Dec>,
)
    ensures
        m_at < i_at ==> crate::flash_loan::loan_callback_view(
            m_at,
            i_at,
            cluster,
            user,
            loan,
            target,
            prices,
        ) is _CallbackRedeem,
        m_at >= i_at ==> crate::flash_loan::loan_callback_view(
            m_at,
            i_at,
            cluster,
            user,
            loan,
            target,
            prices,
        ) is _CallbackCreate,
{
}

/// Reading the estimate twice without intervening mutation reads the same
/// thing: the estimate is a function of the handed-in snapshots alone.
pub proof fn lemma_estimate_deterministic(
    supply1: int,
    inv1: Seq<u128>,
    prices1: Seq<crate::dec::Dec>,
    ust1: int,
    ct1: int,
    supply2: int,
    inv2: Seq<u128>,
    prices2: Seq<crate::dec::Dec>,
    ust2: int,
    ct2: int,
)
    requires
        supply1 == supply2,
        inv1 == inv2,
        prices1 == prices2,
        ust1 == ust2,
        ct1 == ct2,
    ensures
        crate::query::estimate_spec(supply1, inv1, prices1, ust1, ct1)
            == crate::query::estimate_spec(supply2, inv2, prices2, ust2, ct2),
{
}

} // verus!
