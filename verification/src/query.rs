//! The arbitrage estimator: intrinsic price, market price and the
//! closed-form loan size that moves a constant-product pool's price to the
//! intrinsic value, together with the strategy selector.

use vstd::prelude::*;

use vstd::arithmetic::div_mod::{lemma_div_pos_is_pos, lemma_div_is_ordered};
use vstd::arithmetic::mul::lemma_mul_nonnegative;

use crate::asset::{Asset, dup_assets};
use crate::dec::{
    Dec, dec_from_ratio, dec_from_str, dec_sqrt, dec_str_atomics, dec_str_valid, amount_times_dec,
    ratio_atomics, amount_times_dec_spec, dec_sqrt_spec,
};
use crate::math::FRAC;
use crate::msg::{ClusterStateResponse, EstimateArbitrageResponse};
use crate::ContractError;

verus! {

/// Scale for a single square root: results carry 4 extra decimal digits.
pub const MULTIPLIER: u128 = 10_000;

/// MULTIPLIER^3: what a product of three scaled square roots carries.
pub const MULTIPLIER_3: u128 = 1_000_000_000_000;

/// 10^14: dividing 18-digit atomics by this leaves the 4 extra digits.
pub const SQRT_DESCALE: u128 = 100_000_000_000_000;

/// What the index contract reports: supply, per-asset inventory, per-asset
/// prices, and the target holdings — parallel-indexed sequences.
#[derive(Clone, Debug, PartialEq, Eq)]
pub struct BasketState {
    pub outstanding_supply: u128,
    pub inventory: Vec<u128>,
    pub prices: Vec<Dec>,
    pub target_weights: Vec<Asset>,
}

impl BasketState {
    pub open spec fn well_formed(&self) -> bool {
        self.inventory@.len() == self.prices@.len() && self.inventory@.len()
            == self.target_weights@.len()
    }
}

/// The two-sided balances of the constant-product pool pairing the base
/// asset and the index token.
#[derive(Clone, Copy, Debug, PartialEq, Eq, Structural)]
pub struct PoolReserves {
    pub base_reserve: u128,
    pub index_reserve: u128,
}

/// The two execution paths.
#[derive(Clone, Copy, Debug, PartialEq, Eq, Structural)]
pub enum Strategy {
    /// Buy index tokens on the pool and redeem them at the basket.
    RedeemPath,
    /// Mint index tokens and sell them on the pool.
    CreatePath,
}

/// The pool underprices the index token exactly when the market price is
/// below the intrinsic price; ties take the create path.
pub fn select_strategy(market: &Dec, intrinsic: &Dec) -> (r: Strategy)
    ensures
        r == (if market.atomics < intrinsic.atomics {
            Strategy::RedeemPath
        } else {
            Strategy::CreatePath
        }),
{
    if market.lt(intrinsic) {
        Strategy::RedeemPath
    } else {
        Strategy::CreatePath
    }
}

/// Net asset value of the first n basket entries: the sum of
/// floor(inventory[i] * prices[i] / 10^18).
pub open spec fn nav_prefix(inv: Seq<u128>, prices: Seq<Dec>, n: int) -> int
    decreases n,
{
    if n <= 0 {
        0
    } else {
        nav_prefix(inv, prices, n - 1) + amount_times_dec_spec(
            inv[n - 1] as int,
            prices[n - 1].atomics as int,
        )
    }
}

pub proof fn lemma_nav_prefix_nonneg(inv: Seq<u128>, prices: Seq<Dec>, n: int)
    ensures
        nav_prefix(inv, prices, n) >= 0,
    decreases n,
{
    if n > 0 {
        lemma_nav_prefix_nonneg(inv, prices, n - 1);
        lemma_mul_nonnegative(inv[n - 1] as int, prices[n - 1].atomics as int);
        lemma_div_pos_is_pos(inv[n - 1] as int * prices[n - 1].atomics as int, FRAC as int);
    }
}

pub proof fn lemma_nav_prefix_monotone(inv: Seq<u128>, prices: Seq<Dec>, k: int, n: int)
    requires
        k <= n,
    ensures
        nav_prefix(inv, prices, k) <= nav_prefix(inv, prices, n),
    decreases n - k,
{
    if k < n {
        lemma_nav_prefix_monotone(inv, prices, k, n - 1);
        lemma_mul_nonnegative(inv[n - 1] as int, prices[n - 1].atomics as int);
        lemma_div_pos_is_pos(inv[n - 1] as int * prices[n - 1].atomics as int, FRAC as int);
    }
}

/// The square root of a decimal of x atomics, kept at 4 extra decimal
/// digits: floor(dec_sqrt_spec(x) / 10^14).
pub open spec fn scaled_sqrt(x: int) -> int {
    (dec_sqrt_spec(x as nat) as int) / (SQRT_DESCALE as int)
}

/// The whole estimate, mirroring evaluation order: net asset value, the
/// two prices, then front = the three scaled square roots multiplied, and
/// the loan size for the branch the price comparison picks, clamped to
/// non-negative.
pub open spec fn estimate_spec(
    supply: int,
    inv: Seq<u128>,
    prices: Seq<Dec>,
    ust: int,
    ct: int,
) -> Result<(int, int, int), ContractError> {
    let nav = nav_prefix(inv, prices, inv.len() as int);
    if nav > u128::MAX {
        Err(ContractError::ArithmeticOverflow)
    } else if supply == 0 {
        Err(ContractError::DivisionByZero)
    } else if ratio_atomics(nav, supply) > u128::MAX {
        Err(ContractError::ArithmeticOverflow)
    } else if ct == 0 {
        Err(ContractError::DivisionByZero)
    } else if ratio_atomics(ust, ct) > u128::MAX {
        Err(ContractError::ArithmeticOverflow)
    } else {
        let i_at = ratio_atomics(nav, supply);
        let m_at = ratio_atomics(ust, ct);
        if ct * FRAC > u128::MAX {
            Err(ContractError::ArithmeticOverflow)
        } else if ust * FRAC > u128::MAX {
            Err(ContractError::ArithmeticOverflow)
        } else {
            let a = scaled_sqrt(i_at);
            let b = scaled_sqrt(ct * FRAC);
            let c = scaled_sqrt(ust * FRAC);
            if a * b > u128::MAX {
                Err(ContractError::ArithmeticOverflow)
            } else if a * b * c > u128::MAX {
                Err(ContractError::ArithmeticOverflow)
            } else {
                let front = a * b * c;
                if m_at < i_at {
                    let base = front / (MULTIPLIER_3 as int);
                    Ok((m_at, i_at, if base >= ust {
                        base - ust
                    } else {
                        0
                    }))
                } else {
                    if ct * (MULTIPLIER_3 as int) > u128::MAX {
                        Err(ContractError::ArithmeticOverflow)
                    } else if amount_times_dec_spec(ct * (MULTIPLIER_3 as int), i_at)
                        > u128::MAX {
                        Err(ContractError::ArithmeticOverflow)
                    } else {
                        let back = amount_times_dec_spec(ct * (MULTIPLIER_3 as int), i_at);
                        Ok((m_at, i_at, if front >= back {
                            (front - back) / (MULTIPLIER_3 as int)
                        } else {
                            0
                        }))
                    }
                }
            }
        }
    }
}

/// Copy a vector of plain values.
pub fn copy_amounts(v: &Vec<u128>) -> (r: Vec<u128>)
    ensures
        r@ == v@,
{
    let mut out: Vec<u128> = Vec::new();
    let n = v.len();
    for i in 0..n
        invariant
            n == v@.len(),
            out@ == v@.subrange(0, i as int),
    {
        out.push(v[i]);
    }
    assert(v@.subrange(0, n as int) == v@);
    out
}

/// Copy a vector of decimals.
pub fn copy_decs(v: &Vec<Dec>) -> (r: Vec<Dec>)
    ensures
        r@ == v@,
{
    let mut out: Vec<Dec> = Vec::new();
    let n = v.len();
    for i in 0..n
        invariant
            n == v@.len(),
            out@ == v@.subrange(0, i as int),
    {
        out.push(v[i]);
    }
    assert(v@.subrange(0, n as int) == v@);
    out
}

/// Whether a reported cluster state is usable: parallel-indexed sequences
/// and every price a well-formed decimal string that fits.
pub open spec fn cluster_state_usable(resp: ClusterStateResponse) -> bool {
    &&& resp.inv@.len() == resp.prices@.len()
    &&& resp.inv@.len() == resp.target@.len()
    &&& forall|i: int|
        0 <= i < resp.prices@.len() ==> dec_str_valid(#[trigger] resp.prices@[i]@)
            && dec_str_atomics(resp.prices@[i]@) <= u128::MAX
}

/// Reads a reported cluster state into the basket model, parsing each
/// price string; None exactly when the report is unusable.
pub fn cluster_state_to_basket(resp: &ClusterStateResponse) -> (r: Option<BasketState>)
    ensures
        match r {
            Some(b) => cluster_state_usable(*resp) && b.well_formed() && b.outstanding_supply
                == resp.outstanding_balance_tokens && b.inventory@ == resp.inv@ && b.target_weights@
                == resp.target@ && b.prices@.len() == resp.prices@.len() && (forall|i: int|
                0 <= i < resp.prices@.len() ==> (#[trigger] b.prices@[i]).atomics as int
                    == dec_str_atomics(resp.prices@[i]@)),
            None => !cluster_state_usable(*resp),
        },
{
    let n = resp.inv.len();
    if resp.prices.len() != n || resp.target.len() != n {
        return None;
    }
    let mut prices: Vec<Dec> = Vec::new();
    for i in 0..n
        invariant
            n == resp.inv@.len(),
            resp.prices@.len() == n,
            resp.target@.len() == n,
            prices@.len() == i,
            forall|j: int|
                0 <= j < i ==> dec_str_valid(#[trigger] resp.prices@[j]@) && dec_str_atomics(
                    resp.prices@[j]@,
                ) <= u128::MAX && prices@[j].atomics as int == dec_str_atomics(resp.prices@[j]@),
    {
        let p = resp.prices[i].as_str();
        assert(p@ == resp.prices@[i as int]@);
        match dec_from_str(p) {
            Some(d) => {
                assert(dec_str_valid(resp.prices@[i as int]@));
                assert(dec_str_atomics(resp.prices@[i as int]@) <= u128::MAX);
                proof {
                    crate::dec::lemma_dec_str_atomics_nonneg(resp.prices@[i as int]@);
                }
                assert(d.atomics as int == dec_str_atomics(resp.prices@[i as int]@));
                prices.push(d);
            },
            None => {
                return None;
            },
        }
    }
    Some(
        BasketState {
            outstanding_supply: resp.outstanding_balance_tokens,
            inventory: copy_amounts(&resp.inv),
            prices,
            target_weights: dup_assets(&resp.target),
        },
    )
}

/// Calculates arbitrage information: both prices and the loan size, plus a
/// snapshot of the basket for the later steps. Returns exactly what
/// [`estimate_spec`] assigns to these inputs.
pub fn estimate_arbitrage(basket: &BasketState, reserves: &PoolReserves) -> (r: Result<
    EstimateArbitrageResponse,
    ContractError,
>)
    requires
        basket.well_formed(),
    ensures
        match r {
            Ok(resp) => estimate_spec(
                basket.outstanding_supply as int,
                basket.inventory@,
                basket.prices@,
                reserves.base_reserve as int,
                reserves.index_reserve as int,
            ) == Ok::<(int, int, int), ContractError>(
                (
                    resp.market_price.atomics as int,
                    resp.intrinsic_price.atomics as int,
                    resp.arbitrage_cost as int,
                ),
            ) && resp.inv@ == basket.inventory@ && resp.prices@ == basket.prices@
                && resp.target@ == basket.target_weights@,
            Err(e) => estimate_spec(
                basket.outstanding_supply as int,
                basket.inventory@,
                basket.prices@,
                reserves.base_reserve as int,
                reserves.index_reserve as int,
            ) == Err::<(int, int, int), ContractError>(e),
        },
{
    let ghost inv_seq = basket.inventory@;
    let ghost price_seq = basket.prices@;
    let n = basket.inventory.len();
    let mut nav: u128 = 0;

    let mut i: usize = 0;
    while i < n
        invariant
            basket.well_formed(),
            n == inv_seq.len(),
            inv_seq == basket.inventory@,
            price_seq == basket.prices@,
            i <= n,
            nav as int == nav_prefix(inv_seq, price_seq, i as int),
        decreases n - i,
    {
        let term = match amount_times_dec(basket.inventory[i], &basket.prices[i]) {
            Some(t) => t,
            None => {
                proof {
                    lemma_nav_prefix_nonneg(inv_seq, price_seq, i as int);
                    lemma_nav_prefix_monotone(inv_seq, price_seq, i as int + 1, n as int);
                }
                return Err(ContractError::ArithmeticOverflow);
            },
        };
        nav = match nav.checked_add(term) {
            Some(v) => v,
            None => {
                proof {
                    lemma_nav_prefix_monotone(inv_seq, price_seq, i as int + 1, n as int);
                }
                return Err(ContractError::ArithmeticOverflow);
            },
        };
        i = i + 1;
    }

    if basket.outstanding_supply == 0 {
        return Err(ContractError::DivisionByZero);
    }
    let intrinsic = match dec_from_ratio(nav, basket.outstanding_supply) {
        Some(d) => d,
        None => {
            return Err(ContractError::ArithmeticOverflow);
        },
    };

    let ust = reserves.base_reserve;
    let ct = reserves.index_reserve;
    if ct == 0 {
        return Err(ContractError::DivisionByZero);
    }
    let market = match dec_from_ratio(ust, ct) {
        Some(d) => d,
        None => {
            return Err(ContractError::ArithmeticOverflow);
        },
    };

    let a = dec_sqrt(&intrinsic).atomics / SQRT_DESCALE;
    let ct_whole = match ct.checked_mul(FRAC) {
        Some(v) => v,
        None => {
            return Err(ContractError::ArithmeticOverflow);
        },
    };
    let b = dec_sqrt(&(Dec { atomics: ct_whole })).atomics / SQRT_DESCALE;
    let ust_whole = match ust.checked_mul(FRAC) {
        Some(v) => v,
        None => {
            return Err(ContractError::ArithmeticOverflow);
        },
    };
    let c = dec_sqrt(&(Dec { atomics: ust_whole })).atomics / SQRT_DESCALE;

    let ab = match a.checked_mul(b) {
        Some(v) => v,
        None => {
            return Err(ContractError::ArithmeticOverflow);
        },
    };
    let front = match ab.checked_mul(c) {
        Some(v) => v,
        None => {
            return Err(ContractError::ArithmeticOverflow);
        },
    };

    let arbitrage_cost: u128;
    if market.lt(&intrinsic) {
        let base = front / MULTIPLIER_3;
        arbitrage_cost = if base >= ust {
            base - ust
        } else {
            0
        };
    } else {
        let back_scaled = match ct.checked_mul(MULTIPLIER_3) {
            Some(v) => v,
            None => {
                return Err(ContractError::ArithmeticOverflow);
            },
        };
        let back = match amount_times_dec(back_scaled, &intrinsic) {
            Some(v) => v,
            None => {
                return Err(ContractError::ArithmeticOverflow);
            },
        };
        arbitrage_cost = if front >= back {
            (front - back) / MULTIPLIER_3
        } else {
            0
        };
    }

    Ok(
        EstimateArbitrageResponse {
            market_price: market,
            intrinsic_price: intrinsic,
            arbitrage_cost,
            inv: copy_amounts(&basket.inventory),
            target: dup_assets(&basket.target_weights),
            prices: copy_decs(&basket.prices),
        },
    )
}

} // verus!
