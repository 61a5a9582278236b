//! The create path: split the loan across the basket's target assets in
//! proportion to their value weights, swap into them, then mint index
//! tokens from the measured balances, sell them on the pool, repay, and
//! sweep the profit.

use vstd::prelude::*;

use vstd::arithmetic::div_mod::lemma_div_pos_is_pos;
use vstd::arithmetic::mul::lemma_mul_nonnegative;

use crate::asset::{
    Asset, AssetInfo, AssetInfoV, AssetV, Coin, CoinV, PairDirectory, PairEntryV, dup_assets,
    first_pair, has_pair,
};
use crate::dec::{Dec, amount_times_dec, amount_times_dec_spec};
use crate::flash_loan::{repay_amount_spec, repay_msgs_view, repay_and_take_profit};
use crate::math::FRAC;
use crate::msg::{
    ExecuteMsg, ExecuteMsgV, IncentivesMsg, IncentivesMsgV, InstrV, Instruction, Response,
};
use crate::state::State;
use crate::utils::{
    create_astroport_swap_msg, create_aust_swap_msg, create_terraswap_swap_msg, funds_sorted,
    sort_funds, uusd, uusd_view,
};
use crate::ContractError;

verus! {

/// The value weight of one target entry: its target amount priced in base
/// units, floor(amount * price / 10^18).
pub open spec fn value_weight(t: AssetV, p: Dec) -> int {
    amount_times_dec_spec(t.amount as int, p.atomics as int)
}

/// Sum of the first n value weights.
pub open spec fn wsum_prefix(target: Seq<AssetV>, prices: Seq<Dec>, n: int) -> int
    decreases n,
{
    if n <= 0 {
        0
    } else {
        wsum_prefix(target, prices, n - 1) + value_weight(target[n - 1], prices[n - 1])
    }
}

pub proof fn lemma_wsum_prefix_nonneg(target: Seq<AssetV>, prices: Seq<Dec>, n: int)
    ensures
        wsum_prefix(target, prices, n) >= 0,
    decreases n,
{
    if n > 0 {
        lemma_wsum_prefix_nonneg(target, prices, n - 1);
        lemma_mul_nonnegative(target[n - 1].amount as int, prices[n - 1].atomics as int);
        lemma_div_pos_is_pos(
            target[n - 1].amount as int * prices[n - 1].atomics as int,
            FRAC as int,
        );
    }
}

pub proof fn lemma_wsum_prefix_monotone(target: Seq<AssetV>, prices: Seq<Dec>, k: int, n: int)
    requires
        k <= n,
    ensures
        wsum_prefix(target, prices, k) <= wsum_prefix(target, prices, n),
    decreases n - k,
{
    if k < n {
        lemma_wsum_prefix_monotone(target, prices, k, n - 1);
        lemma_mul_nonnegative(target[n - 1].amount as int, prices[n - 1].atomics as int);
        lemma_div_pos_is_pos(
            target[n - 1].amount as int * prices[n - 1].atomics as int,
            FRAC as int,
        );
    }
}

/// The rebalancing swaps for the first n target entries, in order: each
/// entry with a non-zero value weight receives its pro-rata share
/// loan * weight / total of the loan — zero-weight entries and the base
/// asset are skipped, the yield wrapper is entered through its market,
/// tokens through their pool, other native coins through a market swap.
pub open spec fn create_swaps_spec(
    target: Seq<AssetV>,
    prices: Seq<Dec>,
    loan: int,
    total: int,
    aust: Seq<char>,
    anchor: Seq<char>,
    pairs: Seq<PairEntryV>,
    n: int,
) -> Result<Seq<InstrV>, ContractError>
    decreases n,
{
    if n <= 0 {
        Ok(Seq::empty())
    } else {
        match create_swaps_spec(target, prices, loan, total, aust, anchor, pairs, n - 1) {
            Err(e) => Err(e),
            Ok(prefix) => {
                let w = value_weight(target[n - 1], prices[n - 1]);
                if w == 0 {
                    Ok(prefix)
                } else if loan * w > u128::MAX {
                    Err(ContractError::ArithmeticOverflow)
                } else {
                    let share = ((loan * w) / total) as u128;
                    match target[n - 1].info {
                        AssetInfoV::NativeToken { denom } => {
                            if denom == uusd_view() {
                                Ok(prefix)
                            } else {
                                Ok(
                                    prefix.push(
                                        InstrV::NativeSwap {
                                            offer_denom: uusd_view(),
                                            ask_denom: denom,
                                            amount: share,
                                        },
                                    ),
                                )
                            }
                        },
                        AssetInfoV::Token { contract_addr } => {
                            if contract_addr == aust {
                                Ok(
                                    prefix.push(
                                        InstrV::YieldDeposit { market: anchor, amount: share },
                                    ),
                                )
                            } else if !has_pair(
                                pairs,
                                AssetInfoV::Token { contract_addr },
                                AssetInfoV::NativeToken { denom: uusd_view() },
                            ) {
                                Err(ContractError::PairNotFound)
                            } else {
                                Ok(
                                    prefix.push(
                                        InstrV::PoolSwapNative {
                                            pair: first_pair(
                                                pairs,
                                                AssetInfoV::Token { contract_addr },
                                                AssetInfoV::NativeToken { denom: uusd_view() },
                                            ),
                                            offer_denom: uusd_view(),
                                            amount: share,
                                        },
                                    ),
                                )
                            }
                        },
                    }
                }
            },
        }
    }
}

/// Once a step of the sequence fails, the whole sequence fails the same way.
proof fn lemma_create_swaps_err_persists(
    target: Seq<AssetV>,
    prices: Seq<Dec>,
    loan: int,
    total: int,
    aust: Seq<char>,
    anchor: Seq<char>,
    pairs: Seq<PairEntryV>,
    k: int,
    n: int,
    e: ContractError,
)
    requires
        k <= n,
        create_swaps_spec(target, prices, loan, total, aust, anchor, pairs, k) == Err::<
            Seq<InstrV>,
            ContractError,
        >(e),
    ensures
        create_swaps_spec(target, prices, loan, total, aust, anchor, pairs, n) == Err::<
            Seq<InstrV>,
            ContractError,
        >(e),
    decreases n - k,
{
    if k < n {
        lemma_create_swaps_err_persists(target, prices, loan, total, aust, anchor, pairs, k,
            n - 1, e);
    }
}

/// Everything [`try_callback_create`] promises: rejection of any caller
/// but the loan venue; else the pro-rata rebalancing swaps followed by the
/// mint-and-sell continuation, or the first failing step's error.
pub open spec fn callback_create_post(
    r: Result<Response, ContractError>,
    state: State,
    contract_address: Seq<char>,
    sender: Seq<char>,
    cluster_address: Seq<char>,
    user_address: Seq<char>,
    loan_amount: u128,
    target: Seq<AssetV>,
    prices: Seq<Dec>,
    pairs: Seq<PairEntryV>,
) -> bool {
    &&& sender != state.vault_address@ ==> r == Err::<Response, ContractError>(
        ContractError::Unauthorized,
    )
    &&& sender == state.vault_address@ ==> ({
        let total = wsum_prefix(target, prices, target.len() as int);
        let swaps = create_swaps_spec(
            target,
            prices,
            loan_amount as int,
            total,
            state.aust_token_address@,
            state.anchor_market_contract@,
            pairs,
            target.len() as int,
        );
        match r {
            Ok(resp) => total <= u128::MAX && (swaps matches Ok(s) && resp.out() == s.push(
                InstrV::Continue {
                    contract: contract_address,
                    msg: ExecuteMsgV::_ArbCreate {
                        cluster_address,
                        user_address,
                        loan_amount,
                        target,
                    },
                },
            )),
            Err(e) => (total > u128::MAX && e == ContractError::ArithmeticOverflow) || (total
                <= u128::MAX && (swaps matches Err(e2) && e == e2)),
        }
    })
}

/// Entered by the loan venue's callback: split the loan into the target
/// assets by value weight, then continue with the mint-and-sell step.
/// Only the loan venue may trigger it.
pub fn try_callback_create(
    state: &State,
    contract_address: &String,
    sender: &String,
    cluster_address: String,
    user_address: String,
    loan_amount: u128,
    target: &Vec<Asset>,
    prices: &Vec<Dec>,
    pairs: &PairDirectory,
) -> (r: Result<Response, ContractError>)
    requires
        target@.len() == prices@.len(),
    ensures
        callback_create_post(
            r,
            *state,
            contract_address@,
            sender@,
            cluster_address@,
            user_address@,
            loan_amount,
            target.deep_view(),
            prices@,
            pairs.pairs.deep_view(),
        ),
{
    if !(*sender == state.vault_address) {
        return Err(ContractError::Unauthorized);
    }
    let ghost tv = target.deep_view();
    let ghost pv = prices@;
    let ghost dirv = pairs.pairs.deep_view();
    let ghost aust = state.aust_token_address@;
    let ghost anchor = state.anchor_market_contract@;
    let n = target.len();

    // Value weights, then their total; a value out of range anywhere in
    // the sum is the whole step's overflow.
    let mut weights: Vec<u128> = Vec::new();
    let mut total: u128 = 0;
    let mut i: usize = 0;
    while i < n
        invariant
            sender@ == state.vault_address@,
            n == target@.len(),
            prices@.len() == n,
            tv == target.deep_view(),
            pv == prices@,
            i <= n,
            weights@.len() == i,
            forall|j: int| 0 <= j < i ==> weights@[j] as int == value_weight(tv[j], pv[j]),
            total as int == wsum_prefix(tv, pv, i as int),
        decreases n - i,
    {
        assert(tv[i as int] == target@[i as int]@);
        let w = match amount_times_dec(target[i].amount, &prices[i]) {
            Some(w) => w,
            None => {
                proof {
                    lemma_wsum_prefix_nonneg(tv, pv, i as int);
                    lemma_wsum_prefix_monotone(tv, pv, i as int + 1, n as int);
                }
                return Err(ContractError::ArithmeticOverflow);
            },
        };
        total = match total.checked_add(w) {
            Some(v) => v,
            None => {
                proof {
                    lemma_wsum_prefix_monotone(tv, pv, i as int + 1, n as int);
                }
                return Err(ContractError::ArithmeticOverflow);
            },
        };
        weights.push(w);
        i = i + 1;
    }

    let ghost spec_total = wsum_prefix(tv, pv, n as int);
    let uusd_s = uusd();
    let mut messages: Vec<Instruction> = Vec::new();
    proof {
        assert(messages.deep_view() =~= Seq::<InstrV>::empty());
    }
    let mut i: usize = 0;
    while i < n
        invariant
            sender@ == state.vault_address@,
            n == target@.len(),
            prices@.len() == n,
            tv == target.deep_view(),
            pv == prices@,
            dirv == pairs.pairs.deep_view(),
            aust == state.aust_token_address@,
            anchor == state.anchor_market_contract@,
            uusd_s@ == uusd_view(),
            i <= n,
            weights@.len() == n,
            forall|j: int| 0 <= j < n ==> weights@[j] as int == value_weight(tv[j], pv[j]),
            total as int == spec_total,
            spec_total == wsum_prefix(tv, pv, n as int),
            create_swaps_spec(tv, pv, loan_amount as int, spec_total, aust, anchor, dirv, i as int)
                == Ok::<Seq<InstrV>, ContractError>(messages.deep_view()),
        decreases n - i,
    {
        let ghost prev = messages.deep_view();
        assert(tv[i as int] == target@[i as int]@);
        let w = weights[i];
        if w != 0 {
            let share_scaled = match loan_amount.checked_mul(w) {
                Some(v) => v,
                None => {
                    proof {
                        lemma_create_swaps_err_persists(tv, pv, loan_amount as int, spec_total,
                            aust, anchor, dirv, i as int + 1, n as int,
                            ContractError::ArithmeticOverflow);
                    }
                    return Err(ContractError::ArithmeticOverflow);
                },
            };
            proof {
                lemma_wsum_prefix_nonneg(tv, pv, i as int);
                lemma_wsum_prefix_monotone(tv, pv, i as int + 1, n as int);
            }
            let share = share_scaled / total;
            match &target[i].info {
                AssetInfo::NativeToken { denom } => {
                    if !(*denom == uusd_s) {
                        messages.push(create_terraswap_swap_msg(share, uusd(), denom.clone()));
                        proof {
                            assert(messages.deep_view() =~= prev.push(
                                InstrV::NativeSwap {
                                    offer_denom: uusd_view(),
                                    ask_denom: denom@,
                                    amount: share,
                                },
                            ));
                        }
                    }
                },
                AssetInfo::Token { contract_addr } => {
                    if *contract_addr == state.aust_token_address {
                        messages.push(
                            create_aust_swap_msg(
                                state.anchor_market_contract.clone(),
                                state.aust_token_address.clone(),
                                share,
                                false,
                            ),
                        );
                        proof {
                            assert(messages.deep_view() =~= prev.push(
                                InstrV::YieldDeposit { market: anchor, amount: share },
                            ));
                        }
                    } else {
                        let offer = Asset {
                            info: AssetInfo::NativeToken { denom: uusd() },
                            amount: share,
                        };
                        match create_astroport_swap_msg(&offer, &target[i].info, pairs) {
                            Ok(m) => {
                                messages.push(m);
                                proof {
                                    assert(messages.deep_view() =~= prev.push(
                                        messages@[messages@.len() - 1]@,
                                    ));
                                }
                            },
                            Err(e) => {
                                proof {
                                    lemma_create_swaps_err_persists(tv, pv, loan_amount as int,
                                        spec_total, aust, anchor, dirv, i as int + 1, n as int, e);
                                }
                                return Err(e);
                            },
                        }
                    }
                },
            }
        }
        i = i + 1;
    }

    let ghost swaps_dv = messages.deep_view();
    messages.push(
        Instruction::Continue {
            contract: contract_address.clone(),
            msg: ExecuteMsg::_ArbCreate {
                cluster_address,
                user_address,
                loan_amount,
                target: dup_assets(target),
            },
        },
    );
    let resp = Response { messages };
    proof {
        assert(resp.out() =~= swaps_dv.push(resp.messages@[resp.messages@.len() - 1]@));
    }
    Ok(resp)
}

/// The measured holdings: the target assets with their amounts replaced by
/// the balances the contract actually holds after the swaps settled.
pub open spec fn measured_assets(target: Seq<AssetV>, balances: Seq<u128>) -> Seq<AssetV> {
    Seq::new(target.len(), |i: int| AssetV { info: target[i].info, amount: balances[i] })
}

/// The allowance instructions for the first n measured holdings: one per
/// token asset, raising the incentives contract's allowance to the
/// measured balance.
pub open spec fn allowance_msgs_spec(
    target: Seq<AssetV>,
    balances: Seq<u128>,
    incentive: Seq<char>,
    n: int,
) -> Seq<InstrV>
    decreases n,
{
    if n <= 0 {
        Seq::empty()
    } else {
        let prefix = allowance_msgs_spec(target, balances, incentive, n - 1);
        match target[n - 1].info {
            AssetInfoV::Token { contract_addr } => prefix.push(
                InstrV::IncreaseAllowance {
                    token: contract_addr,
                    spender: incentive,
                    amount: balances[n - 1],
                },
            ),
            AssetInfoV::NativeToken { denom } => prefix,
        }
    }
}

/// The native coins among the first n measured holdings, in target order.
pub open spec fn create_funds_spec(target: Seq<AssetV>, balances: Seq<u128>, n: int) -> Seq<
    CoinV,
>
    decreases n,
{
    if n <= 0 {
        Seq::empty()
    } else {
        let prefix = create_funds_spec(target, balances, n - 1);
        match target[n - 1].info {
            AssetInfoV::NativeToken { denom } => prefix.push(
                CoinV { denom, amount: balances[n - 1] },
            ),
            AssetInfoV::Token { contract_addr } => prefix,
        }
    }
}

/// Everything [`try_arb_create`] promises: rejection of any caller but the
/// contract itself; else the allowance raises, a mint-and-sell of exactly
/// the measured balances with the native coins attached sorted by denom,
/// then repayment and the profit sweep.
pub open spec fn arb_create_post(
    r: Result<Response, ContractError>,
    state: State,
    contract_address: Seq<char>,
    sender: Seq<char>,
    cluster_address: Seq<char>,
    user_address: Seq<char>,
    loan_amount: u128,
    target: Seq<AssetV>,
    balances: Seq<u128>,
) -> bool {
    &&& sender != contract_address ==> r == Err::<Response, ContractError>(
        ContractError::Unauthorized,
    )
    &&& sender == contract_address ==> match r {
        Ok(resp) => repay_amount_spec(loan_amount as int) <= u128::MAX && (exists|f: Seq<CoinV>|
            #![auto]
            f.to_multiset() == create_funds_spec(target, balances, target.len() as int)
                .to_multiset() && funds_sorted(f) && resp.out() == allowance_msgs_spec(
                target,
                balances,
                state.incentive_addres@,
                target.len() as int,
            ).push(
                InstrV::Incentives {
                    incentive: state.incentive_addres@,
                    funds: f,
                    msg: IncentivesMsgV::ArbClusterCreate {
                        cluster_contract: cluster_address,
                        assets: measured_assets(target, balances),
                        min_ust: Some(1u128),
                    },
                },
            ) + repay_msgs_view(
                loan_amount as int,
                contract_address,
                state.vault_address@,
                user_address,
            )),
        Err(e) => repay_amount_spec(loan_amount as int) > u128::MAX && e
            == ContractError::ArithmeticOverflow,
    }
}

/// Entered by the contract's own continuation after the rebalancing swaps
/// settled: raise allowances to the measured balances, mint-and-sell with
/// exactly those balances as the offered basket, then repay and queue the
/// profit sweep. Only the contract itself may trigger it.
pub fn try_arb_create(
    state: &State,
    contract_address: &String,
    sender: &String,
    cluster_address: String,
    user_address: String,
    loan_amount: u128,
    target: &Vec<Asset>,
    balances: &Vec<u128>,
) -> (r: Result<Response, ContractError>)
    requires
        balances@.len() == target@.len(),
    ensures
        arb_create_post(
            r,
            *state,
            contract_address@,
            sender@,
            cluster_address@,
            user_address@,
            loan_amount,
            target.deep_view(),
            balances@,
        ),
{
    if !(*sender == *contract_address) {
        return Err(ContractError::Unauthorized);
    }
    let ghost tv = target.deep_view();
    let n = target.len();

    let mut assets: Vec<Asset> = Vec::new();
    let mut funds: Vec<Coin> = Vec::new();
    let mut messages: Vec<Instruction> = Vec::new();
    proof {
        assert(messages.deep_view() =~= Seq::<InstrV>::empty());
        assert(funds.deep_view() =~= Seq::<CoinV>::empty());
        assert(assets.deep_view() =~= Seq::<AssetV>::empty());
    }
    let mut i: usize = 0;
    while i < n
        invariant
            n == target@.len(),
            balances@.len() == n,
            tv == target.deep_view(),
            i <= n,
            assets.deep_view() =~= measured_assets(tv, balances@).subrange(0, i as int),
            funds.deep_view() == create_funds_spec(tv, balances@, i as int),
            messages.deep_view() == allowance_msgs_spec(tv, balances@, state.incentive_addres@,
                i as int),
        decreases n - i,
    {
        let ghost prev_funds = funds.deep_view();
        let ghost prev_msgs = messages.deep_view();
        let ghost prev_assets = assets.deep_view();
        assert(tv[i as int] == target@[i as int]@);
        let bal = balances[i];
        assets.push(Asset { info: target[i].info.dup(), amount: bal });
        proof {
            assert(assets.deep_view() =~= prev_assets.push(AssetV { info: tv[i as int].info,
                amount: bal }));
            assert(assets.deep_view() =~= measured_assets(tv, balances@).subrange(0,
                i as int + 1));
        }
        match &target[i].info {
            AssetInfo::NativeToken { denom } => {
                funds.push(Coin { denom: denom.clone(), amount: bal });
                proof {
                    assert(funds.deep_view() =~= prev_funds.push(
                        CoinV { denom: denom@, amount: bal },
                    ));
                }
            },
            AssetInfo::Token { contract_addr } => {
                messages.push(
                    Instruction::IncreaseAllowance {
                        token: contract_addr.clone(),
                        spender: state.incentive_addres.clone(),
                        amount: bal,
                    },
                );
                proof {
                    assert(messages.deep_view() =~= prev_msgs.push(
                        InstrV::IncreaseAllowance {
                            token: contract_addr@,
                            spender: state.incentive_addres@,
                            amount: bal,
                        },
                    ));
                }
            },
        }
        i = i + 1;
    }
    proof {
        assert(measured_assets(tv, balances@).subrange(0, n as int) =~= measured_assets(tv,
            balances@));
    }

    let sorted = sort_funds(funds);
    let ghost sorted_dv = sorted.deep_view();

    let ghost allowance_dv = messages.deep_view();
    messages.push(
        Instruction::Incentives {
            incentive: state.incentive_addres.clone(),
            funds: sorted,
            msg: IncentivesMsg::ArbClusterCreate {
                cluster_contract: cluster_address,
                assets,
                min_ust: Some(1),
            },
        },
    );
    let ghost with_mint = messages.deep_view();

    let mut tail = match repay_and_take_profit(
        loan_amount,
        contract_address,
        &state.vault_address,
        &user_address,
    ) {
        Ok(t) => t,
        Err(e) => {
            return Err(e);
        },
    };
    let ghost tail_dv = tail.deep_view();
    messages.append(&mut tail);
    let resp = Response { messages };
    proof {
        assert(with_mint =~= allowance_dv.push(with_mint[with_mint.len() - 1]));
        assert(resp.out() =~= with_mint + tail_dv);
    }
    Ok(resp)
}

} // verus!
