//! The redeem path: buy index tokens on the pool with the whole loan and
//! redeem them at the basket, then liquidate everything the redemption
//! returned back into the base asset, repay, and sweep the profit.

use vstd::prelude::*;

use crate::asset::{
    Asset, AssetInfo, AssetInfoV, AssetV, PairDirectory, PairEntryV, dup_assets, first_pair,
    has_pair,
};
use crate::flash_loan::{repay_amount_spec, repay_msgs_view, repay_and_take_profit};
use crate::msg::{
    ExecuteMsg, ExecuteMsgV, IncentivesMsg, IncentivesMsgV, InstrV, Instruction, Response,
};
use crate::state::State;
use crate::utils::{create_astroport_swap_msg, create_aust_swap_msg, create_terraswap_swap_msg,
    uusd, uusd_view};
use crate::ContractError;

verus! {

/// The two instructions of the redeem callback: buy-and-redeem with the
/// whole loan, then the self-addressed liquidation step.
pub open spec fn redeem_callback_view(
    incentive: Seq<char>,
    contract: Seq<char>,
    cluster: Seq<char>,
    user: Seq<char>,
    loan: u128,
    target: Seq<AssetV>,
) -> Seq<InstrV> {
    seq![
        (InstrV::Incentives {
            incentive,
            funds: seq![(crate::asset::CoinV { denom: uusd_view(), amount: loan })],
            msg: IncentivesMsgV::ArbClusterRedeem {
                cluster_contract: cluster,
                asset: (AssetV {
                    info: AssetInfoV::NativeToken { denom: uusd_view() },
                    amount: loan,
                }),
                min_cluster: Some(1u128),
            },
        }),
        (InstrV::Continue {
            contract,
            msg: ExecuteMsgV::_SwapToUstAndTakeProfit {
                user_address: user,
                loan_amount: loan,
                target,
            },
        }),
    ]
}

/// Everything [`try_callback_redeem`] promises: rejection of any caller
/// but the loan venue, else exactly the two redeem-callback instructions.
pub open spec fn callback_redeem_post(
    r: Result<Response, ContractError>,
    state: State,
    contract_address: Seq<char>,
    sender: Seq<char>,
    cluster_address: Seq<char>,
    user_address: Seq<char>,
    loan_amount: u128,
    target: Seq<AssetV>,
) -> bool {
    &&& sender != state.vault_address@ ==> r == Err::<Response, ContractError>(
        ContractError::Unauthorized,
    )
    &&& sender == state.vault_address@ ==> (r matches Ok(resp) && resp.out()
        == redeem_callback_view(
        state.incentive_addres@,
        contract_address,
        cluster_address,
        user_address,
        loan_amount,
        target,
    ))
}

/// Entered by the loan venue's callback: spend the whole loan buying index
/// tokens and redeeming them, then continue with the liquidation step.
/// Only the loan venue may trigger it.
pub fn try_callback_redeem(
    state: &State,
    contract_address: &String,
    sender: &String,
    cluster_address: String,
    user_address: String,
    loan_amount: u128,
    target: &Vec<Asset>,
) -> (r: Result<Response, ContractError>)
    ensures
        callback_redeem_post(
            r,
            *state,
            contract_address@,
            sender@,
            cluster_address@,
            user_address@,
            loan_amount,
            target.deep_view(),
        ),
{
    if !(*sender == state.vault_address) {
        return Err(ContractError::Unauthorized);
    }
    let mut funds: Vec<crate::asset::Coin> = Vec::new();
    funds.push(crate::asset::Coin { denom: uusd(), amount: loan_amount });
    let asset = Asset { info: AssetInfo::NativeToken { denom: uusd() }, amount: loan_amount };
    let mut messages: Vec<Instruction> = Vec::new();
    messages.push(
        Instruction::Incentives {
            incentive: state.incentive_addres.clone(),
            funds,
            msg: IncentivesMsg::ArbClusterRedeem {
                cluster_contract: cluster_address,
                asset,
                min_cluster: Some(1),
            },
        },
    );
    messages.push(
        Instruction::Continue {
            contract: contract_address.clone(),
            msg: ExecuteMsg::_SwapToUstAndTakeProfit {
                user_address,
                loan_amount,
                target: dup_assets(target),
            },
        },
    );
    let resp = Response { messages };
    proof {
        assert(resp.out() =~~= redeem_callback_view(
            state.incentive_addres@,
            contract_address@,
            cluster_address@,
            user_address@,
            loan_amount,
            target.deep_view(),
        ));
    }
    Ok(resp)
}

/// The liquidation swaps, in target order: every asset the redemption can
/// have returned goes back into the base asset — the base asset itself and
/// zero balances are skipped, the yield wrapper goes through its market,
/// tokens through their pool, other native coins through a market swap.
pub open spec fn redeem_swaps_spec(
    target: Seq<AssetV>,
    balances: Seq<u128>,
    aust: Seq<char>,
    anchor: Seq<char>,
    pairs: Seq<PairEntryV>,
    n: int,
) -> Result<Seq<InstrV>, ContractError>
    decreases n,
{
    if n <= 0 {
        Ok(Seq::empty())
    } else {
        match redeem_swaps_spec(target, balances, aust, anchor, pairs, n - 1) {
            Err(e) => Err(e),
            Ok(prefix) => {
                let bal = balances[n - 1];
                match target[n - 1].info {
                    AssetInfoV::NativeToken { denom } => {
                        if denom == uusd_view() || bal == 0 {
                            Ok(prefix)
                        } else {
                            Ok(
                                prefix.push(
                                    InstrV::NativeSwap {
                                        offer_denom: denom,
                                        ask_denom: uusd_view(),
                                        amount: bal,
                                    },
                                ),
                            )
                        }
                    },
                    AssetInfoV::Token { contract_addr } => {
                        if bal == 0 {
                            Ok(prefix)
                        } else if contract_addr == aust {
                            Ok(
                                prefix.push(
                                    InstrV::YieldRedeem { market: anchor, token: aust, amount: bal },
                                ),
                            )
                        } else if !has_pair(
                            pairs,
                            AssetInfoV::NativeToken { denom: uusd_view() },
                            AssetInfoV::Token { contract_addr },
                        ) {
                            Err(ContractError::PairNotFound)
                        } else {
                            Ok(
                                prefix.push(
                                    InstrV::PoolSwapToken {
                                        pair: first_pair(
                                            pairs,
                                            AssetInfoV::NativeToken { denom: uusd_view() },
                                            AssetInfoV::Token { contract_addr },
                                        ),
                                        token: contract_addr,
                                        amount: bal,
                                    },
                                ),
                            )
                        }
                    },
                }
            },
        }
    }
}

/// Once a step of the sequence fails, the whole sequence fails the same way.
proof fn lemma_redeem_swaps_err_persists(
    target: Seq<AssetV>,
    balances: Seq<u128>,
    aust: Seq<char>,
    anchor: Seq<char>,
    pairs: Seq<PairEntryV>,
    k: int,
    n: int,
    e: ContractError,
)
    requires
        k <= n,
        redeem_swaps_spec(target, balances, aust, anchor, pairs, k) == Err::<
            Seq<InstrV>,
            ContractError,
        >(e),
    ensures
        redeem_swaps_spec(target, balances, aust, anchor, pairs, n) == Err::<
            Seq<InstrV>,
            ContractError,
        >(e),
    decreases n - k,
{
    if k < n {
        lemma_redeem_swaps_err_persists(target, balances, aust, anchor, pairs, k, n - 1, e);
    }
}

/// Everything [`try_swap_to_ust_and_take_profit`] promises: rejection of
/// any caller but the contract itself; else the liquidation swaps followed
/// by repayment and the profit sweep, or the first step's error.
pub open spec fn swap_to_ust_post(
    r: Result<Response, ContractError>,
    state: State,
    contract_address: Seq<char>,
    sender: Seq<char>,
    user_address: Seq<char>,
    loan_amount: u128,
    target: Seq<AssetV>,
    balances: Seq<u128>,
    pairs: Seq<PairEntryV>,
) -> bool {
    &&& sender != contract_address ==> r == Err::<Response, ContractError>(
        ContractError::Unauthorized,
    )
    &&& sender == contract_address ==> ({
        let swaps = redeem_swaps_spec(
            target,
            balances,
            state.aust_token_address@,
            state.anchor_market_contract@,
            pairs,
            target.len() as int,
        );
        match r {
            Ok(resp) => swaps matches Ok(s) && repay_amount_spec(loan_amount as int) <= u128::MAX
                && resp.out() == s + repay_msgs_view(
                loan_amount as int,
                contract_address,
                state.vault_address@,
                user_address,
            ),
            Err(e) => (swaps matches Err(e2) && e == e2) || (repay_amount_spec(loan_amount as int)
                > u128::MAX && e == ContractError::ArithmeticOverflow && swaps is Ok),
        }
    })
}

/// Entered by the contract's own continuation after the redemption
/// settled: liquidate every returned balance back into the base asset,
/// then repay the venue and queue the profit sweep. Only the contract
/// itself may trigger it.
pub fn try_swap_to_ust_and_take_profit(
    state: &State,
    contract_address: &String,
    sender: &String,
    user_address: String,
    loan_amount: u128,
    target: &Vec<Asset>,
    balances: &Vec<u128>,
    pairs: &PairDirectory,
) -> (r: Result<Response, ContractError>)
    requires
        balances@.len() == target@.len(),
    ensures
        swap_to_ust_post(
            r,
            *state,
            contract_address@,
            sender@,
            user_address@,
            loan_amount,
            target.deep_view(),
            balances@,
            pairs.pairs.deep_view(),
        ),
{
    if !(*sender == *contract_address) {
        return Err(ContractError::Unauthorized);
    }
    let ghost tv = target.deep_view();
    let ghost pv = pairs.pairs.deep_view();
    let ghost aust = state.aust_token_address@;
    let ghost anchor = state.anchor_market_contract@;
    let n = target.len();
    let uusd_s = uusd();
    let mut messages: Vec<Instruction> = Vec::new();
    proof {
        assert(messages.deep_view() =~= Seq::<InstrV>::empty());
    }
    for i in 0..n
        invariant
            sender@ == contract_address@,
            n == target@.len(),
            balances@.len() == n,
            tv == target.deep_view(),
            pv == pairs.pairs.deep_view(),
            aust == state.aust_token_address@,
            anchor == state.anchor_market_contract@,
            uusd_s@ == uusd_view(),
            redeem_swaps_spec(tv, balances@, aust, anchor, pv, i as int) == Ok::<
                Seq<InstrV>,
                ContractError,
            >(messages.deep_view()),
    {
        let ghost prev = messages.deep_view();
        assert(tv[i as int] == target@[i as int]@);
        let bal = balances[i];
        match &target[i].info {
            AssetInfo::NativeToken { denom } => {
                if !(*denom == uusd_s) && bal != 0 {
                    messages.push(create_terraswap_swap_msg(bal, denom.clone(), uusd()));
                    proof {
                        assert(messages.deep_view() =~= prev.push(
                            InstrV::NativeSwap {
                                offer_denom: denom@,
                                ask_denom: uusd_view(),
                                amount: bal,
                            },
                        ));
                    }
                }
            },
            AssetInfo::Token { contract_addr } => {
                if bal != 0 {
                    if *contract_addr == state.aust_token_address {
                        messages.push(
                            create_aust_swap_msg(
                                state.anchor_market_contract.clone(),
                                state.aust_token_address.clone(),
                                bal,
                                true,
                            ),
                        );
                        proof {
                            assert(messages.deep_view() =~= prev.push(
                                InstrV::YieldRedeem { market: anchor, token: aust, amount: bal },
                            ));
                        }
                    } else {
                        let offer = Asset { info: target[i].info.dup(), amount: bal };
                        let to_asset = AssetInfo::NativeToken { denom: uusd() };
                        match create_astroport_swap_msg(&offer, &to_asset, pairs) {
                            Ok(m) => {
                                messages.push(m);
                                proof {
                                    assert(messages.deep_view() =~= prev.push(
                                        messages@[messages@.len() - 1]@,
                                    ));
                                }
                            },
                            Err(e) => {
                                proof {
                                    lemma_redeem_swaps_err_persists(
                                        tv,
                                        balances@,
                                        aust,
                                        anchor,
                                        pv,
                                        i as int + 1,
                                        n as int,
                                        e,
                                    );
                                }
                                return Err(e);
                            },
                        }
                    }
                }
            },
        }
    }
    let swap_msgs_len = messages.len();
    let mut tail = match repay_and_take_profit(
        loan_amount,
        contract_address,
        &state.vault_address,
        &user_address,
    ) {
        Ok(t) => t,
        Err(e) => {
            return Err(e);
        },
    };
    let ghost swaps_dv = messages.deep_view();
    let ghost tail_dv = tail.deep_view();
    messages.append(&mut tail);
    let resp = Response { messages };
    proof {
        assert(resp.out() =~= swaps_dv + tail_dv);
    }
    Ok(resp)
}

} // verus!
