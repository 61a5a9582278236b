//! Entry and exit of the loan cycle: sizing and requesting the flash loan,
//! repaying it with the fixed margin, and sweeping the profit.

use vstd::prelude::*;

use crate::asset::AssetV;
use crate::dec::Dec;
use crate::msg::{ExecuteMsg, ExecuteMsgV, InstrV, Instruction, Response};
use crate::query::{BasketState, PoolReserves, estimate_arbitrage, estimate_spec};
use crate::state::State;
use crate::utils::{uusd, uusd_view};
use crate::ContractError;

verus! {

/// The continuation the loan venue is asked to call back with: the redeem
/// path when the pool underprices the index token, the create path
/// otherwise. It carries everything the next step needs.
pub open spec fn loan_callback_view(
    m_at: int,
    i_at: int,
    cluster: Seq<char>,
    user: Seq<char>,
    loan: u128,
    target: Seq<AssetV>,
    prices: Seq<Dec>,
) -> ExecuteMsgV {
    if m_at < i_at {
        ExecuteMsgV::_CallbackRedeem {
            cluster_address: cluster,
            user_address: user,
            loan_amount: loan,
            target,
        }
    } else {
        ExecuteMsgV::_CallbackCreate {
            cluster_address: cluster,
            user_address: user,
            loan_amount: loan,
            target,
            prices,
        }
    }
}

/// Who receives the profit: the named beneficiary, or the sender.
pub open spec fn chosen_user(user_address: Option<Seq<char>>, sender: Seq<char>) -> Seq<char> {
    match user_address {
        Some(u) => u,
        None => sender,
    }
}

/// Everything [`try_flash_loan`] promises: the estimate's own error, a
/// zero size turned into the no-opportunity error, or exactly one
/// flash-loan request carrying the sized loan and the chosen continuation.
pub open spec fn flash_loan_post(
    r: Result<Response, ContractError>,
    state: State,
    sender: Seq<char>,
    cluster_address: Seq<char>,
    user_address: Option<Seq<char>>,
    basket: BasketState,
    reserves: PoolReserves,
) -> bool {
    let est = estimate_spec(
        basket.outstanding_supply as int,
        basket.inventory@,
        basket.prices@,
        reserves.base_reserve as int,
        reserves.index_reserve as int,
    );
    match r {
        Ok(resp) => est matches Ok(t) && t.2 > 0 && resp.out() == seq![
            (InstrV::RequestFlashLoan {
                vault: state.vault_address@,
                amount: t.2 as u128,
                callback: loan_callback_view(
                    t.0,
                    t.1,
                    cluster_address,
                    chosen_user(user_address, sender),
                    t.2 as u128,
                    basket.target_weights.deep_view(),
                    basket.prices@,
                ),
            }),
        ],
        Err(e) => (est matches Err(e2) && e == e2) || (est matches Ok(t) && t.2 == 0 && e
            == ContractError::NoArbitrageOpportunity),
    }
}

/// Sizes the loan from the basket and pool snapshots, picks the strategy,
/// and emits exactly one flash-loan request whose callback embeds the
/// chosen path and its continuation payload. A non-positive size aborts
/// the cycle instead.
pub fn try_flash_loan(
    state: &State,
    sender: &String,
    cluster_address: &String,
    user_address: Option<String>,
    basket: &BasketState,
    reserves: &PoolReserves,
) -> (r: Result<Response, ContractError>)
    requires
        basket.well_formed(),
    ensures
        flash_loan_post(
            r,
            *state,
            sender@,
            cluster_address@,
            user_address.deep_view(),
            *basket,
            *reserves,
        ),
{
    let est = match estimate_arbitrage(basket, reserves) {
        Ok(v) => v,
        Err(e) => {
            return Err(e);
        },
    };
    if est.arbitrage_cost == 0 {
        return Err(ContractError::NoArbitrageOpportunity);
    }
    let user = match user_address {
        Some(u) => u,
        None => sender.clone(),
    };
    let callback = if est.market_price.lt(&est.intrinsic_price) {
        ExecuteMsg::_CallbackRedeem {
            cluster_address: cluster_address.clone(),
            user_address: user,
            loan_amount: est.arbitrage_cost,
            target: est.target,
        }
    } else {
        ExecuteMsg::_CallbackCreate {
            cluster_address: cluster_address.clone(),
            user_address: user,
            loan_amount: est.arbitrage_cost,
            target: est.target,
            prices: est.prices,
        }
    };
    let mut messages: Vec<Instruction> = Vec::new();
    messages.push(
        Instruction::RequestFlashLoan {
            vault: state.vault_address.clone(),
            amount: est.arbitrage_cost,
            callback,
        },
    );
    let resp = Response { messages };
    proof {
        assert(resp.out() =~= seq![resp.messages@[0]@]);
    }
    Ok(resp)
}

/// The owed return: principal plus the fixed margin, the ceiling of one
/// 999th of the loan.
pub open spec fn repay_amount_spec(loan: int) -> int {
    loan + loan / 999 + if loan % 999 == 0 {
        0int
    } else {
        1int
    }
}

/// The two closing instructions of every cycle: the owed return to the
/// loan venue, then the self-addressed profit sweep.
pub open spec fn repay_msgs_view(
    loan: int,
    contract: Seq<char>,
    vault: Seq<char>,
    user: Seq<char>,
) -> Seq<InstrV> {
    seq![
        (InstrV::SendNative {
            to: vault,
            denom: uusd_view(),
            amount: repay_amount_spec(loan) as u128,
        }),
        (InstrV::Continue { contract, msg: ExecuteMsgV::_UserProfit { user_address: user } }),
    ]
}

/// Repay the loan venue and queue the profit sweep: a transfer of the
/// owed return to the venue, then a self-addressed profit continuation.
pub fn repay_and_take_profit(
    loan_amount: u128,
    contract_address: &String,
    vault_address: &String,
    user_address: &String,
) -> (r: Result<Vec<Instruction>, ContractError>)
    ensures
        repay_amount_spec(loan_amount as int) <= u128::MAX ==> (r matches Ok(msgs)
            && msgs.deep_view() =~= repay_msgs_view(
            loan_amount as int,
            contract_address@,
            vault_address@,
            user_address@,
        )),
        repay_amount_spec(loan_amount as int) > u128::MAX ==> r == Err::<
            Vec<Instruction>,
            ContractError,
        >(ContractError::ArithmeticOverflow),
{
    let floor_part = loan_amount / 999;
    let margin: u128 = if loan_amount % 999 == 0 {
        floor_part
    } else {
        floor_part + 1
    };
    let repay = match loan_amount.checked_add(margin) {
        Some(v) => v,
        None => {
            return Err(ContractError::ArithmeticOverflow);
        },
    };
    let mut msgs: Vec<Instruction> = Vec::new();
    msgs.push(
        Instruction::SendNative { to: vault_address.clone(), denom: uusd(), amount: repay },
    );
    msgs.push(
        Instruction::Continue {
            contract: contract_address.clone(),
            msg: ExecuteMsg::_UserProfit { user_address: user_address.clone() },
        },
    );
    proof {
        assert(msgs.deep_view() =~= seq![msgs@[0]@, msgs@[1]@]);
    }
    Ok(msgs)
}

/// Everything [`try_user_profit`] promises: rejection of any caller but
/// the contract itself, else one transfer of the whole balance.
pub open spec fn user_profit_post(
    r: Result<Response, ContractError>,
    contract_address: Seq<char>,
    sender: Seq<char>,
    user_address: Seq<char>,
    balance: u128,
) -> bool {
    &&& sender != contract_address ==> r == Err::<Response, ContractError>(
        ContractError::Unauthorized,
    )
    &&& sender == contract_address ==> (r matches Ok(resp) && resp.out() == seq![
        (InstrV::SendNative { to: user_address, denom: uusd_view(), amount: balance }),
    ])
}

/// Sweep the whole remaining base balance to the beneficiary. Only the
/// contract itself may trigger this step.
pub fn try_user_profit(
    contract_address: &String,
    sender: &String,
    user_address: &String,
    balance: u128,
) -> (r: Result<Response, ContractError>)
    ensures
        user_profit_post(r, contract_address@, sender@, user_address@, balance),
{
    if !(*sender == *contract_address) {
        return Err(ContractError::Unauthorized);
    }
    let mut messages: Vec<Instruction> = Vec::new();
    messages.push(
        Instruction::SendNative { to: user_address.clone(), denom: uusd(), amount: balance },
    );
    let resp = Response { messages };
    proof {
        assert(resp.out() =~= seq![resp.messages@[0]@]);
    }
    Ok(resp)
}

} // verus!
