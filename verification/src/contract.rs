//! The contract surface: configuration at instantiation, the execute
//! dispatcher, the owner-gated configuration update, and the queries.
//!
//! Every entry point is a pure decision: the values a step would read from
//! the chain — basket and pool snapshots, measured balances, the factory's
//! pair registry — arrive as arguments, and the decided instructions go
//! back to the host for encoding and dispatch.

use vstd::prelude::*;

use crate::arb_create::{arb_create_post, callback_create_post, try_arb_create,
    try_callback_create};
use crate::arb_redeem::{callback_redeem_post, swap_to_ust_post, try_callback_redeem,
    try_swap_to_ust_and_take_profit};
use crate::asset::PairDirectory;
use crate::flash_loan::{flash_loan_post, try_flash_loan, try_user_profit, user_profit_post};
use crate::msg::{
    EstimateArbitrageResponse, ExecuteMsg, InstantiateMsg, QueryMsg, Response,
    UstVaultAddressResponse,
};
use crate::query::{BasketState, PoolReserves, estimate_arbitrage, estimate_spec};
use crate::state::State;
use crate::ContractError;

verus! {

/// Creates the contract's configuration: the collaborator addresses from
/// the message, and the sender as owner.
pub fn instantiate(msg: InstantiateMsg, sender: String) -> (r: State)
    ensures
        r.vault_address == msg.vault_address,
        r.incentive_addres == msg.incentive_address,
        r.astroport_factory_address == msg.astroport_factory_address,
        r.aust_token_address == msg.aust_token_address,
        r.anchor_market_contract == msg.anchor_market_contract,
        r.owner_address == sender,
{
    State {
        vault_address: msg.vault_address,
        incentive_addres: msg.incentive_address,
        astroport_factory_address: msg.astroport_factory_address,
        aust_token_address: msg.aust_token_address,
        anchor_market_contract: msg.anchor_market_contract,
        owner_address: sender,
    }
}

/// Everything [`try_update_config`] promises: rejection of any caller but
/// the owner, else each named address replaced and the rest kept.
pub open spec fn update_config_post(
    r: Result<Response, ContractError>,
    pre: State,
    post: State,
    sender: Seq<char>,
    vault_address: Option<String>,
    incentive_address: Option<String>,
    astroport_factory_address: Option<String>,
    owner_address: Option<String>,
) -> bool {
    &&& sender != pre.owner_address@ ==> r == Err::<Response, ContractError>(
        ContractError::Unauthorized,
    ) && post == pre
    &&& sender == pre.owner_address@ ==> {
        &&& r matches Ok(resp) && resp.out() == Seq::<crate::msg::InstrV>::empty()
        &&& post.vault_address == (match vault_address {
            Some(v) => v,
            None => pre.vault_address,
        })
        &&& post.incentive_addres == (match incentive_address {
            Some(v) => v,
            None => pre.incentive_addres,
        })
        &&& post.astroport_factory_address == (match astroport_factory_address {
            Some(v) => v,
            None => pre.astroport_factory_address,
        })
        &&& post.owner_address == (match owner_address {
            Some(v) => v,
            None => pre.owner_address,
        })
        &&& post.aust_token_address == pre.aust_token_address
        &&& post.anchor_market_contract == pre.anchor_market_contract
    }
}

/// Updates the configured collaborator addresses. Only the owner may.
pub fn try_update_config(
    state: &mut State,
    sender: &String,
    vault_address: Option<String>,
    incentive_address: Option<String>,
    astroport_factory_address: Option<String>,
    owner_address: Option<String>,
) -> (r: Result<Response, ContractError>)
    ensures
        update_config_post(
            r,
            *old(state),
            *final(state),
            sender@,
            vault_address,
            incentive_address,
            astroport_factory_address,
            owner_address,
        ),
{
    if !(*sender == state.owner_address) {
        return Err(ContractError::Unauthorized);
    }
    if let Some(v) = vault_address {
        state.vault_address = v;
    }
    if let Some(v) = incentive_address {
        state.incentive_addres = v;
    }
    if let Some(v) = astroport_factory_address {
        state.astroport_factory_address = v;
    }
    if let Some(v) = owner_address {
        state.owner_address = v;
    }
    let resp = Response { messages: Vec::new() };
    proof {
        assert(resp.out() =~= Seq::<crate::msg::InstrV>::empty());
    }
    Ok(resp)
}

/// The chain state one dispatch may read, gathered by the host before the
/// call: the basket and pool snapshots, the per-target-asset balances the
/// contract holds, its base-coin balance, and the factory's pair registry.
pub struct ChainView {
    pub basket: BasketState,
    pub reserves: PoolReserves,
    pub balances: Vec<u128>,
    pub base_balance: u128,
    pub pairs: PairDirectory,
}

/// Exposes all the execute entry points: each message variant goes to its
/// handler, whose whole promise is restated here.
pub fn execute(
    state: &mut State,
    contract_address: &String,
    sender: &String,
    msg: ExecuteMsg,
    view: &ChainView,
) -> (r: Result<Response, ContractError>)
    requires
        view.basket.well_formed(),
        match msg {
            ExecuteMsg::_ArbCreate { target, .. } => view.balances@.len() == target@.len(),
            ExecuteMsg::_SwapToUstAndTakeProfit { target, .. } => view.balances@.len()
                == target@.len(),
            ExecuteMsg::_CallbackCreate { target, prices, .. } => target@.len() == prices@.len(),
            _ => true,
        },
    ensures
        match msg {
            ExecuteMsg::FlashLoan { cluster_address, user_address } => flash_loan_post(
                r,
                *old(state),
                sender@,
                cluster_address@,
                user_address.deep_view(),
                view.basket,
                view.reserves,
            ),
            ExecuteMsg::_CallbackRedeem { cluster_address, user_address, loan_amount, target } => (
            callback_redeem_post(
                r,
                *old(state),
                contract_address@,
                sender@,
                cluster_address@,
                user_address@,
                loan_amount,
                target.deep_view(),
            )),
            ExecuteMsg::_CallbackCreate {
                cluster_address,
                user_address,
                loan_amount,
                target,
                prices,
            } => callback_create_post(
                r,
                *old(state),
                contract_address@,
                sender@,
                cluster_address@,
                user_address@,
                loan_amount,
                target.deep_view(),
                prices@,
                view.pairs.pairs.deep_view(),
            ),
            ExecuteMsg::_UserProfit { user_address } => user_profit_post(
                r,
                contract_address@,
                sender@,
                user_address@,
                view.base_balance,
            ),
            ExecuteMsg::_ArbCreate { cluster_address, user_address, loan_amount, target } => (
            arb_create_post(
                r,
                *old(state),
                contract_address@,
                sender@,
                cluster_address@,
                user_address@,
                loan_amount,
                target.deep_view(),
                view.balances@,
            )),
            ExecuteMsg::_SwapToUstAndTakeProfit { user_address, loan_amount, target } => (
            swap_to_ust_post(
                r,
                *old(state),
                contract_address@,
                sender@,
                user_address@,
                loan_amount,
                target.deep_view(),
                view.balances@,
                view.pairs.pairs.deep_view(),
            )),
            ExecuteMsg::UpdateConfig {
                vault_address,
                incentive_address,
                astroport_factory_address,
                owner_address,
            } => update_config_post(
                r,
                *old(state),
                *final(state),
                sender@,
                vault_address,
                incentive_address,
                astroport_factory_address,
                owner_address,
            ),
        },
        !(msg is UpdateConfig) ==> *final(state) == *old(state),
{
    match msg {
        ExecuteMsg::FlashLoan { cluster_address, user_address } => try_flash_loan(
            state,
            sender,
            &cluster_address,
            user_address,
            &view.basket,
            &view.reserves,
        ),
        ExecuteMsg::_CallbackRedeem { cluster_address, user_address, loan_amount, target } => (
        try_callback_redeem(
            state,
            contract_address,
            sender,
            cluster_address,
            user_address,
            loan_amount,
            &target,
        )),
        ExecuteMsg::_CallbackCreate {
            cluster_address,
            user_address,
            loan_amount,
            target,
            prices,
        } => try_callback_create(
            state,
            contract_address,
            sender,
            cluster_address,
            user_address,
            loan_amount,
            &target,
            &prices,
            &view.pairs,
        ),
        ExecuteMsg::_UserProfit { user_address } => try_user_profit(
            contract_address,
            sender,
            &user_address,
            view.base_balance,
        ),
        ExecuteMsg::_ArbCreate { cluster_address, user_address, loan_amount, target } => (
        try_arb_create(
            state,
            contract_address,
            sender,
            cluster_address,
            user_address,
            loan_amount,
            &target,
            &view.balances,
        )),
        ExecuteMsg::_SwapToUstAndTakeProfit { user_address, loan_amount, target } => (
        try_swap_to_ust_and_take_profit(
            state,
            contract_address,
            sender,
            user_address,
            loan_amount,
            &target,
            &view.balances,
            &view.pairs,
        )),
        ExecuteMsg::UpdateConfig {
            vault_address,
            incentive_address,
            astroport_factory_address,
            owner_address,
        } => try_update_config(
            state,
            sender,
            vault_address,
            incentive_address,
            astroport_factory_address,
            owner_address,
        ),
    }
}

/// What a query returns, before the host encodes it.
#[derive(Clone, Debug, PartialEq, Eq)]
pub enum QueryAnswer {
    UstVaultAddress(UstVaultAddressResponse),
    EstimateArbitrage(EstimateArbitrageResponse),
}

/// The configured loan venue's address.
pub fn query_vault_address(state: &State) -> (r: UstVaultAddressResponse)
    ensures
        r.vault_address@ == state.vault_address@,
{
    UstVaultAddressResponse { vault_address: state.vault_address.clone() }
}

/// Exposes the queries. A query decides from the handed-in snapshots alone
/// and changes nothing.
pub fn query(state: &State, msg: &QueryMsg, basket: &BasketState, reserves: &PoolReserves) -> (r:
    Result<QueryAnswer, ContractError>)
    requires
        basket.well_formed(),
    ensures
        msg is UstVaultAddress ==> (r matches Ok(a) && a matches QueryAnswer::UstVaultAddress(v)
            && v.vault_address@ == state.vault_address@),
        msg is EstimateArbitrage ==> ({
            let est = estimate_spec(
                basket.outstanding_supply as int,
                basket.inventory@,
                basket.prices@,
                reserves.base_reserve as int,
                reserves.index_reserve as int,
            );
            match r {
                Ok(a) => a matches QueryAnswer::EstimateArbitrage(resp) && est == Ok::<
                    (int, int, int),
                    ContractError,
                >(
                    (
                        resp.market_price.atomics as int,
                        resp.intrinsic_price.atomics as int,
                        resp.arbitrage_cost as int,
                    ),
                ) && resp.inv@ == basket.inventory@ && resp.prices@ == basket.prices@
                    && resp.target@ == basket.target_weights@,
                Err(e) => est == Err::<(int, int, int), ContractError>(e),
            }
        }),
{
    match msg {
        QueryMsg::UstVaultAddress {  } => Ok(
            QueryAnswer::UstVaultAddress(query_vault_address(state)),
        ),
        QueryMsg::EstimateArbitrage { cluster_address } => {
            match estimate_arbitrage(basket, reserves) {
                Ok(resp) => Ok(QueryAnswer::EstimateArbitrage(resp)),
                Err(e) => Err(e),
            }
        },
    }
}

} // verus!
