//! The contract's message surface: what callers send in, and the model of
//! what the engine emits back out. Outbound work is expressed as
//! [`Instruction`] values; the wire encoding of those instructions is not
//! the engine's concern.

use vstd::prelude::*;

use crate::asset::{Asset, AssetV, Coin, CoinV};
use crate::dec::Dec;

verus! {

/// Addresses the contract is configured with at instantiation.
#[derive(Clone, Debug, PartialEq, Eq)]
pub struct InstantiateMsg {
    pub vault_address: String,
    pub incentive_address: String,
    pub astroport_factory_address: String,
    pub aust_token_address: String,
    pub anchor_market_contract: String,
}

/// The execute entry points. Variants with a leading underscore are
/// continuations: externally addressable, but honoured only when the loan
/// venue or the contract itself is the caller.
#[allow(non_camel_case_types)]
#[derive(Clone, Debug, PartialEq, Eq)]
pub enum ExecuteMsg {
    /// Start a cycle: estimate, pick a strategy and request the flash loan.
    FlashLoan { cluster_address: String, user_address: Option<String> },
    /// Loan received, redeem path: buy index tokens on the pool and redeem.
    _CallbackRedeem {
        cluster_address: String,
        user_address: String,
        loan_amount: u128,
        target: Vec<Asset>,
    },
    /// Loan received, create path: split the loan into the target assets.
    _CallbackCreate {
        cluster_address: String,
        user_address: String,
        loan_amount: u128,
        target: Vec<Asset>,
        prices: Vec<Dec>,
    },
    /// Sweep the remaining base balance to the beneficiary.
    _UserProfit { user_address: String },
    /// Mint with the measured balances and sell on the pool, then repay.
    _ArbCreate {
        cluster_address: String,
        user_address: String,
        loan_amount: u128,
        target: Vec<Asset>,
    },
    /// Liquidate redeemed assets back into the base asset, then repay.
    _SwapToUstAndTakeProfit { user_address: String, loan_amount: u128, target: Vec<Asset> },
    /// Owner-gated configuration update.
    UpdateConfig {
        vault_address: Option<String>,
        incentive_address: Option<String>,
        astroport_factory_address: Option<String>,
        owner_address: Option<String>,
    },
}

/// Requests this engine issues against the incentives contract.
#[derive(Clone, Debug, PartialEq, Eq)]
pub enum IncentivesMsg {
    /// Buy index tokens on the pool with `asset` and redeem them pro-rata.
    ArbClusterRedeem { cluster_contract: String, asset: Asset, min_cluster: Option<u128> },
    /// Mint index tokens from `assets` and sell them on the pool.
    ArbClusterCreate { cluster_contract: String, assets: Vec<Asset>, min_ust: Option<u128> },
}

/// The query entry points.
#[derive(Clone, Debug, PartialEq, Eq)]
pub enum QueryMsg {
    UstVaultAddress {},
    EstimateArbitrage { cluster_address: String },
}

/// The one query this engine issues against a cluster contract.
#[derive(Clone, Debug, PartialEq, Eq)]
pub enum QueryMsgNebula {
    ClusterState {},
}

#[derive(Clone, Debug, PartialEq, Eq)]
pub struct UstVaultAddressResponse {
    pub vault_address: String,
}

/// What the estimator reports: both prices, the sized loan, and the basket
/// snapshot the later steps need (the continuation payload).
#[derive(Clone, Debug, PartialEq, Eq)]
pub struct EstimateArbitrageResponse {
    pub market_price: Dec,
    pub intrinsic_price: Dec,
    pub arbitrage_cost: u128,
    pub inv: Vec<u128>,
    pub target: Vec<Asset>,
    pub prices: Vec<Dec>,
}

/// A cluster contract's reported state, as it arrives over the wire:
/// prices still in their decimal string form.
#[derive(Clone, Debug, PartialEq, Eq)]
pub struct ClusterStateResponse {
    pub outstanding_balance_tokens: u128,
    pub prices: Vec<String>,
    pub inv: Vec<u128>,
    pub penalty: String,
    pub cluster_token: String,
    pub target: Vec<Asset>,
    pub cluster_contract_address: String,
    pub active: bool,
}

/// One outbound external call, in emission order. The host encodes and
/// dispatches these; the engine only decides them.
#[derive(Clone, Debug, PartialEq, Eq)]
pub enum Instruction {
    /// Ask the loan venue for `amount` base coins; it calls back with
    /// `callback`.
    RequestFlashLoan { vault: String, amount: u128, callback: ExecuteMsg },
    /// Execute a request on the incentives contract, attaching `funds`.
    Incentives { incentive: String, funds: Vec<Coin>, msg: IncentivesMsg },
    /// Market swap of a native coin into another denom.
    NativeSwap { offer_denom: String, ask_denom: String, amount: u128 },
    /// Swap on the resolved pool `pair`, offering a native coin.
    PoolSwapNative { pair: String, offer_denom: String, amount: u128 },
    /// Swap on the resolved pool `pair`, sending cw20 tokens with a hook.
    PoolSwapToken { pair: String, token: String, amount: u128 },
    /// Deposit base coins with the yield market for wrapped tokens.
    YieldDeposit { market: String, amount: u128 },
    /// Return wrapped tokens to the yield market for base coins.
    YieldRedeem { market: String, token: String, amount: u128 },
    /// Raise a spender's allowance on a cw20 token.
    IncreaseAllowance { token: String, spender: String, amount: u128 },
    /// Send native coins.
    SendNative { to: String, denom: String, amount: u128 },
    /// A self-addressed continuation message.
    Continue { contract: String, msg: ExecuteMsg },
}

/// What one entry point returns: the instructions to emit, in order.
#[derive(Clone, Debug, PartialEq, Eq)]
pub struct Response {
    pub messages: Vec<Instruction>,
}

/// Mathematical image of an [`ExecuteMsg`].
#[allow(non_camel_case_types)]
#[verifier::ext_equal]
pub enum ExecuteMsgV {
    FlashLoan { cluster_address: Seq<char>, user_address: Option<Seq<char>> },
    _CallbackRedeem {
        cluster_address: Seq<char>,
        user_address: Seq<char>,
        loan_amount: u128,
        target: Seq<AssetV>,
    },
    _CallbackCreate {
        cluster_address: Seq<char>,
        user_address: Seq<char>,
        loan_amount: u128,
        target: Seq<AssetV>,
        prices: Seq<Dec>,
    },
    _UserProfit { user_address: Seq<char> },
    _ArbCreate {
        cluster_address: Seq<char>,
        user_address: Seq<char>,
        loan_amount: u128,
        target: Seq<AssetV>,
    },
    _SwapToUstAndTakeProfit { user_address: Seq<char>, loan_amount: u128, target: Seq<AssetV> },
    UpdateConfig {
        vault_address: Option<Seq<char>>,
        incentive_address: Option<Seq<char>>,
        astroport_factory_address: Option<Seq<char>>,
        owner_address: Option<Seq<char>>,
    },
}

impl View for ExecuteMsg {
    type V = ExecuteMsgV;

    open spec fn view(&self) -> ExecuteMsgV {
        match self {
            ExecuteMsg::FlashLoan { cluster_address, user_address } => ExecuteMsgV::FlashLoan {
                cluster_address: cluster_address@,
                user_address: user_address.deep_view(),
            },
            ExecuteMsg::_CallbackRedeem {
                cluster_address,
                user_address,
                loan_amount,
                target,
            } => ExecuteMsgV::_CallbackRedeem {
                cluster_address: cluster_address@,
                user_address: user_address@,
                loan_amount: *loan_amount,
                target: target.deep_view(),
            },
            ExecuteMsg::_CallbackCreate {
                cluster_address,
                user_address,
                loan_amount,
                target,
                prices,
            } => ExecuteMsgV::_CallbackCreate {
                cluster_address: cluster_address@,
                user_address: user_address@,
                loan_amount: *loan_amount,
                target: target.deep_view(),
                prices: prices@,
            },
            ExecuteMsg::_UserProfit { user_address } => ExecuteMsgV::_UserProfit {
                user_address: user_address@,
            },
            ExecuteMsg::_ArbCreate {
                cluster_address,
                user_address,
                loan_amount,
                target,
            } => ExecuteMsgV::_ArbCreate {
                cluster_address: cluster_address@,
                user_address: user_address@,
                loan_amount: *loan_amount,
                target: target.deep_view(),
            },
            ExecuteMsg::_SwapToUstAndTakeProfit { user_address, loan_amount, target } => (
            ExecuteMsgV::_SwapToUstAndTakeProfit {
                user_address: user_address@,
                loan_amount: *loan_amount,
                target: target.deep_view(),
            }),
            ExecuteMsg::UpdateConfig {
                vault_address,
                incentive_address,
                astroport_factory_address,
                owner_address,
            } => ExecuteMsgV::UpdateConfig {
                vault_address: vault_address.deep_view(),
                incentive_address: incentive_address.deep_view(),
                astroport_factory_address: astroport_factory_address.deep_view(),
                owner_address: owner_address.deep_view(),
            },
        }
    }
}

impl DeepView for ExecuteMsg {
    type V = ExecuteMsgV;

    open spec fn deep_view(&self) -> ExecuteMsgV {
        self.view()
    }
}

/// Mathematical image of an [`IncentivesMsg`].
#[verifier::ext_equal]
pub enum IncentivesMsgV {
    ArbClusterRedeem { cluster_contract: Seq<char>, asset: AssetV, min_cluster: Option<u128> },
    ArbClusterCreate { cluster_contract: Seq<char>, assets: Seq<AssetV>, min_ust: Option<u128> },
}

impl View for IncentivesMsg {
    type V = IncentivesMsgV;

    open spec fn view(&self) -> IncentivesMsgV {
        match self {
            IncentivesMsg::ArbClusterRedeem { cluster_contract, asset, min_cluster } => (
            IncentivesMsgV::ArbClusterRedeem {
                cluster_contract: cluster_contract@,
                asset: asset@,
                min_cluster: *min_cluster,
            }),
            IncentivesMsg::ArbClusterCreate { cluster_contract, assets, min_ust } => (
            IncentivesMsgV::ArbClusterCreate {
                cluster_contract: cluster_contract@,
                assets: assets.deep_view(),
                min_ust: *min_ust,
            }),
        }
    }
}

impl DeepView for IncentivesMsg {
    type V = IncentivesMsgV;

    open spec fn deep_view(&self) -> IncentivesMsgV {
        self.view()
    }
}

/// Mathematical image of an [`Instruction`].
#[verifier::ext_equal]
pub enum InstrV {
    RequestFlashLoan { vault: Seq<char>, amount: u128, callback: ExecuteMsgV },
    Incentives { incentive: Seq<char>, funds: Seq<CoinV>, msg: IncentivesMsgV },
    NativeSwap { offer_denom: Seq<char>, ask_denom: Seq<char>, amount: u128 },
    PoolSwapNative { pair: Seq<char>, offer_denom: Seq<char>, amount: u128 },
    PoolSwapToken { pair: Seq<char>, token: Seq<char>, amount: u128 },
    YieldDeposit { market: Seq<char>, amount: u128 },
    YieldRedeem { market: Seq<char>, token: Seq<char>, amount: u128 },
    IncreaseAllowance { token: Seq<char>, spender: Seq<char>, amount: u128 },
    SendNative { to: Seq<char>, denom: Seq<char>, amount: u128 },
    Continue { contract: Seq<char>, msg: ExecuteMsgV },
}

impl View for Instruction {
    type V = InstrV;

    open spec fn view(&self) -> InstrV {
        match self {
            Instruction::RequestFlashLoan { vault, amount, callback } => (
            InstrV::RequestFlashLoan {
                vault: vault@,
                amount: *amount,
                callback: callback@,
            }),
            Instruction::Incentives { incentive, funds, msg } => InstrV::Incentives {
                incentive: incentive@,
                funds: funds.deep_view(),
                msg: msg@,
            },
            Instruction::NativeSwap { offer_denom, ask_denom, amount } => InstrV::NativeSwap {
                offer_denom: offer_denom@,
                ask_denom: ask_denom@,
                amount: *amount,
            },
            Instruction::PoolSwapNative { pair, offer_denom, amount } => InstrV::PoolSwapNative {
                pair: pair@,
                offer_denom: offer_denom@,
                amount: *amount,
            },
            Instruction::PoolSwapToken { pair, token, amount } => InstrV::PoolSwapToken {
                pair: pair@,
                token: token@,
                amount: *amount,
            },
            Instruction::YieldDeposit { market, amount } => InstrV::YieldDeposit {
                market: market@,
                amount: *amount,
            },
            Instruction::YieldRedeem { market, token, amount } => InstrV::YieldRedeem {
                market: market@,
                token: token@,
                amount: *amount,
            },
            Instruction::IncreaseAllowance { token, spender, amount } => (
            InstrV::IncreaseAllowance {
                token: token@,
                spender: spender@,
                amount: *amount,
            }),
            Instruction::SendNative { to, denom, amount } => InstrV::SendNative {
                to: to@,
                denom: denom@,
                amount: *amount,
            },
            Instruction::Continue { contract, msg } => InstrV::Continue {
                contract: contract@,
                msg: msg@,
            },
        }
    }
}

impl DeepView for Instruction {
    type V = InstrV;

    open spec fn deep_view(&self) -> InstrV {
        self.view()
    }
}

impl Response {
    /// The emitted instructions, as mathematical values, in emission order.
    pub open spec fn out(&self) -> Seq<InstrV> {
        self.messages.deep_view()
    }
}

} // verus!
