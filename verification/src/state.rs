//! The contract's stored configuration and the per-cycle loan record.

use vstd::prelude::*;

use crate::asset::Asset;
use crate::dec::Dec;

verus! {

/// The contract's configuration: the collaborators every step consults.
#[derive(Clone, Debug, PartialEq, Eq)]
pub struct State {
    pub vault_address: String,
    pub incentive_addres: String,
    pub astroport_factory_address: String,
    pub owner_address: String,
    pub aust_token_address: String,
    pub anchor_market_contract: String,
}

/// Everything one arbitrage cycle must carry across call boundaries:
/// the beneficiary, the loan, and the basket snapshot taken at sizing time.
#[derive(Clone, Debug, PartialEq, Eq)]
pub struct LoanInfo {
    pub cluster_address: String,
    pub user_address: String,
    pub amount: u128,
    pub target: Vec<Asset>,
    pub inv: Vec<u128>,
    pub prices: Vec<Dec>,
}

} // verus!
