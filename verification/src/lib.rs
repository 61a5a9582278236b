//! Arbitrage engine between an index-token ("cluster") contract and a
//! constant-product pool that trades the index token against a base
//! stablecoin.
//!
//! The library holds the decision core: the estimator that sizes the
//! optimal flash loan from basket and pool state, the strategy selector,
//! the swap router, and the continuation state machine that sequences
//! loan, swaps, repayment and profit transfer. Chain queries, storage and
//! message encoding live outside the library; each entry point takes the
//! values read from the chain as plain arguments and returns the
//! instructions to emit.

use vstd::prelude::*;

pub mod arb_create;
pub mod arb_redeem;
pub mod asset;
pub mod contract;
pub mod dec;
pub mod flash_loan;
pub mod laws;
pub mod math;
pub mod msg;
pub mod query;
pub mod state;
pub mod utils;

verus! {

/// Everything that can abort an arbitrage cycle.
#[derive(Clone, Copy, Debug, PartialEq, Eq, Structural)]
pub enum ContractError {
    /// The caller is neither the loan venue nor the contract itself
    /// (or not the owner, on the admin path).
    Unauthorized,
    /// Degenerate market state: empty supply or an empty index reserve.
    DivisionByZero,
    /// A product or sum left the 128-bit range.
    ArithmeticOverflow,
    /// No pool exists for a requested asset pair.
    PairNotFound,
    /// The estimator produced a non-positive trade size.
    NoArbitrageOpportunity,
}

} // verus!
