//! Token ledger with delegated spending, a multi-asset reservation store, and an escrow
//! order book that swaps two assets between two parties in one step.
//!
//! Every operation is a function from a state and its arguments to a result and a next
//! state. Each state type has a mathematical view, each operation a pair of spec functions
//! (its outcome and the state it leaves), and the executable code is proved to compute both.

use vstd::prelude::*;

pub mod totals;
mod arith;
mod balances;
pub mod currency;
pub mod erc20;
pub mod exchange;

verus! {

/// Identity of an account. Callers hand in identities that are already authenticated.
pub type AccountId = u64;

/// Amount of an asset.
pub type Balance = u128;

/// Identifier of an asset class.
pub type CurrencyId = u32;

/// Identifier of an order.
pub type OrderId = u64;

} // verus!
