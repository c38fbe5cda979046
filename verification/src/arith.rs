//! The integer operations that the order book takes from sp-runtime's numeric traits.
//!
//! Nothing here is proved: each contract restates what the trait's implementation for the
//! integer type does.

use crate::{Balance, OrderId};
use vstd::prelude::*;

verus! {

/// `sp_runtime::traits::One::one` at the type of order identifiers. The implementation
/// for `u64` returns the literal 1.
#[verifier::external_body]
pub(crate) fn one() -> (r: OrderId)
    ensures
        r == 1,
{
    sp_runtime::traits::One::one()
}

/// `sp_runtime::traits::CheckedAdd::checked_add` on order identifiers. The implementation
/// for `u64` hands both operands to the integer's own `checked_add`: the sum where it fits
/// the type, `None` where it does not.
#[verifier::external_body]
pub(crate) fn checked_add(a: OrderId, b: OrderId) -> (r: Option<OrderId>)
    ensures
        a + b <= OrderId::MAX ==> r == Some((a + b) as OrderId),
        a + b > OrderId::MAX ==> r is None,
{
    sp_runtime::traits::CheckedAdd::checked_add(&a, &b)
}

/// `sp_runtime::traits::Zero::is_zero` on amounts. The implementation for `u128` compares
/// with the literal 0.
#[verifier::external_body]
pub(crate) fn is_zero(amount: Balance) -> (r: bool)
    ensures
        r == (amount == 0),
{
    sp_runtime::traits::Zero::is_zero(&amount)
}

} // verus!
