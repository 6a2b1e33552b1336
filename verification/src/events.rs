//! The events of the fee manager contract, with their fields already decoded.

use crate::word::{Address, Uint256};
use vstd::prelude::*;

verus! {

/// The event that the contract emits when it is created.
#[derive(Clone, Copy, Debug, PartialEq, Eq)]
pub struct FeeManagerCreated {
    pub validator_manager_cci: Address,
    pub erc20: Address,
    pub fee_per_claim: Uint256,
}

/// One redemption of fees by a validator.
#[derive(Clone, Copy, Debug, PartialEq, Eq)]
pub struct FeeRedeemed {
    pub validator: Address,
    pub amount: Uint256,
}

/// The execution of one voucher, named by its packed position.
#[derive(Clone, Copy, Debug, PartialEq, Eq)]
pub struct VoucherExecuted {
    pub voucher_position: Uint256,
}

} // verus!
