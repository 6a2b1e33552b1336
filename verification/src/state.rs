//! The accumulator: what is known of the fee manager contract at one block.

use crate::ledger::{LedgerView, VoucherLedger};
use crate::redemption::ValidatorRedemption;
use crate::word::{Address, Int256, Uint256};
use vstd::prelude::*;

verus! {

/// The state of the fee manager contract at one block.
///
/// A state is never changed once it is made. The state of a later block is a new value, which
/// shares with the one it was derived from whatever the block did not touch.
#[derive(Debug, PartialEq, Eq)]
pub struct FeeManagerState {
    pub validator_manager_address: Address,
    pub erc20_address: Address,
    pub fee_per_claim: Uint256,
    pub validator_redeemed: [Option<ValidatorRedemption>; 8],
    pub leftover_balance: Int256,
    pub fee_manager_balance: Uint256,
    pub vouchers: VoucherLedger,
}

/// What a state holds, with the table as a sequence and the ledger as a map.
pub struct FeeManagerStateView {
    pub validator_manager_address: Address,
    pub erc20_address: Address,
    pub fee_per_claim: Uint256,
    pub validator_redeemed: Seq<Option<ValidatorRedemption>>,
    pub leftover_balance: Int256,
    pub fee_manager_balance: Uint256,
    pub vouchers: LedgerView,
}

impl View for FeeManagerState {
    type V = FeeManagerStateView;

    open spec fn view(&self) -> FeeManagerStateView {
        FeeManagerStateView {
            validator_manager_address: self.validator_manager_address,
            erc20_address: self.erc20_address,
            fee_per_claim: self.fee_per_claim,
            validator_redeemed: self.validator_redeemed@,
            leftover_balance: self.leftover_balance,
            fee_manager_balance: self.fee_manager_balance,
            vouchers: self.vouchers@,
        }
    }
}

impl Clone for FeeManagerState {
    /// A second handle on the same state; the ledger is shared, not copied.
    fn clone(&self) -> (out: Self)
        ensures
            out@ == self@,
    {
        FeeManagerState {
            validator_manager_address: self.validator_manager_address,
            erc20_address: self.erc20_address,
            fee_per_claim: self.fee_per_claim,
            validator_redeemed: self.validator_redeemed,
            leftover_balance: self.leftover_balance,
            fee_manager_balance: self.fee_manager_balance,
            vouchers: self.vouchers.clone(),
        }
    }
}

} // verus!
