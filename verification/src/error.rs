//! The queries that a reconstruction asks of the chain, and the ways in which it fails.

use vstd::prelude::*;

verus! {

/// A query for the events of one kind that the fee manager contract has emitted.
#[derive(Clone, Copy, Debug, PartialEq, Eq, Structural)]
pub enum Query {
    /// The event that the contract emits once, when it is created.
    FeeManagerCreated,
    /// The events that record a validator redeeming fees.
    FeeRedeemed,
    /// The events that record the execution of a voucher.
    VoucherExecuted,
}

impl Query {
    /// The words that tell a reader which query failed.
    pub open spec fn context_text(self) -> Seq<char> {
        match self {
            Query::FeeManagerCreated => "Error querying for fee manager created events"@,
            Query::FeeRedeemed => "Error querying for fee redeemed events"@,
            Query::VoucherExecuted => "Error querying for voucher executed events"@,
        }
    }

    /// The words that tell a reader which query failed.
    pub fn context(&self) -> (out: &'static str)
        ensures
            out@ == self.context_text(),
    {
        match self {
            Query::FeeManagerCreated => "Error querying for fee manager created events",
            Query::FeeRedeemed => "Error querying for fee redeemed events",
            Query::VoucherExecuted => "Error querying for voucher executed events",
        }
    }
}

/// Why a reconstruction or an advance did not produce an accumulator.
#[derive(Clone, Copy, Debug, PartialEq, Eq, Structural)]
pub enum FoldError {
    /// The chain did not answer the query that `context` names, or answered what could not be
    /// read as events of that kind.
    QueryError { context: Query },
    /// The contract has emitted no creation event.
    MissingCreationEvent,
    /// The contract has emitted more than one creation event.
    AmbiguousCreationEvent,
    /// More distinct validators have redeemed than the contract has slots for.
    TooManyValidators,
    /// What one validator has redeemed does not fit in 256 bits.
    AmountOverflow,
}

} // verus!
