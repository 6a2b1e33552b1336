//! The state of a fee manager contract, reconstructed from the events it has emitted.
//!
//! `delegate` holds the two entry points: the reconstruction of the state at a block from the
//! contract's whole history, and the advance of a state by one block. `codec` reads the packed
//! position of a voucher, `redemption` adds up what each validator has redeemed, and `ledger`
//! records which vouchers have been executed. `word`, `events`, `state` and `error` hold the
//! values that pass between them, and `persistent` the hash maps that the sums and the ledger
//! are kept in.

pub mod codec;
pub mod delegate;
pub mod error;
pub mod events;
pub mod ledger;
pub mod persistent;
pub mod redemption;
pub mod state;
pub mod word;
