//! Reconstructing the state of the fee manager contract from its events, and advancing it
//! block by block.
//!
//! The delegate itself never talks to the chain. Where it needs events it names the query, and
//! whoever drives it asks the chain and hands the reply back. `begin_sync` and `resume_sync`
//! lead through a full reconstruction in this way, `begin_fold` and `resume_fold` through the
//! advance by one block. `sync` and `fold` do the same work for a caller that holds the events
//! already.

use crate::error::{FoldError, Query};
use crate::events::{FeeManagerCreated, FeeRedeemed, VoucherExecuted};
use crate::ledger::{executed, lemma_merged_keeps, merge_events, VoucherLedger};
use crate::redemption::{
    aggregate_redemptions,
    is_redemption_table,
    too_many_validators,
    total_overflows,
    ValidatorRedemption,
};
use crate::state::{FeeManagerState, FeeManagerStateView};
use crate::word::{Int256, Uint256};
use vstd::prelude::*;

verus! {

/// What the chain answered to a query.
#[derive(Debug, PartialEq, Eq)]
pub enum Reply {
    /// The query failed, or its answer could not be read.
    Failed,
    /// The creation events, in the order of the chain.
    FeeManagerCreated(Vec<FeeManagerCreated>),
    /// The redemption events, in the order of the chain.
    FeeRedeemed(Vec<FeeRedeemed>),
    /// The voucher executions, in the order of the chain.
    VoucherExecuted(Vec<VoucherExecuted>),
}

/// How far a reconstruction has come: which reply it waits for, and what it has so far.
#[derive(Debug, PartialEq, Eq)]
pub enum SyncStage {
    /// Waiting for the creation event.
    Creation,
    /// Waiting for the redemptions.
    Redemptions { created: FeeManagerCreated },
    /// Waiting for the voucher executions.
    Executions { created: FeeManagerCreated, validator_redeemed: [Option<ValidatorRedemption>; 8] },
}

/// What a reconstruction does next.
#[derive(Debug, PartialEq, Eq)]
pub enum SyncStep {
    /// Ask the chain `query` and resume at `stage` with its reply.
    Ask { stage: SyncStage, query: Query },
    /// The reconstruction is complete.
    Done(FeeManagerState),
    /// The reconstruction has failed; nothing of it is kept.
    Failed(FoldError),
}

/// What an advance by one block does next.
#[derive(Debug, PartialEq, Eq)]
pub enum FoldStep {
    /// Ask the chain `query`, for the new block alone, and resume with its reply.
    Ask(Query),
    /// The block holds nothing of interest: the state is that of the block before.
    Done(FeeManagerState),
}

impl SyncStage {
    /// The query whose reply this stage waits for.
    pub open spec fn pending(self) -> Query {
        match self {
            SyncStage::Creation => Query::FeeManagerCreated,
            SyncStage::Redemptions { .. } => Query::FeeRedeemed,
            SyncStage::Executions { .. } => Query::VoucherExecuted,
        }
    }
}

/// The state that a reconstruction assembles from the creation event, the table of
/// redemptions and the voucher executions. Both balances are zero.
pub open spec fn assembled(
    created: FeeManagerCreated,
    validator_redeemed: Seq<Option<ValidatorRedemption>>,
    events: Seq<VoucherExecuted>,
) -> FeeManagerStateView {
    FeeManagerStateView {
        validator_manager_address: created.validator_manager_cci,
        erc20_address: created.erc20,
        fee_per_claim: created.fee_per_claim,
        validator_redeemed,
        leftover_balance: Int256 { bits: Uint256 { limbs: [0, 0, 0, 0] } },
        fee_manager_balance: Uint256 { limbs: [0, 0, 0, 0] },
        vouchers: merge_events(Map::empty(), events),
    }
}

/// Why a reconstruction from these events fails, if it does: the creation event is looked at
/// first, then the number of validators, then their totals.
pub open spec fn sync_failure(
    created: Seq<FeeManagerCreated>,
    redeemed: Seq<FeeRedeemed>,
) -> Option<FoldError> {
    if created.len() == 0 {
        Some(FoldError::MissingCreationEvent)
    } else if created.len() > 1 {
        Some(FoldError::AmbiguousCreationEvent)
    } else if too_many_validators(redeemed) {
        Some(FoldError::TooManyValidators)
    } else if total_overflows(redeemed) {
        Some(FoldError::AmountOverflow)
    } else {
        None
    }
}

/// Whether `state` is the state of the contract that has emitted these events.
pub open spec fn is_synced(
    state: FeeManagerStateView,
    created: Seq<FeeManagerCreated>,
    redeemed: Seq<FeeRedeemed>,
    events: Seq<VoucherExecuted>,
) -> bool {
    &&& created.len() == 1
    &&& is_redemption_table(state.validator_redeemed, redeemed)
    &&& state == assembled(created[0], state.validator_redeemed, events)
}

/// The state after one more block: that of the block before, with the block's voucher
/// executions merged into the ledger.
pub open spec fn folded(previous: FeeManagerStateView, events: Seq<VoucherExecuted>) -> FeeManagerStateView {
    FeeManagerStateView { vouchers: merge_events(previous.vouchers, events), ..previous }
}

/// The state after the first `n` of the blocks, each given by its voucher executions, have
/// been folded in one after the other.
pub open spec fn folded_through(
    state: FeeManagerStateView,
    blocks: Seq<Seq<VoucherExecuted>>,
    n: nat,
) -> FeeManagerStateView
    decreases n,
{
    if n == 0 {
        state
    } else {
        folded(folded_through(state, blocks, (n - 1) as nat), blocks[n - 1])
    }
}

/// A voucher that is executed in a state is executed in the state of the next block,
/// whatever that block holds.
pub proof fn lemma_fold_keeps_executed(
    previous: FeeManagerStateView,
    events: Seq<VoucherExecuted>,
    voucher: u64,
    input: u64,
    epoch: u64,
)
    requires
        executed(previous.vouchers, voucher, input, epoch),
    ensures
        executed(folded(previous, events).vouchers, voucher, input, epoch),
{
    lemma_merged_keeps(previous.vouchers, events, events.len(), voucher, input, epoch);
}

/// A voucher that is executed in a state is executed in every state derived from it, through
/// any number of blocks.
pub proof fn lemma_folds_keep_executed(
    state: FeeManagerStateView,
    blocks: Seq<Seq<VoucherExecuted>>,
    n: nat,
    voucher: u64,
    input: u64,
    epoch: u64,
)
    requires
        executed(state.vouchers, voucher, input, epoch),
    ensures
        executed(folded_through(state, blocks, n).vouchers, voucher, input, epoch),
    decreases n,
{
    if n > 0 {
        lemma_folds_keep_executed(state, blocks, (n - 1) as nat, voucher, input, epoch);
        lemma_fold_keeps_executed(
            folded_through(state, blocks, (n - 1) as nat),
            blocks[n - 1],
            voucher,
            input,
            epoch,
        );
    }
}

/// A block without voucher executions leaves the state as it is.
pub proof fn lemma_fold_nothing(previous: FeeManagerStateView)
    ensures
        folded(previous, Seq::empty()) == previous,
{
}

/// The one creation event of the contract.
fn single_creation(events: &Vec<FeeManagerCreated>) -> (out: Result<FeeManagerCreated, FoldError>)
    ensures
        events@.len() == 0 ==> out == Err::<FeeManagerCreated, FoldError>(
            FoldError::MissingCreationEvent,
        ),
        events@.len() > 1 ==> out == Err::<FeeManagerCreated, FoldError>(
            FoldError::AmbiguousCreationEvent,
        ),
        events@.len() == 1 ==> out == Ok::<FeeManagerCreated, FoldError>(events@[0]),
{
    if events.len() == 0 {
        Err(FoldError::MissingCreationEvent)
    } else if events.len() > 1 {
        Err(FoldError::AmbiguousCreationEvent)
    } else {
        Ok(events[0])
    }
}

/// Puts the state together once all its parts are known.
fn assemble(
    created: FeeManagerCreated,
    validator_redeemed: [Option<ValidatorRedemption>; 8],
    events: &Vec<VoucherExecuted>,
) -> (out: FeeManagerState)
    ensures
        out@ == assembled(created, validator_redeemed@, events@),
{
    let state = FeeManagerState {
        validator_manager_address: created.validator_manager_cci,
        erc20_address: created.erc20,
        fee_per_claim: created.fee_per_claim,
        validator_redeemed,
        leftover_balance: Int256::zero(),
        fee_manager_balance: Uint256::zero(),
        vouchers: VoucherLedger::new().merge_events(events),
    };
    proof {
        assert(state.leftover_balance.bits.limbs =~= [0, 0, 0, 0]);
        assert(state.fee_manager_balance.limbs =~= [0, 0, 0, 0]);
    }
    state
}

/// Reconstructs and advances the state of a fee manager contract.
#[derive(Clone, Copy, Debug, Default)]
pub struct FeeManagerDelegate {}

impl FeeManagerDelegate {
    /// Reconstructs the state from all the events that the contract has emitted up to a block:
    /// its creation events, its redemptions and its voucher executions.
    ///
    /// There has to be exactly one creation event, no more than eight validators, and no total
    /// beyond 256 bits; `sync_failure` names the error otherwise.
    pub fn sync(
        &self,
        created: &Vec<FeeManagerCreated>,
        redeemed: &Vec<FeeRedeemed>,
        events: &Vec<VoucherExecuted>,
    ) -> (out: Result<FeeManagerState, FoldError>)
        ensures
            match sync_failure(created@, redeemed@) {
                Some(error) => out == Err::<FeeManagerState, FoldError>(error),
                None => out matches Ok(state) && is_synced(state@, created@, redeemed@, events@),
            },
    {
        let created = match single_creation(created) {
            Ok(created) => created,
            Err(error) => {
                return Err(error);
            },
        };
        let validator_redeemed = match aggregate_redemptions(redeemed) {
            Ok(table) => table,
            Err(error) => {
                return Err(error);
            },
        };
        Ok(assemble(created, validator_redeemed, events))
    }

    /// Advances the state by one block, given the voucher executions of that block alone.
    /// Only the ledger changes, and nothing that was executed before is lost.
    pub fn fold(&self, previous: &FeeManagerState, events: &Vec<VoucherExecuted>) -> (out:
        FeeManagerState)
        ensures
            out@ == folded(previous@, events@),
            forall|voucher: u64, input: u64, epoch: u64|
                executed(previous@.vouchers, voucher, input, epoch) ==> executed(
                    out@.vouchers,
                    voucher,
                    input,
                    epoch,
                ),
    {
        proof {
            assert forall|voucher: u64, input: u64, epoch: u64|
                executed(previous@.vouchers, voucher, input, epoch) implies executed(
                folded(previous@, events@).vouchers,
                voucher,
                input,
                epoch,
            ) by {
                lemma_fold_keeps_executed(previous@, events@, voucher, input, epoch);
            }
        }
        FeeManagerState {
            validator_manager_address: previous.validator_manager_address,
            erc20_address: previous.erc20_address,
            fee_per_claim: previous.fee_per_claim,
            validator_redeemed: previous.validator_redeemed,
            leftover_balance: previous.leftover_balance,
            fee_manager_balance: previous.fee_manager_balance,
            vouchers: previous.vouchers.merge_events(events),
        }
    }

    /// The state as it is handed on: a second handle on the accumulator.
    pub fn convert(&self, accumulator: &FeeManagerState) -> (out: FeeManagerState)
        ensures
            out@ == accumulator@,
    {
        accumulator.clone()
    }

    /// Starts a reconstruction: the creation event is asked for first.
    pub fn begin_sync(&self) -> (out: (SyncStage, Query))
        ensures
            out.0 == SyncStage::Creation,
            out.1 == Query::FeeManagerCreated,
    {
        (SyncStage::Creation, Query::FeeManagerCreated)
    }

    /// Takes the reply to the pending query and says what comes next.
    ///
    /// A reply that failed, or that holds events of another kind than was asked for, ends the
    /// reconstruction with a `QueryError` that names the pending query. Otherwise the creation
    /// event leads on to the redemptions, these to the voucher executions, and these to the
    /// finished state, unless the events themselves are at fault.
    pub fn resume_sync(&self, stage: SyncStage, reply: Reply) -> (out: SyncStep)
        ensures
            match (stage, reply) {
                (SyncStage::Creation, Reply::FeeManagerCreated(events)) => {
                    if events@.len() == 0 {
                        out == SyncStep::Failed(FoldError::MissingCreationEvent)
                    } else if events@.len() > 1 {
                        out == SyncStep::Failed(FoldError::AmbiguousCreationEvent)
                    } else {
                        out == (SyncStep::Ask {
                            stage: SyncStage::Redemptions { created: events@[0] },
                            query: Query::FeeRedeemed,
                        })
                    }
                },
                (SyncStage::Redemptions { created }, Reply::FeeRedeemed(events)) => {
                    if too_many_validators(events@) {
                        out == SyncStep::Failed(FoldError::TooManyValidators)
                    } else if total_overflows(events@) {
                        out == SyncStep::Failed(FoldError::AmountOverflow)
                    } else {
                        out matches SyncStep::Ask {
                            stage: SyncStage::Executions { created: kept, validator_redeemed },
                            query,
                        } && kept == created && query == Query::VoucherExecuted
                            && is_redemption_table(validator_redeemed@, events@)
                    }
                },
                (
                    SyncStage::Executions { created, validator_redeemed },
                    Reply::VoucherExecuted(events),
                ) => {
                    out matches SyncStep::Done(state) && state@ == assembled(
                        created,
                        validator_redeemed@,
                        events@,
                    )
                },
                _ => out == SyncStep::Failed(FoldError::QueryError { context: stage.pending() }),
            },
    {
        match stage {
            SyncStage::Creation => match reply {
                Reply::FeeManagerCreated(events) => match single_creation(&events) {
                    Ok(created) => SyncStep::Ask {
                        stage: SyncStage::Redemptions { created },
                        query: Query::FeeRedeemed,
                    },
                    Err(error) => SyncStep::Failed(error),
                },
                _ => SyncStep::Failed(FoldError::QueryError { context: Query::FeeManagerCreated }),
            },
            SyncStage::Redemptions { created } => match reply {
                Reply::FeeRedeemed(events) => match aggregate_redemptions(&events) {
                    Ok(validator_redeemed) => SyncStep::Ask {
                        stage: SyncStage::Executions { created, validator_redeemed },
                        query: Query::VoucherExecuted,
                    },
                    Err(error) => SyncStep::Failed(error),
                },
                _ => SyncStep::Failed(FoldError::QueryError { context: Query::FeeRedeemed }),
            },
            SyncStage::Executions { created, validator_redeemed } => match reply {
                Reply::VoucherExecuted(events) => SyncStep::Done(
                    assemble(created, validator_redeemed, &events),
                ),
                _ => SyncStep::Failed(FoldError::QueryError { context: Query::VoucherExecuted }),
            },
        }
    }

    /// Starts the advance by one block, given what the block's bloom filter says of the
    /// contract's address and of the topic of voucher executions.
    ///
    /// A bloom filter that lacks either proves that the block holds no voucher execution of
    /// the contract: the state of the block before is handed back and nothing is asked.
    /// Otherwise the voucher executions of the block are asked for.
    pub fn begin_fold(
        &self,
        previous: &FeeManagerState,
        bloom_has_address: bool,
        bloom_has_topic: bool,
    ) -> (out: FoldStep)
        ensures
            bloom_has_address && bloom_has_topic ==> out == FoldStep::Ask(Query::VoucherExecuted),
            !(bloom_has_address && bloom_has_topic) ==> (out matches FoldStep::Done(state)
                && state@ == previous@),
    {
        if bloom_has_address && bloom_has_topic {
            FoldStep::Ask(Query::VoucherExecuted)
        } else {
            FoldStep::Done(previous.clone())
        }
    }

    /// Takes the reply to the query for the block's voucher executions and finishes the
    /// advance. A reply that failed, or that holds events of another kind, fails it.
    pub fn resume_fold(&self, previous: &FeeManagerState, reply: Reply) -> (out: Result<
        FeeManagerState,
        FoldError,
    >)
        ensures
            match reply {
                Reply::VoucherExecuted(events) => out matches Ok(state) && state@ == folded(
                    previous@,
                    events@,
                ),
                _ => out == Err::<FeeManagerState, FoldError>(
                    FoldError::QueryError { context: Query::VoucherExecuted },
                ),
            },
    {
        match reply {
            Reply::VoucherExecuted(events) => Ok(self.fold(previous, &events)),
            _ => Err(FoldError::QueryError { context: Query::VoucherExecuted }),
        }
    }
}

} // verus!
