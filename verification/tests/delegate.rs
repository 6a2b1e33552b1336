use fee_manager::codec::encode;
use fee_manager::delegate::{FeeManagerDelegate, FoldStep, Reply, SyncStage, SyncStep};
use fee_manager::error::{FoldError, Query};
use fee_manager::events::{FeeManagerCreated, FeeRedeemed, VoucherExecuted};
use fee_manager::redemption::ValidatorRedemption;
use fee_manager::state::FeeManagerState;
use fee_manager::word::{Address, Int256, Uint256};

fn creation() -> FeeManagerCreated {
    FeeManagerCreated {
        validator_manager_cci: Address::from_low_u64(0xAA),
        erc20: Address::from_low_u64(0xBB),
        fee_per_claim: Uint256::from_u64(100),
    }
}

fn redeemed(validator: u64, amount: u64) -> FeeRedeemed {
    FeeRedeemed { validator: Address::from_low_u64(validator), amount: Uint256::from_u64(amount) }
}

fn execution(voucher: u64, input: u64, epoch: u64) -> VoucherExecuted {
    VoucherExecuted { voucher_position: encode(voucher, input, epoch) }
}

fn synced() -> FeeManagerState {
    FeeManagerDelegate::default()
        .sync(&vec![creation()], &vec![redeemed(0x1, 30)], &vec![execution(5, 2, 9)])
        .unwrap()
}

#[test]
fn sync_end_to_end() {
    let state = synced();
    assert_eq!(state.validator_manager_address, Address::from_low_u64(0xAA));
    assert_eq!(state.erc20_address, Address::from_low_u64(0xBB));
    assert_eq!(state.fee_per_claim, Uint256::from_u64(100));
    assert_eq!(
        state.validator_redeemed[0],
        Some(ValidatorRedemption {
            validator: Address::from_low_u64(0x1),
            amount: Uint256::from_u64(30),
        })
    );
    for entry in state.validator_redeemed[1..].iter() {
        assert_eq!(*entry, None);
    }
    assert_eq!(state.leftover_balance, Int256::zero());
    assert_eq!(state.fee_manager_balance, Uint256::zero());
    assert!(state.vouchers.is_executed(5, 2, 9));
    assert!(!state.vouchers.is_executed(9, 2, 5));

    let delegate = FeeManagerDelegate::default();
    match delegate.begin_fold(&state, false, true) {
        FoldStep::Done(next) => assert_eq!(next, state),
        FoldStep::Ask(_) => panic!("a block whose bloom filter lacks the contract asks nothing"),
    }
}

#[test]
fn sync_without_a_creation_event_fails() {
    let delegate = FeeManagerDelegate::default();
    let out = delegate.sync(&Vec::new(), &vec![redeemed(1, 1)], &Vec::new());
    assert_eq!(out, Err(FoldError::MissingCreationEvent));
}

#[test]
fn sync_with_two_creation_events_fails() {
    let delegate = FeeManagerDelegate::default();
    let out = delegate.sync(&vec![creation(), creation()], &Vec::new(), &Vec::new());
    assert_eq!(out, Err(FoldError::AmbiguousCreationEvent));
}

#[test]
fn sync_with_nine_validators_fails() {
    let delegate = FeeManagerDelegate::default();
    let redemptions: Vec<FeeRedeemed> = (1..=9u64).map(|v| redeemed(v, 10)).collect();
    let out = delegate.sync(&vec![creation()], &redemptions, &vec![execution(5, 2, 9)]);
    assert_eq!(out, Err(FoldError::TooManyValidators));
}

#[test]
fn sync_with_an_overflowing_total_fails() {
    let delegate = FeeManagerDelegate::default();
    let max = Uint256 { limbs: [u64::MAX; 4] };
    let redemptions = vec![
        FeeRedeemed { validator: Address::from_low_u64(1), amount: max },
        redeemed(1, 1),
    ];
    let out = delegate.sync(&vec![creation()], &redemptions, &Vec::new());
    assert_eq!(out, Err(FoldError::AmountOverflow));
}

#[test]
fn sync_looks_at_the_creation_event_first() {
    let delegate = FeeManagerDelegate::default();
    let redemptions: Vec<FeeRedeemed> = (1..=9u64).map(|v| redeemed(v, 10)).collect();
    let out = delegate.sync(&Vec::new(), &redemptions, &Vec::new());
    assert_eq!(out, Err(FoldError::MissingCreationEvent));
}

#[test]
fn sync_with_no_events_but_the_creation() {
    let state = FeeManagerDelegate::default().sync(&vec![creation()], &Vec::new(), &Vec::new()).unwrap();
    assert_eq!(state.validator_redeemed, [None; 8]);
    assert!(!state.vouchers.is_executed(0, 0, 0));
    assert_eq!(state.fee_per_claim, Uint256::from_u64(100));
}

#[test]
fn fold_merges_the_executions_of_the_block() {
    let delegate = FeeManagerDelegate::default();
    let previous = synced();
    let next = delegate.fold(&previous, &vec![execution(5, 2, 10), execution(6, 0, 0)]);
    assert!(next.vouchers.is_executed(5, 2, 9));
    assert!(next.vouchers.is_executed(5, 2, 10));
    assert!(next.vouchers.is_executed(6, 0, 0));
    assert_eq!(next.validator_manager_address, previous.validator_manager_address);
    assert_eq!(next.erc20_address, previous.erc20_address);
    assert_eq!(next.fee_per_claim, previous.fee_per_claim);
    assert_eq!(next.validator_redeemed, previous.validator_redeemed);
    assert_eq!(next.leftover_balance, previous.leftover_balance);
    assert_eq!(next.fee_manager_balance, previous.fee_manager_balance);
    assert!(!previous.vouchers.is_executed(5, 2, 10));
    assert!(!previous.vouchers.is_executed(6, 0, 0));
}

#[test]
fn fold_of_an_empty_block_changes_nothing() {
    let previous = synced();
    assert_eq!(FeeManagerDelegate::default().fold(&previous, &Vec::new()), previous);
}

#[test]
fn fold_of_a_known_execution_changes_nothing() {
    let previous = synced();
    let next = FeeManagerDelegate::default().fold(&previous, &vec![execution(5, 2, 9)]);
    assert_eq!(next, previous);
}

#[test]
fn what_is_executed_stays_executed_through_folds() {
    let delegate = FeeManagerDelegate::default();
    let blocks = vec![
        vec![execution(1, 1, 1)],
        Vec::new(),
        vec![execution(5, 2, 9), execution(2, 2, 2)],
        vec![execution(1, 1, 2)],
    ];
    let mut state = synced();
    let mut known = vec![(5u64, 2u64, 9u64)];
    for block in blocks.iter() {
        state = delegate.fold(&state, block);
        for event in block.iter() {
            known.push(fee_manager::codec::decode(&event.voucher_position));
        }
        for &(voucher, input, epoch) in known.iter() {
            assert!(state.vouchers.is_executed(voucher, input, epoch));
        }
    }
}

#[test]
fn two_branches_from_one_state_do_not_disturb_each_other() {
    let delegate = FeeManagerDelegate::default();
    let parent = synced();
    let left = delegate.fold(&parent, &vec![execution(1, 0, 0)]);
    let right = delegate.fold(&parent, &vec![execution(2, 0, 0)]);
    assert!(left.vouchers.is_executed(1, 0, 0) && !left.vouchers.is_executed(2, 0, 0));
    assert!(right.vouchers.is_executed(2, 0, 0) && !right.vouchers.is_executed(1, 0, 0));
    assert!(!parent.vouchers.is_executed(1, 0, 0) && !parent.vouchers.is_executed(2, 0, 0));
}

#[test]
fn begin_fold_asks_nothing_where_the_bloom_filter_lacks_the_contract() {
    let delegate = FeeManagerDelegate::default();
    let previous = synced();
    assert_eq!(delegate.begin_fold(&previous, false, false), FoldStep::Done(synced()));
    assert_eq!(delegate.begin_fold(&previous, false, true), FoldStep::Done(synced()));
    assert_eq!(delegate.begin_fold(&previous, true, false), FoldStep::Done(synced()));
}

#[test]
fn begin_fold_asks_for_the_executions_where_the_bloom_filter_has_both() {
    let delegate = FeeManagerDelegate::default();
    assert_eq!(delegate.begin_fold(&synced(), true, true), FoldStep::Ask(Query::VoucherExecuted));
}

#[test]
fn resume_fold_merges_the_reply() {
    let delegate = FeeManagerDelegate::default();
    let previous = synced();
    let next = delegate
        .resume_fold(&previous, Reply::VoucherExecuted(vec![execution(8, 8, 8)]))
        .unwrap();
    assert_eq!(next, delegate.fold(&previous, &vec![execution(8, 8, 8)]));
    assert!(next.vouchers.is_executed(8, 8, 8));
}

#[test]
fn resume_fold_fails_on_a_failed_query() {
    let delegate = FeeManagerDelegate::default();
    let failed = Err(FoldError::QueryError { context: Query::VoucherExecuted });
    assert_eq!(delegate.resume_fold(&synced(), Reply::Failed), failed);
    assert_eq!(delegate.resume_fold(&synced(), Reply::FeeRedeemed(Vec::new())), failed);
    assert_eq!(delegate.resume_fold(&synced(), Reply::FeeManagerCreated(vec![creation()])), failed);
}

#[test]
fn a_reconstruction_asks_its_three_queries_in_turn() {
    let delegate = FeeManagerDelegate::default();
    let (stage, query) = delegate.begin_sync();
    assert_eq!(stage, SyncStage::Creation);
    assert_eq!(query, Query::FeeManagerCreated);

    let (stage, query) = match delegate.resume_sync(stage, Reply::FeeManagerCreated(vec![creation()])) {
        SyncStep::Ask { stage, query } => (stage, query),
        other => panic!("unexpected step {:?}", other),
    };
    assert_eq!(stage, SyncStage::Redemptions { created: creation() });
    assert_eq!(query, Query::FeeRedeemed);

    let (stage, query) = match delegate.resume_sync(stage, Reply::FeeRedeemed(vec![redeemed(0x1, 30)])) {
        SyncStep::Ask { stage, query } => (stage, query),
        other => panic!("unexpected step {:?}", other),
    };
    assert_eq!(query, Query::VoucherExecuted);
    match &stage {
        SyncStage::Executions { created, validator_redeemed } => {
            assert_eq!(*created, creation());
            assert_eq!(validator_redeemed[0].unwrap().amount, Uint256::from_u64(30));
        }
        other => panic!("unexpected stage {:?}", other),
    }

    match delegate.resume_sync(stage, Reply::VoucherExecuted(vec![execution(5, 2, 9)])) {
        SyncStep::Done(state) => assert_eq!(state, synced()),
        other => panic!("unexpected step {:?}", other),
    }
}

#[test]
fn a_failed_query_ends_the_reconstruction_and_names_the_query() {
    let delegate = FeeManagerDelegate::default();
    assert_eq!(
        delegate.resume_sync(SyncStage::Creation, Reply::Failed),
        SyncStep::Failed(FoldError::QueryError { context: Query::FeeManagerCreated })
    );
    assert_eq!(
        delegate.resume_sync(SyncStage::Redemptions { created: creation() }, Reply::Failed),
        SyncStep::Failed(FoldError::QueryError { context: Query::FeeRedeemed })
    );
    assert_eq!(
        delegate.resume_sync(
            SyncStage::Executions { created: creation(), validator_redeemed: [None; 8] },
            Reply::Failed
        ),
        SyncStep::Failed(FoldError::QueryError { context: Query::VoucherExecuted })
    );
}

#[test]
fn a_reply_of_the_wrong_kind_counts_as_a_failed_query() {
    let delegate = FeeManagerDelegate::default();
    assert_eq!(
        delegate.resume_sync(SyncStage::Creation, Reply::FeeRedeemed(vec![redeemed(1, 1)])),
        SyncStep::Failed(FoldError::QueryError { context: Query::FeeManagerCreated })
    );
    assert_eq!(
        delegate.resume_sync(
            SyncStage::Redemptions { created: creation() },
            Reply::VoucherExecuted(Vec::new())
        ),
        SyncStep::Failed(FoldError::QueryError { context: Query::FeeRedeemed })
    );
    assert_eq!(
        delegate.resume_sync(
            SyncStage::Executions { created: creation(), validator_redeemed: [None; 8] },
            Reply::FeeManagerCreated(vec![creation()])
        ),
        SyncStep::Failed(FoldError::QueryError { context: Query::VoucherExecuted })
    );
}

#[test]
fn the_steps_of_a_reconstruction_fail_as_sync_does() {
    let delegate = FeeManagerDelegate::default();
    assert_eq!(
        delegate.resume_sync(SyncStage::Creation, Reply::FeeManagerCreated(Vec::new())),
        SyncStep::Failed(FoldError::MissingCreationEvent)
    );
    assert_eq!(
        delegate.resume_sync(SyncStage::Creation, Reply::FeeManagerCreated(vec![creation(), creation()])),
        SyncStep::Failed(FoldError::AmbiguousCreationEvent)
    );
    let nine: Vec<FeeRedeemed> = (1..=9u64).map(|v| redeemed(v, 10)).collect();
    assert_eq!(
        delegate.resume_sync(SyncStage::Redemptions { created: creation() }, Reply::FeeRedeemed(nine)),
        SyncStep::Failed(FoldError::TooManyValidators)
    );
    let max = Uint256 { limbs: [u64::MAX; 4] };
    let over = vec![FeeRedeemed { validator: Address::from_low_u64(1), amount: max }, redeemed(1, 1)];
    assert_eq!(
        delegate.resume_sync(SyncStage::Redemptions { created: creation() }, Reply::FeeRedeemed(over)),
        SyncStep::Failed(FoldError::AmountOverflow)
    );
}

#[test]
fn each_query_has_its_own_words() {
    assert_eq!(Query::FeeManagerCreated.context(), "Error querying for fee manager created events");
    assert_eq!(Query::FeeRedeemed.context(), "Error querying for fee redeemed events");
    assert_eq!(Query::VoucherExecuted.context(), "Error querying for voucher executed events");
}

#[test]
fn convert_hands_the_state_on() {
    let state = synced();
    assert_eq!(FeeManagerDelegate::default().convert(&state), state);
}
