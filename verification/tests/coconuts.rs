use coconuts::Adjustments;
use coconuts::Citizen;
use coconuts::CoconutError;
use coconuts::Coconuts;

static SIGNER_NAME: &'static str = "bob_near";

fn signer_name() -> String {
    SIGNER_NAME.to_string()
}

fn fresh_citizen(init_block_index: u64) -> Citizen {
    Citizen {
        init_block_index,
        coconut_tree_count: 1,
        young_coconut_adjustments: Adjustments { sent: 0, received: 0 },
    }
}

#[test]
fn no_citizen() {
    let contract = Coconuts::default();
    assert!(!contract.is_citizen(&signer_name()));
}

#[test]
fn create_citizen() {
    let mut contract = Coconuts::default();
    contract.signer_create_citizen(&signer_name(), 0).unwrap();
    assert!(contract.is_citizen(&signer_name()));
}

#[test]
fn young_coconut_balance() {
    let mut contract = Coconuts::default();
    contract.signer_create_citizen(&signer_name(), 0).unwrap();

    assert_eq!(contract.young_coconut_balance(&signer_name(), 0).unwrap(), 0);

    assert_eq!(contract.young_coconut_balance(&signer_name(), 1).unwrap(), 1);
}

#[test]
fn coconut_balance_after_maturation() {
    let mut contract = Coconuts::default();
    contract.signer_create_citizen(&signer_name(), 0).unwrap();

    assert_eq!(contract.young_coconut_balance(&signer_name(), 0).unwrap(), 0);
    assert_eq!(contract.brown_coconut_balance(&signer_name(), 0).unwrap(), 0);

    assert_eq!(contract.young_coconut_balance(&signer_name(), 11).unwrap(), 10);
    assert_eq!(contract.brown_coconut_balance(&signer_name(), 11).unwrap(), 1);

    assert_eq!(contract.young_coconut_balance(&signer_name(), 20).unwrap(), 10);
    assert_eq!(contract.brown_coconut_balance(&signer_name(), 20).unwrap(), 10);
}

#[test]
fn brown_balance_boundary_at_window() {
    let mut contract = Coconuts::default();
    contract.signer_create_citizen(&signer_name(), 0).unwrap();

    // At exactly the maturation window the baseline equals the window, so
    // nothing has matured yet; one tick later one coconut has.
    assert_eq!(contract.young_coconut_balance(&signer_name(), 10).unwrap(), 10);
    assert_eq!(contract.brown_coconut_balance(&signer_name(), 10).unwrap(), 0);
    assert_eq!(contract.brown_coconut_balance(&signer_name(), 11).unwrap(), 1);
}

#[test]
fn balances_partition_baseline_at_sample_points() {
    let mut contract = Coconuts::default();
    contract.signer_create_citizen(&signer_name(), 0).unwrap();

    for now in [0u64, 1, 5, 10, 11, 15, 20, 100] {
        let young = contract.young_coconut_balance(&signer_name(), now).unwrap();
        let brown = contract.brown_coconut_balance(&signer_name(), now).unwrap();
        assert_eq!(young + brown, now as u128);
    }
}

#[test]
fn register_twice_fails() {
    let mut contract = Coconuts::default();
    contract.signer_create_citizen(&signer_name(), 0).unwrap();
    assert_eq!(
        contract.signer_create_citizen(&signer_name(), 1),
        Err(CoconutError::AlreadyRegistered)
    );
}

#[test]
fn register_then_resolve_round_trip() {
    let mut contract = Coconuts::default();
    let id = contract.signer_create_citizen(&signer_name(), 0).unwrap();
    assert_eq!(id, 0);
    assert_eq!(contract.resolve(&signer_name()).unwrap(), id);

    // Registering another key and transferring do not disturb the mapping.
    let other = "alice_near".to_string();
    let other_id = contract.signer_create_citizen(&other, 3).unwrap();
    assert_eq!(other_id, 1);
    assert_eq!(contract.resolve(&signer_name()).unwrap(), id);

    contract
        .signer_transfer_young_coconuts(&signer_name(), &other, 1, 5)
        .unwrap();
    assert_eq!(contract.resolve(&signer_name()).unwrap(), id);
    assert_eq!(contract.resolve(&other).unwrap(), other_id);
}

#[test]
fn unknown_account_errors() {
    let contract = Coconuts::default();
    let key = signer_name();
    assert_eq!(contract.resolve(&key), Err(CoconutError::UnknownAccount));
    assert_eq!(contract.init_block_index(&key), Err(CoconutError::UnknownAccount));
    assert_eq!(
        contract.young_coconut_balance(&key, 0),
        Err(CoconutError::UnknownAccount)
    );
    assert_eq!(
        contract.brown_coconut_balance(&key, 0),
        Err(CoconutError::UnknownAccount)
    );
    assert_eq!(
        contract.citizen_state(&key, 0),
        Err(CoconutError::UnknownAccount)
    );
}

#[test]
fn init_block_index_reports_creation_time() {
    let mut contract = Coconuts::default();
    contract.signer_create_citizen(&signer_name(), 7).unwrap();
    assert_eq!(contract.init_block_index(&signer_name()).unwrap(), 7);
}

#[test]
fn citizen_state_reports_everything() {
    let mut contract = Coconuts::default();
    contract.signer_create_citizen(&signer_name(), 0).unwrap();

    let state = contract.citizen_state(&signer_name(), 11).unwrap();
    assert_eq!(state.account_id, signer_name());
    assert_eq!(state.citizen_id, 0);
    assert_eq!(state.current_block_index, 11);
    assert_eq!(state.init_block_index, 0);
    assert_eq!(state.block_age, 11);
    assert_eq!(state.young_coconut_balance, 10);
    assert_eq!(state.brown_coconut_balance, 1);
}

#[test]
fn citizen_state_idempotent_at_same_clock() {
    let mut contract = Coconuts::default();
    contract.signer_create_citizen(&signer_name(), 0).unwrap();

    let first = contract.citizen_state(&signer_name(), 13).unwrap();
    let second = contract.citizen_state(&signer_name(), 13).unwrap();
    assert_eq!(first, second);
}

#[test]
fn transfer_updates_both_counters() {
    let mut contract = Coconuts::default();
    let a = "a_near".to_string();
    let b = "b_near".to_string();
    contract.signer_create_citizen(&a, 0).unwrap();
    contract.signer_create_citizen(&b, 0).unwrap();

    assert_eq!(contract.young_coconut_balance(&a, 5).unwrap(), 5);
    contract.signer_transfer_young_coconuts(&a, &b, 3, 5).unwrap();

    assert_eq!(contract.citizen(&a).unwrap().young_coconut_adjustments.sent, 3);
    assert_eq!(contract.citizen(&a).unwrap().young_coconut_adjustments.received, 0);
    assert_eq!(contract.citizen(&b).unwrap().young_coconut_adjustments.received, 3);
    assert_eq!(contract.citizen(&b).unwrap().young_coconut_adjustments.sent, 0);
}

#[test]
fn failed_transfer_leaves_counters_unchanged() {
    let mut contract = Coconuts::default();
    let a = "a_near".to_string();
    let b = "b_near".to_string();
    contract.signer_create_citizen(&a, 0).unwrap();
    contract.signer_create_citizen(&b, 0).unwrap();

    contract.signer_transfer_young_coconuts(&a, &b, 3, 5).unwrap();

    // More than the sender's current young balance.
    assert_eq!(
        contract.signer_transfer_young_coconuts(&a, &b, 6, 5),
        Err(CoconutError::InsufficientBalance)
    );

    assert_eq!(contract.citizen(&a).unwrap().young_coconut_adjustments.sent, 3);
    assert_eq!(contract.citizen(&a).unwrap().young_coconut_adjustments.received, 0);
    assert_eq!(contract.citizen(&b).unwrap().young_coconut_adjustments.received, 3);
    assert_eq!(contract.citizen(&b).unwrap().young_coconut_adjustments.sent, 0);
}

#[test]
fn transfer_does_not_change_displayed_balances() {
    // The adjustment counters are an audit trail: the balance queries
    // compute from accrual alone.
    let mut contract = Coconuts::default();
    let a = "a_near".to_string();
    let b = "b_near".to_string();
    contract.signer_create_citizen(&a, 0).unwrap();
    contract.signer_create_citizen(&b, 0).unwrap();

    contract.signer_transfer_young_coconuts(&a, &b, 3, 5).unwrap();

    assert_eq!(contract.young_coconut_balance(&a, 5).unwrap(), 5);
    assert_eq!(contract.young_coconut_balance(&b, 5).unwrap(), 5);
}

#[test]
fn transfer_to_unregistered_parties_fails() {
    let mut contract = Coconuts::default();
    let a = "a_near".to_string();
    let b = "b_near".to_string();
    contract.signer_create_citizen(&a, 0).unwrap();

    assert_eq!(
        contract.signer_transfer_young_coconuts(&b, &a, 1, 5),
        Err(CoconutError::SenderNotRegistered)
    );
    assert_eq!(
        contract.signer_transfer_young_coconuts(&a, &b, 1, 5),
        Err(CoconutError::RecipientNotRegistered)
    );
}

#[test]
fn self_transfer_updates_one_record_twice() {
    let mut contract = Coconuts::default();
    let a = "a_near".to_string();
    contract.signer_create_citizen(&a, 0).unwrap();

    contract.signer_transfer_young_coconuts(&a, &a, 2, 5).unwrap();

    let record = contract.citizen(&a).unwrap();
    assert_eq!(record.young_coconut_adjustments.sent, 2);
    assert_eq!(record.young_coconut_adjustments.received, 2);
}

#[test]
fn register_fails_when_id_space_exhausted() {
    let mut contract = Coconuts::restore(Vec::new(), Vec::new(), u64::MAX).unwrap();
    assert_eq!(
        contract.signer_create_citizen(&signer_name(), 0),
        Err(CoconutError::IdSpaceExhausted)
    );
    assert!(!contract.is_citizen(&signer_name()));
}

#[test]
fn transfer_overflowing_received_counter_fails() {
    let a = "a_near".to_string();
    let b = "b_near".to_string();
    let saturated = Citizen {
        young_coconut_adjustments: Adjustments { sent: 0, received: u128::MAX },
        ..fresh_citizen(0)
    };
    let mut contract = Coconuts::restore(
        vec![(a.clone(), 0), (b.clone(), 1)],
        vec![(0, fresh_citizen(0)), (1, saturated)],
        2,
    )
    .unwrap();

    assert_eq!(
        contract.signer_transfer_young_coconuts(&a, &b, 3, 5),
        Err(CoconutError::ArithmeticOverflow)
    );
    assert_eq!(contract.citizen(&a).unwrap().young_coconut_adjustments.sent, 0);
    assert_eq!(
        contract.citizen(&b).unwrap().young_coconut_adjustments.received,
        u128::MAX
    );
}

#[test]
fn transfer_overflowing_sent_counter_fails() {
    let a = "a_near".to_string();
    let b = "b_near".to_string();
    let saturated = Citizen {
        young_coconut_adjustments: Adjustments { sent: u128::MAX, received: 0 },
        ..fresh_citizen(0)
    };
    let mut contract = Coconuts::restore(
        vec![(a.clone(), 0), (b.clone(), 1)],
        vec![(0, saturated), (1, fresh_citizen(0))],
        2,
    )
    .unwrap();

    assert_eq!(
        contract.signer_transfer_young_coconuts(&a, &b, 3, 5),
        Err(CoconutError::ArithmeticOverflow)
    );
    assert_eq!(
        contract.citizen(&a).unwrap().young_coconut_adjustments.sent,
        u128::MAX
    );
    assert_eq!(contract.citizen(&b).unwrap().young_coconut_adjustments.received, 0);
}

#[test]
fn overflowing_baseline_fails_queries() {
    let a = "a_near".to_string();
    let many_trees = Citizen {
        coconut_tree_count: u128::MAX,
        ..fresh_citizen(0)
    };
    let contract = Coconuts::restore(vec![(a.clone(), 0)], vec![(0, many_trees)], 1).unwrap();

    assert_eq!(
        contract.young_coconut_balance(&a, 2),
        Err(CoconutError::ArithmeticOverflow)
    );
    assert_eq!(
        contract.brown_coconut_balance(&a, 2),
        Err(CoconutError::ArithmeticOverflow)
    );
    assert_eq!(contract.citizen_state(&a, 2), Err(CoconutError::ArithmeticOverflow));
}

#[test]
fn restore_accepts_a_consistent_state() {
    let a = "a_near".to_string();
    let contract =
        Coconuts::restore(vec![(a.clone(), 0)], vec![(0, fresh_citizen(4))], 1).unwrap();
    assert!(contract.is_citizen(&a));
    assert_eq!(contract.init_block_index(&a).unwrap(), 4);
}

#[test]
fn restore_rejects_corrupt_states() {
    let a = "a_near".to_string();
    let b = "b_near".to_string();

    // Duplicate key.
    assert!(matches!(
        Coconuts::restore(
            vec![(a.clone(), 0), (a.clone(), 1)],
            vec![(0, fresh_citizen(0)), (1, fresh_citizen(0))],
            2,
        ),
        Err(CoconutError::CorruptLedger)
    ));

    // Two keys pointing at one citizen.
    assert!(matches!(
        Coconuts::restore(
            vec![(a.clone(), 0), (b.clone(), 0)],
            vec![(0, fresh_citizen(0))],
            1,
        ),
        Err(CoconutError::CorruptLedger)
    ));

    // A key referencing an id with no record.
    assert!(matches!(
        Coconuts::restore(vec![(a.clone(), 0)], Vec::new(), 1),
        Err(CoconutError::CorruptLedger)
    ));

    // A stored id at or above the allocation counter.
    assert!(matches!(
        Coconuts::restore(vec![(a.clone(), 0)], vec![(0, fresh_citizen(0))], 0),
        Err(CoconutError::CorruptLedger)
    ));

    // A record no key refers to.
    assert!(matches!(
        Coconuts::restore(
            vec![(a.clone(), 0)],
            vec![(0, fresh_citizen(0)), (1, fresh_citizen(0))],
            2,
        ),
        Err(CoconutError::CorruptLedger)
    ));

    // A record with no trees.
    assert!(matches!(
        Coconuts::restore(
            vec![(a.clone(), 0)],
            vec![(0, Citizen { coconut_tree_count: 0, ..fresh_citizen(0) })],
            1,
        ),
        Err(CoconutError::CorruptLedger)
    ));
}

#[test]
fn error_taxonomy() {
    assert!(CoconutError::AlreadyRegistered.is_user_error());
    assert!(CoconutError::UnknownAccount.is_user_error());
    assert!(CoconutError::SenderNotRegistered.is_user_error());
    assert!(CoconutError::RecipientNotRegistered.is_user_error());
    assert!(CoconutError::InsufficientBalance.is_user_error());
    assert!(!CoconutError::ArithmeticOverflow.is_user_error());
    assert!(!CoconutError::IdSpaceExhausted.is_user_error());
    assert!(!CoconutError::CorruptLedger.is_user_error());
}
