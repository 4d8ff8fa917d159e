use blockifier_costs::actual_cost::{ActualCost, ActualCostBuilder, ClassInfo, TransactionContext, TransactionExecutionError};
use blockifier_costs::call_info::{check_event_limits, CallInfo, EmitEventError, EventSummary};
use blockifier_costs::gas_costs::{allowed_gas_cost_name_list, OSConstants, RawGasValue, RawOsConstants, ValidateRoundingConsts};
use blockifier_costs::kinds::{SyscallSelector, TransactionType, N_SYSCALLS, N_TX_TYPES};
use blockifier_costs::os_resources::{OsResources, ResourcesByVersion, ResourcesParams};
use blockifier_costs::resources::{Builtin, ResourceVector, N_BUILTINS};
use blockifier_costs::state_changes::{Felt, StateChanges, StorageEntry};
use blockifier_costs::tx_resources::{calculate_tx_fee, get_da_gas_cost, ResourcesError};
use blockifier_costs::versioned_constants::{EventLimits, L2ResourceGasCosts, ResourceCost, VersionedConstants};
use blockifier_costs::state_changes::StateChangesCount;

fn felt(n: u128) -> Felt {
    Felt { high: 0, low: n }
}

fn steps(n: u64) -> ResourceVector {
    ResourceVector::from_steps(n)
}

fn params(constant: ResourceVector, factor: ResourceVector) -> ResourcesByVersion {
    ResourcesByVersion {
        resources: ResourcesParams { constant: constant.clone(), calldata_factor: factor.clone() },
        deprecated_resources: ResourcesParams { constant, calldata_factor: factor },
    }
}

fn os_resources() -> OsResources {
    let syscalls = (0..N_SYSCALLS).map(|i| (SyscallSelector::from_index(i), steps(10))).collect();
    let txs = (0..N_TX_TYPES)
        .map(|i| {
            let t = TransactionType::from_index(i);
            if t == TransactionType::InvokeFunction {
                (t, params(steps(100), steps(2)))
            } else {
                let mut constant = steps(1000 + i as u64);
                constant.set_builtin(Builtin::Pedersen, 3);
                let mut factor = steps(7);
                factor.set_builtin(Builtin::Pedersen, 1);
                (t, params(constant, factor))
            }
        })
        .collect();
    OsResources::new(syscalls, txs, steps(5)).unwrap()
}

fn ratio(numer: u128, denom: u128) -> ResourceCost {
    ResourceCost { numer, denom }
}

fn fee_costs(with_pedersen: bool) -> Vec<(String, ResourceCost)> {
    let mut costs = vec![("n_steps".to_string(), ratio(1, 2))];
    for i in 0..N_BUILTINS {
        let b = Builtin::from_index(i);
        if b != Builtin::Pedersen || with_pedersen {
            costs.push((b.name(), ratio(1, 1)));
        }
    }
    costs
}

fn constants(limits: EventLimits, with_pedersen: bool) -> VersionedConstants {
    let entries = allowed_gas_cost_name_list()
        .into_iter()
        .map(|k| {
            let v = if k == "initial_gas_cost" { 1000 } else if k == "transaction_gas_cost" { 300 } else { 1 };
            (k, RawGasValue::Unsigned(v))
        })
        .collect();
    let os_constants = OSConstants::try_from(RawOsConstants {
        entries,
        validate_rounding_consts: ValidateRoundingConsts::default(),
    })
    .unwrap();
    VersionedConstants::new(
        limits,
        1_000_000,
        L2ResourceGasCosts { gas_per_data_felt: ratio(5, 10), event_key_factor: ratio(2, 1), gas_per_code_byte: ratio(3, 4) },
        50,
        100_000,
        os_constants,
        os_resources(),
        fee_costs(with_pedersen),
    )
}

fn context(vc: VersionedConstants, enforce_fee: bool) -> TransactionContext {
    TransactionContext {
        versioned_constants: vc,
        sender_address: felt(0x5e),
        sender_fee_balance_key: felt(0xba1),
        fee_token_address: felt(0xfee),
        enforce_fee,
        use_kzg_da: false,
        gas_price: 10,
    }
}

fn one_deployed_contract() -> StateChanges {
    StateChanges {
        storage_updates: vec![],
        nonce_updates: vec![],
        class_hash_updates: vec![felt(0xd1)],
        compiled_class_hash_updates: vec![],
    }
}

fn invoke_builder(ctx: &TransactionContext) -> ActualCostBuilder<'_> {
    ActualCostBuilder::new(ctx, TransactionType::InvokeFunction, 10, 2).try_add_state_changes(one_deployed_contract())
}

#[test]
fn invoke_scenario_os_steps_and_da_gas() {
    let ctx = context(constants(EventLimits::max(), true), true);
    let os_steps = ctx.versioned_constants.os_resources_for_tx_type(TransactionType::InvokeFunction, 10).unwrap();
    assert_eq!(os_steps.n_steps, 120);
    let (cost, bouncer) = invoke_builder(&ctx).build(&steps(500)).unwrap();
    assert_eq!(bouncer.n_steps, 620);
    // Words: one modified contract (2), one class update (1), the sender's balance cell (2).
    assert_eq!(cost.da_gas.l1_gas, 5 * 612);
    assert_eq!(cost.da_gas.l1_data_gas, 0);
    // Twelve felts of calldata and signature at half a gas each.
    assert_eq!(bouncer.l1_gas_usage, 3060 + 6);
    assert_eq!(cost.actual_resources.n_steps, 620);
    assert_eq!(cost.actual_fee.0, (3066 + 310) * 10);
}

#[test]
fn reverted_steps_are_billed_but_not_counted_by_the_bouncer() {
    let ctx = context(constants(EventLimits::max(), true), true);
    let (cost, bouncer) = invoke_builder(&ctx).with_reverted_steps(50).build(&steps(500)).unwrap();
    assert_eq!(bouncer.n_steps, 620);
    assert_eq!(cost.actual_resources.n_steps, bouncer.n_steps + 50);
    assert_eq!(cost.actual_fee.0, (3066 + 335) * 10);
}

#[test]
fn fee_is_zero_without_enforcement() {
    let ctx = context(constants(EventLimits::max(), true), false);
    let (cost, bouncer) = invoke_builder(&ctx).build(&steps(500)).unwrap();
    assert_eq!(cost.actual_fee.0, 0);
    assert_eq!(bouncer.n_steps, 620);
}

#[test]
fn l1_handler_is_priced_without_a_sender() {
    let ctx = context(constants(EventLimits::max(), true), false);
    let (cost, bouncer) = ActualCost::builder_for_l1_handler(&ctx, 4).build(&ResourceVector::zero()).unwrap();
    assert_eq!(bouncer.n_steps, 1003 + 4 * 7);
    assert_eq!(bouncer.builtin_counts[Builtin::Pedersen.index()], 7);
    assert_eq!(cost.da_gas.l1_gas, 0);
    // Calldata and payload: eight felts at half a gas; steps: ceil(1031 / 2).
    assert_eq!(bouncer.l1_gas_usage, 4);
    assert_eq!(cost.actual_fee.0, (4 + 516) * 10);
    assert!(cost.actual_fee.0 > 0);
}

#[test]
fn missing_fee_cost_is_reported() {
    let ctx = context(constants(EventLimits::max(), false), false);
    match ActualCost::builder_for_l1_handler(&ctx, 4).build(&ResourceVector::zero()) {
        Err(TransactionExecutionError::Resources(ResourcesError::MissingFeeCost { resource })) => {
            assert_eq!(resource, "pedersen_builtin")
        }
        other => panic!("unexpected {:?}", other),
    }
}

#[test]
fn class_size_is_billed() {
    let ctx = context(constants(EventLimits::max(), true), true);
    let class = ClassInfo { bytecode_length: 3, sierra_program_length: 1, abi_length: 4 };
    let (_, bouncer) = ActualCostBuilder::new(&ctx, TransactionType::Declare, 0, 0).with_class_info(class).build(&steps(0)).unwrap();
    // Code size 3 * 32 + 32 + 4 = 132 bytes at three quarters of a gas; the sender's balance cell
    // and the sender as a modified contract cost 2 * 612.
    assert_eq!(bouncer.l1_gas_usage, 99 + 2 * 612);
}

fn events(n: usize, keys: usize, data: usize) -> Vec<EventSummary> {
    (0..n).map(|_| EventSummary { n_keys: keys, n_data: data }).collect()
}

fn limits() -> EventLimits {
    EventLimits { max_data_length: 3, max_keys_length: 2, max_n_emitted_events: 2 }
}

#[test]
fn events_at_the_limits_pass() {
    assert_eq!(check_event_limits(&events(2, 2, 3), &limits()), Ok(()));
}

#[test]
fn events_over_a_limit_name_it() {
    assert_eq!(
        check_event_limits(&events(3, 2, 3), &limits()),
        Err(EmitEventError::ExceedsMaxNumberOfEmittedEvents { n_emitted_events: 3, max_n_emitted_events: 2 })
    );
    assert_eq!(
        check_event_limits(&events(1, 3, 3), &limits()),
        Err(EmitEventError::ExceedsMaxKeysLength { keys_length: 3, max_keys_length: 2 })
    );
    assert_eq!(
        check_event_limits(&events(1, 2, 4), &limits()),
        Err(EmitEventError::ExceedsMaxDataLength { data_length: 4, max_data_length: 3 })
    );
}

#[test]
fn pipeline_checks_validate_then_execute_events() {
    let ctx = context(constants(limits(), true), true);
    let validate = Some(CallInfo { events: events(1, 2, 3), message_payload_lengths: vec![] });
    let execute = Some(CallInfo { events: events(2, 1, 1), message_payload_lengths: vec![] });
    let result = invoke_builder(&ctx).with_validate_call_info(validate).with_execute_call_info(execute).build(&steps(1));
    assert!(matches!(
        result,
        Err(TransactionExecutionError::EmitEvent(EmitEventError::ExceedsMaxNumberOfEmittedEvents {
            n_emitted_events: 3,
            max_n_emitted_events: 2
        }))
    ));
}

#[test]
fn events_and_messages_are_billed() {
    let ctx = context(constants(limits(), true), true);
    let execute = Some(CallInfo { events: events(2, 2, 3), message_payload_lengths: vec![4] });
    let (_, bouncer) = invoke_builder(&ctx).with_execute_call_info(execute).build(&steps(0)).unwrap();
    // Keys: floor(2 * 4) = 8; felts: 12 + 6 + 4 = 22; half a gas each: 15.
    assert_eq!(bouncer.l1_gas_usage, 3060 + 15);
}

#[test]
fn merging_disjoint_records_adds_counts() {
    let a = StateChanges {
        storage_updates: vec![StorageEntry { address: felt(1), key: felt(1) }],
        nonce_updates: vec![felt(1)],
        class_hash_updates: vec![],
        compiled_class_hash_updates: vec![felt(9)],
    };
    let b = StateChanges {
        storage_updates: vec![StorageEntry { address: felt(1), key: felt(2) }, StorageEntry { address: felt(2), key: felt(1) }],
        nonce_updates: vec![felt(2)],
        class_hash_updates: vec![felt(3)],
        compiled_class_hash_updates: vec![],
    };
    let merged = StateChanges::merge(&a, &b);
    assert_eq!(merged.storage_updates.len(), 3);
    assert_eq!(merged.nonce_updates.len(), 2);
    assert_eq!(merged.class_hash_updates.len(), 1);
    assert_eq!(merged.compiled_class_hash_updates.len(), 1);
    let again = StateChanges::merge(&merged, &a);
    assert_eq!(again.storage_updates.len(), 3);
    assert_eq!(again.nonce_updates.len(), 2);
}

#[test]
fn fee_charge_counts_exclude_the_fee_token() {
    let changes = StateChanges {
        storage_updates: vec![StorageEntry { address: felt(0xfee), key: felt(0xba1) }, StorageEntry { address: felt(7), key: felt(1) }],
        nonce_updates: vec![felt(7)],
        class_hash_updates: vec![felt(8)],
        compiled_class_hash_updates: vec![],
    };
    let entry = StorageEntry { address: felt(0xfee), key: felt(0xba1) };
    let count = changes.count_for_fee_charge(Some(entry), felt(0xfee));
    assert_eq!(count.n_storage_updates, 2);
    assert_eq!(count.n_modified_contracts, 2);
    assert_eq!(count.n_class_hash_updates, 1);
    let other = StorageEntry { address: felt(0xfee), key: felt(0xba2) };
    assert_eq!(changes.count_for_fee_charge(Some(other), felt(0xfee)).n_storage_updates, 3);
}

#[test]
fn da_gas_on_both_paths() {
    let count = StateChangesCount { n_storage_updates: 2, n_class_hash_updates: 1, n_compiled_class_hash_updates: 1, n_modified_contracts: 3 };
    let words = 2 * 3 + 1 + 2 * 2 + 2;
    assert_eq!(get_da_gas_cost(&count, false).l1_gas, words * 612);
    assert_eq!(get_da_gas_cost(&count, true).l1_data_gas, words * 32);
    assert_eq!(get_da_gas_cost(&count, true).l1_gas, 0);
}

#[test]
fn fee_takes_the_most_expensive_resource() {
    let ctx = context(constants(EventLimits::max(), true), true);
    let (_, bouncer) = invoke_builder(&ctx).build(&steps(500)).unwrap();
    let fee = calculate_tx_fee(&bouncer, ctx.versioned_constants.vm_resource_fee_cost(), 3).unwrap();
    assert_eq!(fee, (3066 + 310) * 3);
}

#[test]
fn snapshot_accessors() {
    let vc = constants(EventLimits::max(), true);
    assert_eq!(vc.tx_initial_gas(), Some(700));
    assert_eq!(vc.gas_cost(&"deploy_gas_cost".to_string()), 1);
    assert_eq!(vc.get_validate_block_number_rounding(), 1);
    assert_eq!(vc.get_validate_timestamp_rounding(), 1);
    let max = EventLimits::max();
    assert_eq!(max.max_data_length, usize::MAX);
    assert_eq!(max.max_keys_length, usize::MAX);
    assert_eq!(max.max_n_emitted_events, usize::MAX);
}

#[test]
fn account_testing_prices_each_resource_at_one() {
    let vc = VersionedConstants::create_for_account_testing(constants(EventLimits::max(), false));
    let costs = vc.vm_resource_fee_cost();
    assert_eq!(costs.len(), 8);
    assert!(costs.iter().all(|(_, c)| c.numer == 1 && c.denom == 1));
    assert!(costs.iter().any(|(name, _)| name == "pedersen_builtin"));
    assert!(!costs.iter().any(|(name, _)| name == "keccak_builtin"));
    assert_eq!(vc.tx_initial_gas(), Some(700));
}
