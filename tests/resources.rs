use blockifier_costs::kinds::{SyscallSelector, TransactionType, N_SYSCALLS, N_TX_TYPES};
use blockifier_costs::os_resources::{
    poseidon_hash_many_cost, OsResources, OsResourcesError, ResourceParamsRaw, ResourcesByVersion, ResourcesParams,
    ResourcesParamsError,
};
use blockifier_costs::resources::{Builtin, ResourceVector, N_BUILTINS};

fn vector(steps: u64, holes: u64, builtins: &[(Builtin, u64)]) -> ResourceVector {
    let mut v = ResourceVector::zero();
    v.n_steps = steps;
    v.n_memory_holes = holes;
    for (b, c) in builtins {
        v.set_builtin(*b, *c);
    }
    v
}

fn params(constant: ResourceVector, factor: ResourceVector) -> ResourcesByVersion {
    ResourcesByVersion {
        resources: ResourcesParams { constant: constant.clone(), calldata_factor: factor.clone() },
        deprecated_resources: ResourcesParams { constant, calldata_factor: factor },
    }
}

fn os_resources(invoke_constant: u64, invoke_factor: u64) -> OsResources {
    let syscalls = (0..N_SYSCALLS)
        .map(|i| (SyscallSelector::from_index(i), vector(10 + i as u64, 0, &[(Builtin::RangeCheck, 1)])))
        .collect();
    let txs = (0..N_TX_TYPES)
        .map(|i| {
            let t = TransactionType::from_index(i);
            if t == TransactionType::InvokeFunction {
                (t, params(vector(invoke_constant, 0, &[]), vector(invoke_factor, 0, &[])))
            } else {
                (t, params(vector(1000 + i as u64, 0, &[(Builtin::Pedersen, 3)]), vector(7, 0, &[(Builtin::Pedersen, 1)])))
            }
        })
        .collect();
    OsResources::new(syscalls, txs, vector(5, 0, &[(Builtin::Poseidon, 2)])).unwrap()
}

#[test]
fn addition_is_commutative_and_associative() {
    let a = vector(1, 2, &[(Builtin::Output, 3)]);
    let b = vector(10, 20, &[(Builtin::Keccak, 30)]);
    let c = vector(100, 0, &[(Builtin::Output, 7), (Builtin::Bitwise, 1)]);
    assert_eq!(a.checked_add(&b), b.checked_add(&a));
    let left = a.checked_add(&b).unwrap().checked_add(&c).unwrap();
    let right = a.checked_add(&b.checked_add(&c).unwrap()).unwrap();
    assert_eq!(left, right);
    assert_eq!(left.n_steps, 111);
    assert_eq!(left.builtin(Builtin::Output), 10);
}

#[test]
fn scaling_distributes_over_addition() {
    let a = vector(1, 2, &[(Builtin::Output, 3)]);
    let b = vector(10, 20, &[(Builtin::EcOp, 30)]);
    let n = 4;
    let left = a.checked_add(&b).unwrap().checked_scale(n).unwrap();
    let right = a.checked_scale(n).unwrap().checked_add(&b.checked_scale(n).unwrap()).unwrap();
    assert_eq!(left, right);
    assert_eq!(left.n_memory_holes, 88);
    assert_eq!(left.builtin(Builtin::EcOp), 120);
}

#[test]
fn overflowing_arithmetic_is_refused() {
    let a = vector(u64::MAX, 0, &[]);
    assert_eq!(a.checked_add(&vector(1, 0, &[])), None);
    assert_eq!(vector(0, 0, &[(Builtin::Ecdsa, u64::MAX)]).checked_scale(2), None);
}

#[test]
fn builtin_names_round_trip() {
    for i in 0..N_BUILTINS {
        let b = Builtin::from_index(i);
        assert_eq!(Builtin::from_name(&b.name()), Some(b));
    }
    assert_eq!(Builtin::from_name(&"range_check_builtin".to_string()), Some(Builtin::RangeCheck));
    assert_eq!(Builtin::from_name(&"no_such_builtin".to_string()), None);
}

#[test]
fn counter_with_unknown_builtin_is_refused() {
    let counter = vec![("pedersen_builtin".to_string(), 4), ("poseidon_builtin".to_string(), 2)];
    let v = ResourceVector::from_counter(9, 1, &counter).unwrap();
    assert_eq!(v.n_steps, 9);
    assert_eq!(v.builtin(Builtin::Pedersen), 4);
    assert_eq!(v.builtin(Builtin::Poseidon), 2);
    let bad = vec![("output_builtin".to_string(), 1), ("gpu_builtin".to_string(), 1)];
    assert_eq!(ResourceVector::from_counter(0, 0, &bad), Err("gpu_builtin".to_string()));
}

#[test]
fn tx_resources_without_calldata_are_the_constant() {
    let os = os_resources(100, 2);
    for i in 0..N_TX_TYPES {
        let t = TransactionType::from_index(i);
        let constant = &os.resources_params_for_tx_type(t).constant;
        assert_eq!(os.resources_for_tx_type(t, 0).as_ref(), Some(constant));
    }
}

#[test]
fn invoke_os_steps_follow_the_linear_formula() {
    let os = os_resources(100, 2);
    let r = os.resources_for_tx_type(TransactionType::InvokeFunction, 10).unwrap();
    assert_eq!(r.n_steps, 120);
    let declare = os.resources_for_tx_type(TransactionType::Declare, 3).unwrap();
    assert_eq!(declare.n_steps, 1000 + 21);
    assert_eq!(declare.builtin(Builtin::Pedersen), 6);
}

#[test]
fn poseidon_cost_values() {
    let zero = poseidon_hash_many_cost(0).unwrap();
    assert_eq!((zero.n_steps, zero.builtin(Builtin::Poseidon)), (21, 1));
    let three = poseidon_hash_many_cost(3).unwrap();
    assert_eq!((three.n_steps, three.builtin(Builtin::Poseidon)), (42, 2));
    let ten = poseidon_hash_many_cost(10).unwrap();
    assert_eq!((ten.n_steps, ten.builtin(Builtin::Poseidon)), (76, 6));
}

#[test]
fn kzg_resources_are_added_only_when_used() {
    let os = os_resources(100, 2);
    let da = os.os_kzg_da_resources(4).unwrap();
    assert_eq!(da.n_steps, 5 * 4 + 2 * 18 + 21);
    assert_eq!(da.builtin(Builtin::Poseidon), 2 * 4 + 3);
    let without = os.get_additional_os_tx_resources(TransactionType::InvokeFunction, 10, 4, false).unwrap();
    assert_eq!(without.n_steps, 120);
    let with = os.get_additional_os_tx_resources(TransactionType::InvokeFunction, 10, 4, true).unwrap();
    assert_eq!(with.n_steps, 120 + 77);
    assert_eq!(with.builtin(Builtin::Poseidon), 11);
}

#[test]
fn syscall_resources_accumulate_per_count() {
    let os = os_resources(100, 2);
    let counter = vec![(SyscallSelector::CallContract, 2), (SyscallSelector::StorageRead, 0), (SyscallSelector::Deploy, 1)];
    let r = os.get_additional_os_syscall_resources(&counter).unwrap();
    assert_eq!(r.n_steps, 2 * 10 + 13);
    assert_eq!(r.builtin(Builtin::RangeCheck), 3);
}

#[test]
fn incomplete_tables_are_refused() {
    let syscalls: Vec<_> = (0..N_SYSCALLS).map(|i| (SyscallSelector::from_index(i), ResourceVector::zero())).collect();
    let txs: Vec<_> = (1..N_TX_TYPES)
        .map(|i| (TransactionType::from_index(i), params(ResourceVector::zero(), ResourceVector::zero())))
        .collect();
    assert!(matches!(
        OsResources::new(syscalls, txs, ResourceVector::zero()),
        Err(OsResourcesError::MissingTransactionType(TransactionType::Declare))
    ));
    let syscalls: Vec<_> = (0..N_SYSCALLS - 1).map(|i| (SyscallSelector::from_index(i), ResourceVector::zero())).collect();
    let txs: Vec<_> = (0..N_TX_TYPES)
        .map(|i| (TransactionType::from_index(i), params(ResourceVector::zero(), ResourceVector::zero())))
        .collect();
    assert!(matches!(
        OsResources::new(syscalls, txs, ResourceVector::zero()),
        Err(OsResourcesError::MissingSyscall(SyscallSelector::StorageWrite))
    ));
}

#[test]
fn formula_fields_are_read() {
    let both = ResourcesParams::try_from(ResourceParamsRaw {
        constant: Some(vector(4, 0, &[])),
        calldata_factor: Some(vector(1, 0, &[])),
        whole: None,
    })
    .unwrap();
    assert_eq!((both.constant.n_steps, both.calldata_factor.n_steps), (4, 1));
    let bare = ResourcesParams::try_from(ResourceParamsRaw {
        constant: None,
        calldata_factor: None,
        whole: Some(vector(9, 0, &[(Builtin::Bitwise, 2)])),
    })
    .unwrap();
    assert_eq!(bare.constant.builtin(Builtin::Bitwise), 2);
    assert_eq!(bare.calldata_factor, ResourceVector::zero());
    let missing = ResourcesParams::try_from(ResourceParamsRaw {
        constant: Some(vector(4, 0, &[])),
        calldata_factor: None,
        whole: None,
    });
    assert!(matches!(missing, Err(ResourcesParamsError::MissingCalldataFactor)));
}
