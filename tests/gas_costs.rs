use indexmap::IndexMap;

use blockifier_costs::gas_costs::{
    allowed_gas_cost_name_list, get_gas_costs, OSConstants, OsConstantsSerdeError, RawFactor, RawGasValue,
    RawOsConstants, ValidateRoundingConsts,
};

fn literal(name: &str, v: u64) -> (String, RawGasValue) {
    (name.to_string(), RawGasValue::Unsigned(v))
}

fn formula(name: &str, terms: &[(&str, u64)]) -> (String, RawGasValue) {
    (
        name.to_string(),
        RawGasValue::Formula(terms.iter().map(|(k, f)| (k.to_string(), RawFactor::Unsigned(*f))).collect()),
    )
}

fn value_of(costs: &IndexMap<String, u64>, name: &str) -> Option<u64> {
    costs.get(name).copied()
}

fn entries(costs: &IndexMap<String, u64>) -> Vec<(String, u64)> {
    costs.iter().map(|(k, v)| (k.clone(), *v)).collect()
}

fn scenario_doc() -> Vec<(String, RawGasValue)> {
    vec![
        literal("step_gas_cost", 5),
        formula("range_check_gas_cost", &[("step_gas_cost", 2)]),
        formula("memory_hole_gas_cost", &[("range_check_gas_cost", 3), ("step_gas_cost", 1)]),
    ]
}

#[test]
fn resolves_linear_combinations() {
    let costs = get_gas_costs(&scenario_doc()).unwrap();
    assert_eq!(value_of(&costs, "step_gas_cost"), Some(5));
    assert_eq!(value_of(&costs, "range_check_gas_cost"), Some(10));
    assert_eq!(value_of(&costs, "memory_hole_gas_cost"), Some(35));
    assert_eq!(costs.len(), 3);
}

#[test]
fn ignores_names_outside_the_allow_list_but_resolves_through_them() {
    let doc = vec![literal("helper", 7), formula("deploy_gas_cost", &[("helper", 3)]), literal("unused", 1)];
    let costs = get_gas_costs(&doc).unwrap();
    assert_eq!(entries(&costs), vec![("deploy_gas_cost".to_string(), 21)]);
}

#[test]
fn resolution_does_not_depend_on_order() {
    let mut reversed = scenario_doc();
    reversed.reverse();
    let mut a = entries(&get_gas_costs(&scenario_doc()).unwrap());
    let mut b = entries(&get_gas_costs(&reversed).unwrap());
    a.sort();
    b.sort();
    assert_eq!(a, b);
}

#[test]
fn resolution_is_idempotent() {
    let first = entries(&get_gas_costs(&scenario_doc()).unwrap());
    let second = entries(&get_gas_costs(&scenario_doc()).unwrap());
    assert_eq!(first, second);
    let literals: Vec<(String, RawGasValue)> =
        first.iter().map(|(k, v)| (k.clone(), RawGasValue::Unsigned(*v))).collect();
    assert_eq!(entries(&get_gas_costs(&literals).unwrap()), first);
}

#[test]
fn unknown_dependency_is_reported() {
    let doc = vec![formula("deploy_gas_cost", &[("missing", 3)])];
    match get_gas_costs(&doc) {
        Err(OsConstantsSerdeError::KeyNotFound { key, inner_key }) => {
            assert_eq!(key, "deploy_gas_cost");
            assert_eq!(inner_key, "missing");
        }
        other => panic!("unexpected {:?}", other),
    }
}

#[test]
fn out_of_range_value_and_factor_are_reported() {
    let doc = vec![("deploy_gas_cost".to_string(), RawGasValue::OutOfRange("-1".to_string()))];
    match get_gas_costs(&doc) {
        Err(OsConstantsSerdeError::OutOfRange { key, value }) => {
            assert_eq!(key, "deploy_gas_cost");
            assert_eq!(value, "-1");
        }
        other => panic!("unexpected {:?}", other),
    }
    let doc = vec![
        literal("step_gas_cost", 1),
        (
            "deploy_gas_cost".to_string(),
            RawGasValue::Formula(vec![("step_gas_cost".to_string(), RawFactor::Invalid("1.5".to_string()))]),
        ),
    ];
    match get_gas_costs(&doc) {
        Err(OsConstantsSerdeError::OutOfRangeFactor { key, value }) => {
            assert_eq!(key, "deploy_gas_cost");
            assert_eq!(value, "1.5");
        }
        other => panic!("unexpected {:?}", other),
    }
}

#[test]
fn unhandled_value_is_reported() {
    let doc = vec![("deploy_gas_cost".to_string(), RawGasValue::Unhandled("[1]".to_string()))];
    match get_gas_costs(&doc) {
        Err(OsConstantsSerdeError::UnhandledValueType(text)) => assert_eq!(text, "[1]"),
        other => panic!("unexpected {:?}", other),
    }
}

#[test]
fn overflow_is_reported() {
    let doc = vec![literal("step_gas_cost", u64::MAX), formula("deploy_gas_cost", &[("step_gas_cost", 2)])];
    match get_gas_costs(&doc) {
        Err(OsConstantsSerdeError::Overflow { key }) => assert_eq!(key, "deploy_gas_cost"),
        other => panic!("unexpected {:?}", other),
    }
}

#[test]
fn cycle_is_reported_instead_of_looping() {
    let doc = vec![formula("deploy_gas_cost", &[("step_gas_cost", 1)]), formula("step_gas_cost", &[("deploy_gas_cost", 1)])];
    assert!(matches!(get_gas_costs(&doc), Err(OsConstantsSerdeError::CyclicDependency { .. })));
}

fn complete_doc() -> Vec<(String, RawGasValue)> {
    allowed_gas_cost_name_list().into_iter().enumerate().map(|(i, k)| (k, RawGasValue::Unsigned(100 + i as u64))).collect()
}

#[test]
fn complete_table_validates_and_answers_gas_costs() {
    let raw = RawOsConstants {
        entries: complete_doc(),
        validate_rounding_consts: ValidateRoundingConsts::default(),
    };
    let constants = OSConstants::try_from(raw).unwrap();
    assert_eq!(constants.gas_cost(&"step_gas_cost".to_string()), 100);
    assert_eq!(constants.gas_cost(&"keccak_round_cost_gas_cost".to_string()), 130);
    assert_eq!(constants.validate_block_number_rounding(), 1);
    assert_eq!(constants.validate_timestamp_rounding(), 1);
}

#[test]
fn missing_allowed_name_fails_validation() {
    let mut entries = complete_doc();
    entries.retain(|(k, _)| k != "deploy_gas_cost");
    let raw = RawOsConstants { entries, validate_rounding_consts: ValidateRoundingConsts::default() };
    match OSConstants::try_from(raw) {
        Err(OsConstantsSerdeError::MissingKey { key }) => assert_eq!(key, "deploy_gas_cost"),
        other => panic!("unexpected {:?}", other),
    }
}

#[test]
fn allow_list_has_every_gas_cost_name_once() {
    let names = allowed_gas_cost_name_list();
    assert_eq!(names.len(), 31);
    let mut sorted = names.clone();
    sorted.sort();
    sorted.dedup();
    assert_eq!(sorted.len(), 31);
}
