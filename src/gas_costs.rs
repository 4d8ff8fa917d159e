//! Protocol gas-cost constants: resolution of a declarative source whose entries are
//! literals or linear combinations of other entries.

use vstd::prelude::*;

use indexmap::IndexMap;

use crate::gas_table::{gas_table_entries, gas_table_get, gas_table_insert, new_gas_table, value_named};

verus! {

/// A factor in a formula entry: an unsigned 64-bit integer, or anything else (kept as text).
#[derive(Debug)]
pub enum RawFactor {
    Unsigned(u64),
    Invalid(String),
}

/// One value of the declarative source.
#[derive(Debug)]
pub enum RawGasValue {
    /// A number that fits an unsigned 64-bit integer.
    Unsigned(u64),
    /// A number outside the unsigned 64-bit range (negative, fractional or too large), as text.
    OutOfRange(String),
    /// `{dependency: factor, ...}`: the sum of `factor * value(dependency)`, in this order.
    Formula(Vec<(String, RawFactor)>),
    /// Any other kind of value (a string, a list, ...), as text.
    Unhandled(String),
}

#[derive(Debug)]
pub enum OsConstantsSerdeError {
    /// A dependency named in a formula of `key` is not in the source.
    KeyNotFound { key: String, inner_key: String },
    /// The literal value of `key` is not an unsigned 64-bit integer.
    OutOfRange { key: String, value: String },
    /// A factor in the formula of `key` is not an unsigned 64-bit integer.
    OutOfRangeFactor { key: String, value: String },
    /// A value that is neither a number nor a formula.
    UnhandledValueType(String),
    /// The value of the formula of `key` exceeds `u64::MAX`.
    Overflow { key: String },
    /// The dependencies of `key` run in a cycle.
    CyclicDependency { key: String },
    /// A gas-cost name that must be present was not resolved.
    MissingKey { key: String },
}

/// Rounding factors used in validate mode.
#[derive(Clone, Copy, Debug, PartialEq, Eq, Structural)]
pub struct ValidateRoundingConsts {
    /// Flooring factor for the block number in validate mode.
    pub validate_block_number_rounding: u64,
    /// Flooring factor for the timestamp in validate mode.
    pub validate_timestamp_rounding: u64,
}

impl Default for ValidateRoundingConsts {
    /// Both factors default to 1.
    fn default() -> (r: ValidateRoundingConsts)
        ensures
            r.validate_block_number_rounding == 1,
            r.validate_timestamp_rounding == 1,
    {
        ValidateRoundingConsts { validate_block_number_rounding: 1, validate_timestamp_rounding: 1 }
    }
}

/// The declarative source of the protocol constants, in document order.
#[derive(Debug)]
pub struct RawOsConstants {
    pub entries: Vec<(String, RawGasValue)>,
    pub validate_rounding_consts: ValidateRoundingConsts,
}

/// `j` is the first position of `key` in `doc`.
pub open spec fn is_first_position(doc: Seq<(String, RawGasValue)>, key: Seq<char>, j: int) -> bool {
    &&& 0 <= j < doc.len()
    &&& doc[j].0@ == key
    &&& forall|i: int| 0 <= i < j ==> (#[trigger] doc[i]).0@ != key
}

/// Position of the first entry named `key`.
pub open spec fn lookup(doc: Seq<(String, RawGasValue)>, key: Seq<char>) -> Option<int> {
    if exists|j: int| is_first_position(doc, key, j) {
        Some(choose|j: int| is_first_position(doc, key, j))
    } else {
        None
    }
}

/// The first entry named `key`.
pub open spec fn lookup_entry(doc: Seq<(String, RawGasValue)>, key: Seq<char>) -> Option<
    (String, RawGasValue),
> {
    match lookup(doc, key) {
        Some(j) => Some(doc[j]),
        None => None,
    }
}

/// Value of the entry `key: value`, resolving dependencies at most `fuel` formulas deep.
pub open spec fn resolve_value(
    doc: Seq<(String, RawGasValue)>,
    key: String,
    value: RawGasValue,
    fuel: nat,
) -> Result<u64, OsConstantsSerdeError>
    decreases fuel, 0nat,
{
    match value {
        RawGasValue::Unsigned(n) => Ok(n),
        RawGasValue::OutOfRange(text) => Err(OsConstantsSerdeError::OutOfRange { key, value: text }),
        RawGasValue::Formula(terms) => if fuel == 0 {
            Err(OsConstantsSerdeError::CyclicDependency { key })
        } else {
            resolve_terms(doc, key, terms@, (fuel - 1) as nat)
        },
        RawGasValue::Unhandled(text) => Err(OsConstantsSerdeError::UnhandledValueType(text)),
    }
}

/// Sum of `factor * value(dependency)` over `terms`, taken from first to last.
pub open spec fn resolve_terms(
    doc: Seq<(String, RawGasValue)>,
    key: String,
    terms: Seq<(String, RawFactor)>,
    fuel: nat,
) -> Result<u64, OsConstantsSerdeError>
    decreases fuel, terms.len() + 1,
{
    if terms.len() == 0 {
        Ok(0)
    } else {
        match resolve_terms(doc, key, terms.drop_last(), fuel) {
            Err(e) => Err(e),
            Ok(acc) => {
                let (inner_key, factor) = terms.last();
                match lookup_entry(doc, inner_key@) {
                    None => Err(OsConstantsSerdeError::KeyNotFound { key, inner_key }),
                    Some(entry) => match resolve_value(doc, inner_key, entry.1, fuel) {
                        Err(e) => Err(e),
                        Ok(v) => match factor {
                            RawFactor::Unsigned(f) => if acc + v * f <= u64::MAX {
                                Ok((acc + v * f) as u64)
                            } else {
                                Err(OsConstantsSerdeError::Overflow { key })
                            },
                            RawFactor::Invalid(text) => Err(
                                OsConstantsSerdeError::OutOfRangeFactor { key, value: text },
                            ),
                        },
                    },
                }
            },
        }
    }
}

/// Resolved value of an entry of `doc`. A chain of formulas longer than the document
/// must repeat a name, so `doc.len()` formulas deep is enough for any acyclic source.
pub open spec fn resolve_entry(doc: Seq<(String, RawGasValue)>, entry: (String, RawGasValue)) -> Result<u64, OsConstantsSerdeError> {
    resolve_value(doc, entry.0, entry.1, doc.len())
}

pub open spec fn allowed_gas_cost_names() -> Seq<Seq<char>> {
    seq![
        "step_gas_cost"@,
        "range_check_gas_cost"@,
        "memory_hole_gas_cost"@,
        "initial_gas_cost"@,
        "entry_point_initial_budget"@,
        "syscall_base_gas_cost"@,
        "entry_point_gas_cost"@,
        "fee_transfer_gas_cost"@,
        "transaction_gas_cost"@,
        "call_contract_gas_cost"@,
        "deploy_gas_cost"@,
        "get_block_hash_gas_cost"@,
        "get_execution_info_gas_cost"@,
        "library_call_gas_cost"@,
        "replace_class_gas_cost"@,
        "storage_read_gas_cost"@,
        "storage_write_gas_cost"@,
        "emit_event_gas_cost"@,
        "send_message_to_l1_gas_cost"@,
        "secp256k1_add_gas_cost"@,
        "secp256k1_get_point_from_x_gas_cost"@,
        "secp256k1_get_xy_gas_cost"@,
        "secp256k1_mul_gas_cost"@,
        "secp256k1_new_gas_cost"@,
        "secp256r1_add_gas_cost"@,
        "secp256r1_get_point_from_x_gas_cost"@,
        "secp256r1_get_xy_gas_cost"@,
        "secp256r1_mul_gas_cost"@,
        "secp256r1_new_gas_cost"@,
        "keccak_gas_cost"@,
        "keccak_round_cost_gas_cost"@,
    ]
}

pub open spec fn is_allowed_gas_cost_name(name: Seq<char>) -> bool {
    allowed_gas_cost_names().contains(name)
}

/// The gas-cost names that a resolved table must hold; all other names are ignored.
pub fn allowed_gas_cost_name_list() -> (r: Vec<String>)
    ensures
        r@.map_values(|s: String| s@) == allowed_gas_cost_names(),
{
    let mut r: Vec<String> = Vec::new();
    r.push("step_gas_cost".to_owned());
    r.push("range_check_gas_cost".to_owned());
    r.push("memory_hole_gas_cost".to_owned());
    r.push("initial_gas_cost".to_owned());
    r.push("entry_point_initial_budget".to_owned());
    r.push("syscall_base_gas_cost".to_owned());
    r.push("entry_point_gas_cost".to_owned());
    r.push("fee_transfer_gas_cost".to_owned());
    r.push("transaction_gas_cost".to_owned());
    r.push("call_contract_gas_cost".to_owned());
    r.push("deploy_gas_cost".to_owned());
    r.push("get_block_hash_gas_cost".to_owned());
    r.push("get_execution_info_gas_cost".to_owned());
    r.push("library_call_gas_cost".to_owned());
    r.push("replace_class_gas_cost".to_owned());
    r.push("storage_read_gas_cost".to_owned());
    r.push("storage_write_gas_cost".to_owned());
    r.push("emit_event_gas_cost".to_owned());
    r.push("send_message_to_l1_gas_cost".to_owned());
    r.push("secp256k1_add_gas_cost".to_owned());
    r.push("secp256k1_get_point_from_x_gas_cost".to_owned());
    r.push("secp256k1_get_xy_gas_cost".to_owned());
    r.push("secp256k1_mul_gas_cost".to_owned());
    r.push("secp256k1_new_gas_cost".to_owned());
    r.push("secp256r1_add_gas_cost".to_owned());
    r.push("secp256r1_get_point_from_x_gas_cost".to_owned());
    r.push("secp256r1_get_xy_gas_cost".to_owned());
    r.push("secp256r1_mul_gas_cost".to_owned());
    r.push("secp256r1_new_gas_cost".to_owned());
    r.push("keccak_gas_cost".to_owned());
    r.push("keccak_round_cost_gas_cost".to_owned());
    assert(r@.map_values(|s: String| s@) =~= allowed_gas_cost_names());
    r
}

/// Whether `name` is one of `names`.
fn contains_name(names: &Vec<String>, name: &String) -> (r: bool)
    ensures
        r == names@.map_values(|s: String| s@).contains(name@),
{
    let ghost views = names@.map_values(|s: String| s@);
    let mut i: usize = 0;
    while i < names.len()
        invariant
            i <= names.len(),
            views == names@.map_values(|s: String| s@),
            forall|j: int| 0 <= j < i ==> views[j] != name@,
        decreases names.len() - i,
    {
        if names[i] == *name {
            assert(views[i as int] == name@);
            return true;
        }
        i = i + 1;
    }
    false
}

/// Position of the first entry named `key`.
fn find_entry(doc: &Vec<(String, RawGasValue)>, key: &String) -> (r: Option<usize>)
    ensures
        r matches Some(j) ==> lookup(doc@, key@) == Some(j as int),
        r is None ==> lookup(doc@, key@) is None,
{
    let mut i: usize = 0;
    while i < doc.len()
        invariant
            i <= doc.len(),
            forall|j: int| 0 <= j < i ==> (#[trigger] doc@[j]).0@ != key@,
        decreases doc.len() - i,
    {
        if doc[i].0 == *key {
            proof {
                assert(is_first_position(doc@, key@, i as int));
                lemma_first_position_unique(doc@, key@, i as int);
            }
            return Some(i);
        }
        i = i + 1;
    }
    assert(!exists|j: int| is_first_position(doc@, key@, j));
    None
}

pub proof fn lemma_first_position_unique(doc: Seq<(String, RawGasValue)>, key: Seq<char>, j: int)
    requires
        is_first_position(doc, key, j),
    ensures
        lookup(doc, key) == Some(j),
{
    let k = choose|k: int| is_first_position(doc, key, k);
    assert(is_first_position(doc, key, k));
    if k < j {
        assert(doc[k].0@ != key);
    } else if j < k {
        assert(doc[j].0@ != key);
    }
}

fn resolve_value_exec(
    doc: &Vec<(String, RawGasValue)>,
    key: &String,
    value: &RawGasValue,
    fuel: usize,
) -> (r: Result<u64, OsConstantsSerdeError>)
    ensures
        r == resolve_value(doc@, *key, *value, fuel as nat),
    decreases fuel, 0nat,
{
    match value {
        RawGasValue::Unsigned(n) => Ok(*n),
        RawGasValue::OutOfRange(text) => Err(
            OsConstantsSerdeError::OutOfRange { key: key.clone(), value: text.clone() },
        ),
        RawGasValue::Formula(terms) => {
            if fuel == 0 {
                Err(OsConstantsSerdeError::CyclicDependency { key: key.clone() })
            } else {
                resolve_terms_exec(doc, key, terms, fuel - 1)
            }
        },
        RawGasValue::Unhandled(text) => Err(OsConstantsSerdeError::UnhandledValueType(text.clone())),
    }
}

fn resolve_terms_exec(
    doc: &Vec<(String, RawGasValue)>,
    key: &String,
    terms: &Vec<(String, RawFactor)>,
    fuel: usize,
) -> (r: Result<u64, OsConstantsSerdeError>)
    ensures
        r == resolve_terms(doc@, *key, terms@, fuel as nat),
    decreases fuel, terms.len() + 1,
{
    let mut acc: u64 = 0;
    let mut i: usize = 0;
    assert(terms@.take(0) =~= Seq::<(String, RawFactor)>::empty());
    while i < terms.len()
        invariant
            i <= terms.len(),
            resolve_terms(doc@, *key, terms@.take(i as int), fuel as nat) == Ok::<
                u64,
                OsConstantsSerdeError,
            >(acc),
        decreases terms.len() - i,
    {
        let ghost prefix = terms@.take(i + 1);
        assert(prefix.drop_last() =~= terms@.take(i as int));
        assert(prefix.last() == terms@[i as int]);
        let inner_key = &terms[i].0;
        let j = match find_entry(doc, inner_key) {
            Some(j) => j,
            None => {
                proof {
                    lemma_terms_error_persists(doc@, *key, terms@, fuel as nat, i + 1);
                }
                return Err(
                    OsConstantsSerdeError::KeyNotFound { key: key.clone(), inner_key: inner_key.clone() },
                );
            },
        };
        let inner_value = match resolve_value_exec(doc, inner_key, &doc[j].1, fuel) {
            Ok(v) => v,
            Err(e) => {
                proof {
                    lemma_terms_error_persists(doc@, *key, terms@, fuel as nat, i + 1);
                }
                return Err(e);
            },
        };
        match &terms[i].1 {
            RawFactor::Unsigned(f) => {
                let term = match inner_value.checked_mul(*f) {
                    Some(t) => t,
                    None => {
                        proof {
                            assert(inner_value * *f >= 0) by (nonlinear_arith);
                            lemma_terms_error_persists(doc@, *key, terms@, fuel as nat, i + 1);
                        }
                        return Err(OsConstantsSerdeError::Overflow { key: key.clone() });
                    },
                };
                acc = match acc.checked_add(term) {
                    Some(a) => a,
                    None => {
                        proof {
                            lemma_terms_error_persists(doc@, *key, terms@, fuel as nat, i + 1);
                        }
                        return Err(OsConstantsSerdeError::Overflow { key: key.clone() });
                    },
                };
            },
            RawFactor::Invalid(text) => {
                proof {
                    lemma_terms_error_persists(doc@, *key, terms@, fuel as nat, i + 1);
                }
                return Err(
                    OsConstantsSerdeError::OutOfRangeFactor { key: key.clone(), value: text.clone() },
                );
            },
        }
        i = i + 1;
    }
    assert(terms@.take(terms.len() as int) =~= terms@);
    Ok(acc)
}

/// Once a prefix of the terms fails, the whole formula fails with the same error.
pub proof fn lemma_terms_error_persists(
    doc: Seq<(String, RawGasValue)>,
    key: String,
    terms: Seq<(String, RawFactor)>,
    fuel: nat,
    n: int,
)
    requires
        0 <= n <= terms.len(),
        resolve_terms(doc, key, terms.take(n), fuel) is Err,
    ensures
        resolve_terms(doc, key, terms, fuel) == resolve_terms(doc, key, terms.take(n), fuel),
    decreases terms.len() - n,
{
    if n == terms.len() {
        assert(terms.take(n) =~= terms);
    } else {
        let shorter = terms.drop_last();
        assert(shorter.take(n) =~= terms.take(n));
        lemma_terms_error_persists(doc, key, shorter, fuel, n);
    }
}

/// Resolution of the first `n` entries of `doc`: each allow-listed name, at its first
/// position, paired with its resolved value, in document order; or the first error.
pub open spec fn resolved_prefix(doc: Seq<(String, RawGasValue)>, n: int) -> Result<
    Seq<(Seq<char>, u64)>,
    OsConstantsSerdeError,
>
    decreases n,
{
    if n <= 0 {
        Ok(Seq::empty())
    } else {
        match resolved_prefix(doc, n - 1) {
            Err(e) => Err(e),
            Ok(acc) => {
                let entry = doc[n - 1];
                if is_allowed_gas_cost_name(entry.0@) && lookup(doc, entry.0@) == Some(n - 1) {
                    match resolve_entry(doc, entry) {
                        Ok(x) => Ok(acc.push((entry.0@, x))),
                        Err(e) => Err(e),
                    }
                } else {
                    Ok(acc)
                }
            },
        }
    }
}

/// Resolution of the whole source.
pub open spec fn resolved_gas_costs(doc: Seq<(String, RawGasValue)>) -> Result<
    Seq<(Seq<char>, u64)>,
    OsConstantsSerdeError,
> {
    resolved_prefix(doc, doc.len() as int)
}

/// Once a prefix fails, the resolution of every longer prefix fails with the same error.
pub proof fn lemma_prefix_error_persists(doc: Seq<(String, RawGasValue)>, n: int, m: int)
    requires
        0 <= n <= m,
        resolved_prefix(doc, n) is Err,
    ensures
        resolved_prefix(doc, m) == resolved_prefix(doc, n),
    decreases m - n,
{
    if n < m {
        lemma_prefix_error_persists(doc, n, m - 1);
    }
}

/// Resolves every allow-listed entry of the source; names that are not allow-listed are
/// ignored unless a formula depends on them.
pub fn get_gas_costs(doc: &Vec<(String, RawGasValue)>) -> (r: Result<IndexMap<String, u64>, OsConstantsSerdeError>)
    ensures
        r matches Ok(m) ==> resolved_gas_costs(doc@) == Ok::<Seq<(Seq<char>, u64)>, OsConstantsSerdeError>(gas_table_entries(m)),
        r matches Err(e) ==> resolved_gas_costs(doc@) == Err::<Seq<(Seq<char>, u64)>, OsConstantsSerdeError>(e),
{
    let allowed = allowed_gas_cost_name_list();
    let mut gas_costs = new_gas_table();
    let mut i: usize = 0;
    while i < doc.len()
        invariant
            i <= doc.len(),
            allowed@.map_values(|s: String| s@) == allowed_gas_cost_names(),
            resolved_prefix(doc@, i as int) == Ok::<Seq<(Seq<char>, u64)>, OsConstantsSerdeError>(gas_table_entries(gas_costs)),
        decreases doc.len() - i,
    {
        let key = &doc[i].0;
        if contains_name(&allowed, key) {
            let first = find_entry(doc, key);
            if first == Some(i) {
                match resolve_value_exec(doc, key, &doc[i].1, doc.len()) {
                    Ok(x) => {
                        proof {
                            let acc = gas_table_entries(gas_costs);
                            lemma_prefix_values(doc@, i as int);
                            assert(value_named(acc, key@) == expected_value(doc@, i as int, key@));
                            lemma_value_named_none(acc, key@);
                        }
                        gas_table_insert(&mut gas_costs, key.clone(), x);
                    },
                    Err(e) => {
                        proof {
                            lemma_prefix_error_persists(doc@, i + 1, doc.len() as int);
                        }
                        return Err(e);
                    },
                }
            }
        }
        i = i + 1;
    }
    Ok(gas_costs)
}

/// A resolved table as a map from name to value.
pub open spec fn gas_map(s: Seq<(Seq<char>, u64)>) -> Map<Seq<char>, u64> {
    Map::new(|k: Seq<char>| value_named(s, k) is Some, |k: Seq<char>| value_named(s, k).unwrap())
}

/// `key` is the first allow-listed name, in list order, that `s` gives no value.
pub open spec fn is_first_missing(s: Seq<(Seq<char>, u64)>, key: Seq<char>) -> bool {
    exists|j: int|
        0 <= j < allowed_gas_cost_names().len() && allowed_gas_cost_names()[j] == key && value_named(s, key) is None
            && forall|i: int| 0 <= i < j ==> value_named(s, #[trigger] allowed_gas_cost_names()[i]) is Some
}

/// Resolved protocol gas costs, with every allow-listed name present.
#[derive(Debug)]
pub struct OSConstants {
    validate_rounding_consts: ValidateRoundingConsts,
    gas_costs: IndexMap<String, u64>,
}

impl OSConstants {
    pub closed spec fn spec_gas_costs(&self) -> Seq<(Seq<char>, u64)> {
        gas_table_entries(self.gas_costs)
    }

    pub closed spec fn spec_rounding(&self) -> ValidateRoundingConsts {
        self.validate_rounding_consts
    }

    /// Every allow-listed name has a value.
    pub open spec fn is_complete(&self) -> bool {
        forall|k: Seq<char>| is_allowed_gas_cost_name(k) ==> #[trigger] value_named(self.spec_gas_costs(), k) is Some
    }

    /// Checks that every allow-listed name has a value; fails naming the first missing one.
    pub fn validate(&self) -> (r: Result<(), OsConstantsSerdeError>)
        ensures
            r is Ok <==> self.is_complete(),
            r matches Err(OsConstantsSerdeError::MissingKey { key }) ==> is_first_missing(self.spec_gas_costs(), key@),
            r matches Err(e) ==> e is MissingKey,
    {
        let allowed = allowed_gas_cost_name_list();
        let ghost names = allowed@.map_values(|s: String| s@);
        let mut i: usize = 0;
        while i < allowed.len()
            invariant
                i <= allowed.len(),
                names == allowed@.map_values(|s: String| s@),
                names == allowed_gas_cost_names(),
                forall|j: int| 0 <= j < i ==> value_named(self.spec_gas_costs(), #[trigger] names[j]) is Some,
            decreases allowed.len() - i,
        {
            if gas_table_get(&self.gas_costs, &allowed[i]).is_none() {
                assert(names[i as int] == allowed@[i as int]@);
                let key = allowed[i].clone();
                assert(is_first_missing(self.spec_gas_costs(), key@)) by {
                    assert(names[i as int] == key@);
                }
                return Err(OsConstantsSerdeError::MissingKey { key });
            }
            i = i + 1;
        }
        proof {
            assert forall|k: Seq<char>| is_allowed_gas_cost_name(k) implies #[trigger] value_named(self.spec_gas_costs(), k) is Some by {
                let j = choose|j: int| 0 <= j < names.len() && names[j] == k;
            }
        }
        Ok(())
    }

    /// Resolves the source and checks that the table is complete.
    pub fn try_from(raw: RawOsConstants) -> (r: Result<OSConstants, OsConstantsSerdeError>)
        ensures
            r matches Ok(c) ==> c.is_complete() && c.spec_rounding() == raw.validate_rounding_consts
                && resolved_gas_costs(raw.entries@) == Ok::<Seq<(Seq<char>, u64)>, OsConstantsSerdeError>(c.spec_gas_costs()),
            r is Ok <==> (resolved_gas_costs(raw.entries@) matches Ok(s) && forall|k: Seq<char>|
                is_allowed_gas_cost_name(k) ==> #[trigger] value_named(s, k) is Some),
            r matches Err(e) ==> (resolved_gas_costs(raw.entries@) matches Err(e2) && e == e2) || (resolved_gas_costs(
                raw.entries@,
            ) matches Ok(s) && e matches OsConstantsSerdeError::MissingKey { key } && is_first_missing(s, key@)),
    {
        let gas_costs = match get_gas_costs(&raw.entries) {
            Ok(g) => g,
            Err(e) => return Err(e),
        };
        let os_constants = OSConstants { validate_rounding_consts: raw.validate_rounding_consts, gas_costs };
        match os_constants.validate() {
            Ok(()) => Ok(os_constants),
            Err(e) => Err(e),
        }
    }

    /// Value of an allow-listed gas cost.
    pub fn gas_cost(&self, name: &String) -> (r: u64)
        requires
            self.is_complete(),
            is_allowed_gas_cost_name(name@),
        ensures
            value_named(self.spec_gas_costs(), name@) == Some(r),
    {
        match gas_table_get(&self.gas_costs, name) {
            Some(v) => v,
            None => {
                assert(false);
                0
            },
        }
    }

    pub fn validate_block_number_rounding(&self) -> (r: u64)
        ensures
            r == self.spec_rounding().validate_block_number_rounding,
    {
        self.validate_rounding_consts.validate_block_number_rounding
    }

    pub fn validate_timestamp_rounding(&self) -> (r: u64)
        ensures
            r == self.spec_rounding().validate_timestamp_rounding,
    {
        self.validate_rounding_consts.validate_timestamp_rounding
    }
}


/// Two sources that give every name the same first entry.
pub open spec fn same_entries(d1: Seq<(String, RawGasValue)>, d2: Seq<(String, RawGasValue)>) -> bool {
    forall|k: Seq<char>| #[trigger] lookup_entry(d1, k) == lookup_entry(d2, k)
}

/// Resolution of a value reads the source only through its entries by name.
pub proof fn lemma_value_same_entries(
    d1: Seq<(String, RawGasValue)>,
    d2: Seq<(String, RawGasValue)>,
    key: String,
    value: RawGasValue,
    fuel: nat,
)
    requires
        same_entries(d1, d2),
    ensures
        resolve_value(d1, key, value, fuel) == resolve_value(d2, key, value, fuel),
    decreases fuel, 0nat,
{
    if let RawGasValue::Formula(terms) = value {
        if fuel > 0 {
            lemma_terms_same_entries(d1, d2, key, terms@, (fuel - 1) as nat);
        }
    }
}

pub proof fn lemma_terms_same_entries(
    d1: Seq<(String, RawGasValue)>,
    d2: Seq<(String, RawGasValue)>,
    key: String,
    terms: Seq<(String, RawFactor)>,
    fuel: nat,
)
    requires
        same_entries(d1, d2),
    ensures
        resolve_terms(d1, key, terms, fuel) == resolve_terms(d2, key, terms, fuel),
    decreases fuel, terms.len() + 1,
{
    if terms.len() > 0 {
        lemma_terms_same_entries(d1, d2, key, terms.drop_last(), fuel);
        let inner_key = terms.last().0;
        assert(lookup_entry(d1, inner_key@) == lookup_entry(d2, inner_key@));
        if let Some(entry) = lookup_entry(d1, inner_key@) {
            lemma_value_same_entries(d1, d2, inner_key, entry.1, fuel);
        }
    }
}

/// The value that resolution of the first `n` entries gives to `k`, if any.
pub open spec fn expected_value(doc: Seq<(String, RawGasValue)>, n: int, k: Seq<char>) -> Option<u64> {
    match lookup(doc, k) {
        Some(j) => if j < n && is_allowed_gas_cost_name(k) {
            match resolve_entry(doc, doc[j]) {
                Ok(x) => Some(x),
                Err(_) => None,
            }
        } else {
            None
        },
        None => None,
    }
}

/// `j` holds an allow-listed name at its first position.
pub open spec fn is_resolved_position(doc: Seq<(String, RawGasValue)>, j: int) -> bool {
    is_allowed_gas_cost_name(doc[j].0@) && lookup(doc, doc[j].0@) == Some(j)
}

pub proof fn lemma_value_named_push(s: Seq<(Seq<char>, u64)>, e: (Seq<char>, u64), k: Seq<char>)
    ensures
        value_named(s.push(e), k) == (if value_named(s, k) is Some {
            value_named(s, k)
        } else if e.0 == k {
            Some(e.1)
        } else {
            None
        }),
    decreases s.len(),
{
    let t = s.push(e);
    if s.len() > 0 {
        assert(t.subrange(1, t.len() as int) =~= s.subrange(1, s.len() as int).push(e));
        assert(t[0] == s[0]);
        lemma_value_named_push(s.subrange(1, s.len() as int), e, k);
    } else {
        assert(t.subrange(1, t.len() as int) =~= Seq::<(Seq<char>, u64)>::empty());
        assert(t[0] == e);
        assert(value_named(Seq::<(Seq<char>, u64)>::empty(), k) is None);
    }
}

pub proof fn lemma_lookup_is_position(doc: Seq<(String, RawGasValue)>, k: Seq<char>)
    ensures
        lookup(doc, k) matches Some(j) ==> is_first_position(doc, k, j),
{
    if exists|j: int| is_first_position(doc, k, j) {
        let j = choose|j: int| is_first_position(doc, k, j);
    }
}

/// What a successful resolution of a prefix holds, name by name.
pub proof fn lemma_prefix_values(doc: Seq<(String, RawGasValue)>, n: int)
    requires
        0 <= n <= doc.len(),
    ensures
        resolved_prefix(doc, n) is Ok <==> (forall|j: int|
            0 <= j < n && #[trigger] is_resolved_position(doc, j) ==> resolve_entry(doc, doc[j]) is Ok),
        resolved_prefix(doc, n) matches Ok(s) ==> forall|k: Seq<char>|
            #[trigger] value_named(s, k) == expected_value(doc, n, k),
    decreases n,
{
    if n > 0 {
        lemma_prefix_values(doc, n - 1);
        let entry = doc[n - 1];
        let k0 = entry.0@;
        assert forall|k: Seq<char>| k != k0 implies expected_value(doc, n, k) == expected_value(doc, n - 1, k) by {
            lemma_lookup_is_position(doc, k);
        }
        if let Ok(acc) = resolved_prefix(doc, n - 1) {
            if is_resolved_position(doc, n - 1) {
                if let Ok(x) = resolve_entry(doc, entry) {
                    assert forall|k: Seq<char>| #[trigger] value_named(acc.push((entry.0@, x)), k) == expected_value(doc, n, k) by {
                        lemma_value_named_push(acc, (entry.0@, x), k);
                    }
                }
            } else {
                assert forall|k: Seq<char>| #[trigger] value_named(acc, k) == expected_value(doc, n, k) by {
                    lemma_lookup_is_position(doc, k);
                    if k == k0 {
                        assert(expected_value(doc, n, k) == expected_value(doc, n - 1, k));
                    }
                }
            }
        }
    }
}

/// Every allow-listed position of `d2` resolves when every one of `d1` does.
proof fn lemma_resolvable_same_entries(d1: Seq<(String, RawGasValue)>, d2: Seq<(String, RawGasValue)>)
    requires
        d1.len() == d2.len(),
        same_entries(d1, d2),
        forall|j: int| 0 <= j < d1.len() && #[trigger] is_resolved_position(d1, j) ==> resolve_entry(d1, d1[j]) is Ok,
    ensures
        forall|j: int| 0 <= j < d2.len() && #[trigger] is_resolved_position(d2, j) ==> resolve_entry(d2, d2[j]) is Ok,
{
    assert forall|j2: int| 0 <= j2 < d2.len() && #[trigger] is_resolved_position(d2, j2) implies resolve_entry(d2, d2[j2]) is Ok by {
        let k = d2[j2].0@;
        assert(lookup_entry(d1, k) == lookup_entry(d2, k));
        let j1 = lookup(d1, k).unwrap();
        lemma_lookup_is_position(d1, k);
        assert(is_resolved_position(d1, j1));
        lemma_value_same_entries(d1, d2, d2[j2].0, d2[j2].1, d1.len());
    }
}

/// Resolution does not depend on the order of the source: two sources with the same
/// entry under every name (for instance, one document with its keys reordered) either
/// both resolve, to the same table, or both fail.
pub proof fn lemma_resolution_order_independent(d1: Seq<(String, RawGasValue)>, d2: Seq<(String, RawGasValue)>)
    requires
        d1.len() == d2.len(),
        same_entries(d1, d2),
    ensures
        resolved_gas_costs(d1) is Ok <==> resolved_gas_costs(d2) is Ok,
        resolved_gas_costs(d1) matches Ok(s1) ==> (resolved_gas_costs(d2) matches Ok(s2) && gas_map(s1) == gas_map(s2)),
{
    lemma_prefix_values(d1, d1.len() as int);
    lemma_prefix_values(d2, d2.len() as int);
    if resolved_gas_costs(d1) is Ok {
        lemma_resolvable_same_entries(d1, d2);
    }
    if resolved_gas_costs(d2) is Ok {
        assert(same_entries(d2, d1));
        lemma_resolvable_same_entries(d2, d1);
    }
    if let Ok(s1) = resolved_gas_costs(d1) {
        let s2 = resolved_gas_costs(d2).unwrap();
        assert forall|k: Seq<char>| #[trigger] value_named(s1, k) == value_named(s2, k) by {
            assert(value_named(s1, k) == expected_value(d1, d1.len() as int, k));
            assert(value_named(s2, k) == expected_value(d2, d2.len() as int, k));
            assert(lookup_entry(d1, k) == lookup_entry(d2, k));
            lemma_lookup_is_position(d1, k);
            lemma_lookup_is_position(d2, k);
            if let Some(e) = lookup_entry(d1, k) {
                lemma_value_same_entries(d1, d2, e.0, e.1, d1.len());
            }
        }
        assert(gas_map(s1) =~= gas_map(s2));
    }
}

pub proof fn lemma_value_named_none(s: Seq<(Seq<char>, u64)>, k: Seq<char>)
    ensures
        value_named(s, k) is None <==> forall|i: int| 0 <= i < s.len() ==> (#[trigger] s[i]).0 != k,
    decreases s.len(),
{
    if s.len() > 0 {
        let rest = s.subrange(1, s.len() as int);
        lemma_value_named_none(rest, k);
        assert forall|i: int| 1 <= i < s.len() implies #[trigger] s[i] == rest[i - 1] by {}
        if value_named(s, k) is None {
            assert forall|i: int| 0 <= i < s.len() implies (#[trigger] s[i]).0 != k by {
                if i > 0 {
                    assert(s[i] == rest[i - 1]);
                }
            }
        }
    }
}

/// Names in a resolved table are allow-listed and appear once each.
pub open spec fn has_distinct_allowed_names(s: Seq<(Seq<char>, u64)>) -> bool {
    &&& forall|i: int| 0 <= i < s.len() ==> is_allowed_gas_cost_name((#[trigger] s[i]).0)
    &&& forall|i: int, j: int| 0 <= i < j < s.len() ==> (#[trigger] s[i]).0 != (#[trigger] s[j]).0
}

pub proof fn lemma_prefix_distinct(doc: Seq<(String, RawGasValue)>, n: int)
    requires
        0 <= n <= doc.len(),
    ensures
        resolved_prefix(doc, n) matches Ok(s) ==> has_distinct_allowed_names(s),
    decreases n,
{
    if n > 0 {
        lemma_prefix_distinct(doc, n - 1);
        lemma_prefix_values(doc, n - 1);
        let entry = doc[n - 1];
        if let Ok(acc) = resolved_prefix(doc, n - 1) {
            if is_resolved_position(doc, n - 1) {
                if let Ok(x) = resolve_entry(doc, entry) {
                    assert(value_named(acc, entry.0@) == expected_value(doc, n - 1, entry.0@));
                    lemma_value_named_none(acc, entry.0@);
                    let t = acc.push((entry.0@, x));
                    assert forall|i: int, j: int| 0 <= i < j < t.len() implies (#[trigger] t[i]).0 != (#[trigger] t[j]).0 by {
                        if j == acc.len() {
                            assert(acc[i].0 != entry.0@);
                        } else {
                            assert(t[i] == acc[i] && t[j] == acc[j]);
                        }
                    }
                    assert forall|i: int| 0 <= i < t.len() implies is_allowed_gas_cost_name((#[trigger] t[i]).0) by {
                        if i < acc.len() {
                            assert(t[i] == acc[i]);
                        }
                    }
                }
            }
        }
    }
}

/// `literals` lists the entries of `s`, in order, as literal values.
pub open spec fn is_literal_source(literals: Seq<(String, RawGasValue)>, s: Seq<(Seq<char>, u64)>) -> bool {
    &&& literals.len() == s.len()
    &&& forall|i: int| 0 <= i < s.len() ==> (#[trigger] literals[i]).0@ == s[i].0 && literals[i].1 == RawGasValue::Unsigned(s[i].1)
}

proof fn lemma_literal_prefix(literals: Seq<(String, RawGasValue)>, s: Seq<(Seq<char>, u64)>, n: int)
    requires
        0 <= n <= s.len(),
        has_distinct_allowed_names(s),
        is_literal_source(literals, s),
    ensures
        resolved_prefix(literals, n) == Ok::<Seq<(Seq<char>, u64)>, OsConstantsSerdeError>(s.take(n)),
    decreases n,
{
    if n == 0 {
        assert(s.take(0) =~= Seq::<(Seq<char>, u64)>::empty());
    } else {
        lemma_literal_prefix(literals, s, n - 1);
        let key = literals[n - 1].0;
        assert(key@ == s[n - 1].0);
        assert forall|i: int| 0 <= i < n - 1 implies (#[trigger] literals[i]).0@ != key@ by {
            assert(literals[i].0@ == s[i].0);
        }
        assert(is_first_position(literals, key@, n - 1));
        lemma_first_position_unique(literals, key@, n - 1);
        assert(s.take(n - 1).push(s[n - 1]) =~= s.take(n));
    }
}

/// Resolution is idempotent: a source that lists a resolved table as literals, in its
/// order, resolves to that same table.
pub proof fn lemma_resolution_idempotent(doc: Seq<(String, RawGasValue)>, literals: Seq<(String, RawGasValue)>)
    ensures
        resolved_gas_costs(doc) matches Ok(s) && is_literal_source(literals, s) ==> resolved_gas_costs(literals)
            == resolved_gas_costs(doc),
{
    lemma_prefix_distinct(doc, doc.len() as int);
    if let Ok(s) = resolved_gas_costs(doc) {
        if is_literal_source(literals, s) {
            lemma_literal_prefix(literals, s, s.len() as int);
            assert(s.take(s.len() as int) =~= s);
        }
    }
}

} // verus!
