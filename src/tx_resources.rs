//! From a transaction's execution and its L2 data to a resources mapping, and from a
//! resources mapping to a fee.

use vstd::prelude::*;

use crate::kinds::TransactionType;
use crate::resources::{Builtin, N_BUILTINS, ResourceCounts, ResourceVector, counts_add, counts_fit};
use crate::state_changes::StateChangesCount;
use crate::versioned_constants::{L2ResourceGasCosts, ResourceCost, VersionedConstants};

verus! {

/// L1 gas spent per word of data posted on the legacy (calldata) path.
pub const SHARP_GAS_PER_DA_WORD: u128 = 612;

/// L1 data gas spent per field element posted in a blob.
pub const DATA_GAS_PER_FIELD_ELEMENT: u128 = 32;

/// L1 settlement gas, split into ordinary gas and blob (data) gas.
#[derive(Clone, Copy, Debug, Default, PartialEq, Eq, Structural)]
pub struct GasVector {
    pub l1_gas: u128,
    pub l1_data_gas: u128,
}

/// Words posted for data availability: per modified contract its address and one word of
/// class, nonce and storage-count data; one per class update; two per storage update and
/// per compiled class update.
pub open spec fn onchain_data_segment_length(c: StateChangesCount) -> int {
    2 * c.n_modified_contracts + c.n_class_hash_updates + 2 * c.n_storage_updates + 2 * c.n_compiled_class_hash_updates
}

pub fn get_onchain_data_segment_length(c: &StateChangesCount) -> (r: u128)
    ensures
        r == onchain_data_segment_length(*c),
{
    2 * (c.n_modified_contracts as u128) + c.n_class_hash_updates as u128 + 2 * (c.n_storage_updates as u128) + 2
        * (c.n_compiled_class_hash_updates as u128)
}

/// Gas of posting the state diff: as blob data on the commitment path, as calldata otherwise.
pub open spec fn da_gas_cost(c: StateChangesCount, use_kzg_da: bool) -> GasVector {
    let words = onchain_data_segment_length(c);
    if use_kzg_da {
        GasVector { l1_gas: 0, l1_data_gas: (words * DATA_GAS_PER_FIELD_ELEMENT) as u128 }
    } else {
        GasVector { l1_gas: (words * SHARP_GAS_PER_DA_WORD) as u128, l1_data_gas: 0 }
    }
}

pub fn get_da_gas_cost(c: &StateChangesCount, use_kzg_da: bool) -> (r: GasVector)
    ensures
        r == da_gas_cost(*c, use_kzg_da),
        r.l1_gas == (if use_kzg_da { 0 } else { onchain_data_segment_length(*c) * SHARP_GAS_PER_DA_WORD }),
        r.l1_data_gas == (if use_kzg_da { onchain_data_segment_length(*c) * DATA_GAS_PER_FIELD_ELEMENT } else { 0 }),
{
    let words = get_onchain_data_segment_length(c);
    if use_kzg_da {
        GasVector { l1_gas: 0, l1_data_gas: words * DATA_GAS_PER_FIELD_ELEMENT }
    } else {
        GasVector { l1_gas: words * SHARP_GAS_PER_DA_WORD, l1_data_gas: 0 }
    }
}

/// `floor(c * x)`, or `None` when `c.numer * x` leaves the `u128` range.
pub open spec fn mul_floor_spec(c: ResourceCost, x: int) -> Option<int> {
    if c.numer * x <= u128::MAX {
        Some(c.numer * x / c.denom as int)
    } else {
        None
    }
}

/// `ceil(c * x)`, or `None` when `c.numer * x + c.denom - 1` leaves the `u128` range.
pub open spec fn mul_ceil_spec(c: ResourceCost, x: int) -> Option<int> {
    if c.numer * x + c.denom - 1 <= u128::MAX {
        Some((c.numer * x + c.denom - 1) / c.denom as int)
    } else {
        None
    }
}

pub fn mul_floor(c: &ResourceCost, x: u128) -> (r: Option<u128>)
    requires
        c.wf(),
    ensures
        opt_int(r) == mul_floor_spec(*c, x as int),
{
    match c.numer.checked_mul(x) {
        Some(p) => Some(p / c.denom),
        None => None,
    }
}

pub fn mul_ceil(c: &ResourceCost, x: u128) -> (r: Option<u128>)
    requires
        c.wf(),
    ensures
        opt_int(r) == mul_ceil_spec(*c, x as int),
{
    let p = match c.numer.checked_mul(x) {
        Some(p) => p,
        None => {
            assert(c.numer * x + c.denom - 1 > u128::MAX);
            return None;
        },
    };
    match p.checked_add(c.denom - 1) {
        Some(q) => Some(q / c.denom),
        None => None,
    }
}

pub open spec fn opt_int(r: Option<u128>) -> Option<int> {
    match r {
        Some(x) => Some(x as int),
        None => None,
    }
}

/// What a transaction costs besides its VM execution: its L2 data and its state changes.
#[derive(Clone, Copy, Debug, PartialEq, Eq, Structural)]
pub struct StarknetResources {
    pub calldata_length: u64,
    pub signature_length: u64,
    pub code_size: u128,
    pub l1_handler_payload_size: Option<u64>,
    pub state_changes_count: StateChangesCount,
    pub total_event_keys: u128,
    pub total_event_data: u128,
    pub total_message_payload: u128,
}

/// Felts of L2 data other than event keys: calldata, signature, event data, message
/// payloads and the L1 handler payload.
pub open spec fn data_felts(r: StarknetResources) -> int {
    r.calldata_length + r.signature_length + r.total_event_data + r.total_message_payload + match r.l1_handler_payload_size {
        Some(n) => n as int,
        None => 0int,
    }
}

/// L1 gas of the L2 data: `floor(gas_per_data_felt * (floor(event_key_factor * keys) + felts))
/// + floor(gas_per_code_byte * code_size)`; `None` when a step leaves the `u128` range.
pub open spec fn starknet_gas(r: StarknetResources, costs: L2ResourceGasCosts) -> Option<int> {
    match mul_floor_spec(costs.event_key_factor, r.total_event_keys as int) {
        None => None,
        Some(keys) => if keys + data_felts(r) > u128::MAX {
            None
        } else {
            match mul_floor_spec(costs.gas_per_data_felt, keys + data_felts(r)) {
                None => None,
                Some(data_gas) => match mul_floor_spec(costs.gas_per_code_byte, r.code_size as int) {
                    None => None,
                    Some(code_gas) => if data_gas + code_gas <= u128::MAX {
                        Some(data_gas + code_gas)
                    } else {
                        None
                    },
                },
            }
        },
    }
}

pub fn get_starknet_gas(r: &StarknetResources, costs: &L2ResourceGasCosts) -> (g: Option<u128>)
    requires
        costs.wf(),
    ensures
        opt_int(g) == starknet_gas(*r, *costs),
{
    let keys = match mul_floor(&costs.event_key_factor, r.total_event_keys) {
        Some(k) => k,
        None => return None,
    };
    let payload: u128 = match r.l1_handler_payload_size {
        Some(n) => n as u128,
        None => 0,
    };
    let felts = match (r.calldata_length as u128 + r.signature_length as u128).checked_add(r.total_event_data) {
        Some(f) => f,
        None => return None,
    };
    let felts = match felts.checked_add(r.total_message_payload) {
        Some(f) => f,
        None => return None,
    };
    let felts = match felts.checked_add(payload) {
        Some(f) => f,
        None => return None,
    };
    let total = match keys.checked_add(felts) {
        Some(t) => t,
        None => return None,
    };
    let data_gas = match mul_floor(&costs.gas_per_data_felt, total) {
        Some(d) => d,
        None => return None,
    };
    let code_gas = match mul_floor(&costs.gas_per_code_byte, r.code_size) {
        Some(c) => c,
        None => return None,
    };
    data_gas.checked_add(code_gas)
}

/// Mathematical value of a resources mapping.
pub struct MappingCounts {
    pub l1_gas_usage: int,
    pub l1_blob_gas_usage: int,
    pub n_steps: int,
    pub builtins: Seq<int>,
}

/// Quantity of each resource a transaction consumed: L1 gas, L1 blob gas, VM steps
/// (memory holes included) and each builtin.
#[derive(Debug)]
pub struct ResourcesMapping {
    pub l1_gas_usage: u128,
    pub l1_blob_gas_usage: u128,
    pub n_steps: u128,
    pub builtin_counts: Vec<u128>,
}

impl View for ResourcesMapping {
    type V = MappingCounts;

    open spec fn view(&self) -> MappingCounts {
        MappingCounts {
            l1_gas_usage: self.l1_gas_usage as int,
            l1_blob_gas_usage: self.l1_blob_gas_usage as int,
            n_steps: self.n_steps as int,
            builtins: self.builtin_counts@.map_values(|c: u128| c as int),
        }
    }
}

impl ResourcesMapping {
    pub open spec fn wf(&self) -> bool {
        self.builtin_counts.len() == N_BUILTINS
    }

    /// An identical copy.
    pub fn copy(&self) -> (r: ResourcesMapping)
        ensures
            r@ == self@,
            r.builtin_counts@ == self.builtin_counts@,
    {
        let mut builtin_counts: Vec<u128> = Vec::new();
        let mut i: usize = 0;
        while i < self.builtin_counts.len()
            invariant
                i <= self.builtin_counts.len(),
                builtin_counts@ == self.builtin_counts@.take(i as int),
            decreases self.builtin_counts.len() - i,
        {
            builtin_counts.push(self.builtin_counts[i]);
            assert(self.builtin_counts@.take(i + 1) =~= self.builtin_counts@.take(i as int).push(self.builtin_counts@[i as int]));
            i = i + 1;
        }
        assert(self.builtin_counts@.take(self.builtin_counts.len() as int) =~= self.builtin_counts@);
        let r = ResourcesMapping {
            l1_gas_usage: self.l1_gas_usage,
            l1_blob_gas_usage: self.l1_blob_gas_usage,
            n_steps: self.n_steps,
            builtin_counts,
        };
        assert(r@.builtins =~= self@.builtins);
        r
    }
}

/// The resources mapping of a transaction whose VM usage (trace plus OS resources) is
/// `total`, whose data availability costs `da`, and whose L2 data costs `l2_gas`.
pub open spec fn mapping_of(total: ResourceCounts, da: GasVector, l2_gas: int) -> MappingCounts {
    MappingCounts {
        l1_gas_usage: da.l1_gas + l2_gas,
        l1_blob_gas_usage: da.l1_data_gas as int,
        n_steps: total.steps + total.memory_holes,
        builtins: total.builtins,
    }
}

/// Why a resources mapping or a fee could not be computed.
#[derive(Debug)]
pub enum ResourcesError {
    /// A quantity left the range of its integer type.
    Overflow,
    /// A resource was used but the fee table has no cost for it.
    MissingFeeCost { resource: String },
}

/// The resources mapping of a transaction, from its VM trace, its type and L2 data, and
/// the data-availability path; `None` when a quantity leaves its integer range.
pub open spec fn tx_resources_mapping(
    vc: VersionedConstants,
    trace: ResourceCounts,
    tx_type: TransactionType,
    r: StarknetResources,
    use_kzg_da: bool,
) -> Option<MappingCounts> {
    let words = onchain_data_segment_length(r.state_changes_count);
    if words > u64::MAX {
        None
    } else {
        match vc.spec_os_resources().spec_additional_tx_resources(tx_type, r.calldata_length as int, words, use_kzg_da) {
            None => None,
            Some(os) => if !counts_fit(counts_add(trace, os)) {
                None
            } else {
                match starknet_gas(r, vc.l2_resource_gas_costs) {
                    None => None,
                    Some(l2_gas) => {
                        let m = mapping_of(counts_add(trace, os), da_gas_cost(r.state_changes_count, use_kzg_da), l2_gas);
                        if m.l1_gas_usage <= u128::MAX {
                            Some(m)
                        } else {
                            None
                        }
                    },
                }
            },
        }
    }
}

/// Combines the VM trace, the OS resources of the transaction type and the L2 data costs
/// into one resources mapping.
pub fn calculate_tx_resources(
    vc: &VersionedConstants,
    trace: &ResourceVector,
    tx_type: TransactionType,
    r: &StarknetResources,
    use_kzg_da: bool,
) -> (m: Option<ResourcesMapping>)
    requires
        vc.wf(),
        trace.wf(),
    ensures
        m matches Some(x) ==> x.wf() && tx_resources_mapping(*vc, trace@, tx_type, *r, use_kzg_da) == Some(x@),
        m is None ==> tx_resources_mapping(*vc, trace@, tx_type, *r, use_kzg_da) is None,
{
    let words = get_onchain_data_segment_length(&r.state_changes_count);
    if words > u64::MAX as u128 {
        return None;
    }
    let os = match vc.get_additional_os_tx_resources(tx_type, r.calldata_length, words as u64, use_kzg_da) {
        Some(o) => o,
        None => return None,
    };
    let total = match trace.checked_add(&os) {
        Some(t) => t,
        None => return None,
    };
    let l2_gas = match get_starknet_gas(r, &vc.l2_resource_gas_costs) {
        Some(g) => g,
        None => return None,
    };
    let da = get_da_gas_cost(&r.state_changes_count, use_kzg_da);
    let l1_gas_usage = match da.l1_gas.checked_add(l2_gas) {
        Some(g) => g,
        None => return None,
    };
    let mut builtin_counts: Vec<u128> = Vec::new();
    let mut i: usize = 0;
    while i < N_BUILTINS
        invariant
            i <= N_BUILTINS,
            total.wf(),
            builtin_counts.len() == i,
            forall|j: int| 0 <= j < i ==> #[trigger] builtin_counts@[j] == total.builtin_counts@[j],
        decreases N_BUILTINS - i,
    {
        builtin_counts.push(total.builtin_counts[i] as u128);
        i = i + 1;
    }
    let m = ResourcesMapping {
        l1_gas_usage,
        l1_blob_gas_usage: da.l1_data_gas,
        n_steps: total.n_steps as u128 + total.n_memory_holes as u128,
        builtin_counts,
    };
    assert(m@.builtins =~= total@.builtins);
    Some(m)
}

/// Number of priced resources: steps, then each builtin.
pub const N_PRICED_RESOURCES: usize = 10;

/// The builtin at position `i` of a usage table.
pub open spec fn builtin_at(i: int) -> Builtin {
    choose|b: Builtin| b.spec_index() == i
}

pub proof fn lemma_builtin_at(b: Builtin)
    ensures
        builtin_at(b.spec_index() as int) == b,
{
    let c = builtin_at(b.spec_index() as int);
    assert(exists|x: Builtin| x.spec_index() == b.spec_index());
    assert(c.spec_index() == b.spec_index());
}

/// Name of the `i`-th priced resource.
pub open spec fn priced_name(i: int) -> Seq<char> {
    if i == 0 {
        "n_steps"@
    } else {
        builtin_at(i - 1).spec_name()
    }
}

/// Usage of the `i`-th priced resource.
pub open spec fn priced_usage(m: MappingCounts, i: int) -> int {
    if i == 0 {
        m.n_steps
    } else {
        m.builtins[i - 1]
    }
}

/// The first cost listed under `name`.
pub open spec fn cost_named(costs: Seq<(String, ResourceCost)>, name: Seq<char>) -> Option<ResourceCost>
    decreases costs.len(),
{
    if costs.len() == 0 {
        None
    } else if costs[0].0@ == name {
        Some(costs[0].1)
    } else {
        cost_named(costs.subrange(1, costs.len() as int), name)
    }
}

/// Why pricing failed.
pub enum PricingFailure {
    Overflow,
    MissingCost(Seq<char>),
}

/// L1 gas of the VM usage of the first `n` priced resources: the largest
/// `ceil(usage * cost)`; a resource that was not used needs no cost.
pub open spec fn vm_gas_prefix(m: MappingCounts, costs: Seq<(String, ResourceCost)>, n: int) -> Result<int, PricingFailure>
    decreases n,
{
    if n <= 0 {
        Ok(0)
    } else {
        match vm_gas_prefix(m, costs, n - 1) {
            Err(e) => Err(e),
            Ok(g) => if priced_usage(m, n - 1) == 0 {
                Ok(g)
            } else {
                match cost_named(costs, priced_name(n - 1)) {
                    None => Err(PricingFailure::MissingCost(priced_name(n - 1))),
                    Some(c) => match mul_ceil_spec(c, priced_usage(m, n - 1)) {
                        None => Err(PricingFailure::Overflow),
                        Some(t) => Ok(if t > g { t } else { g }),
                    },
                }
            },
        }
    }
}

/// The fee of a resources mapping: `(l1_gas_usage + vm_gas) * gas_price`.
pub open spec fn tx_fee(m: MappingCounts, costs: Seq<(String, ResourceCost)>, gas_price: int) -> Result<int, PricingFailure> {
    match vm_gas_prefix(m, costs, N_PRICED_RESOURCES as int) {
        Err(e) => Err(e),
        Ok(g) => if m.l1_gas_usage + g > u128::MAX || (m.l1_gas_usage + g) * gas_price > u128::MAX {
            Err(PricingFailure::Overflow)
        } else {
            Ok((m.l1_gas_usage + g) * gas_price)
        },
    }
}

/// Pricing failure as the error this library reports.
pub open spec fn matches_failure(e: ResourcesError, f: PricingFailure) -> bool {
    match (e, f) {
        (ResourcesError::Overflow, PricingFailure::Overflow) => true,
        (ResourcesError::MissingFeeCost { resource }, PricingFailure::MissingCost(name)) => resource@ == name,
        _ => false,
    }
}

fn find_cost(costs: &Vec<(String, ResourceCost)>, name: &String) -> (r: Option<ResourceCost>)
    ensures
        r == cost_named(costs@, name@),
{
    let mut i: usize = 0;
    assert(costs@.subrange(0, costs.len() as int) =~= costs@);
    while i < costs.len()
        invariant
            i <= costs.len(),
            cost_named(costs@, name@) == cost_named(costs@.subrange(i as int, costs.len() as int), name@),
        decreases costs.len() - i,
    {
        let ghost rest = costs@.subrange(i as int, costs.len() as int);
        assert(rest.subrange(1, rest.len() as int) =~= costs@.subrange(i + 1, costs.len() as int));
        if costs[i].0 == *name {
            return Some(costs[i].1);
        }
        i = i + 1;
    }
    None
}

/// Prices a resources mapping: `(l1_gas_usage + max(ceil(usage * cost))) * gas_price`.
pub fn calculate_tx_fee(m: &ResourcesMapping, costs: &Vec<(String, ResourceCost)>, gas_price: u128) -> (r: Result<u128, ResourcesError>)
    requires
        m.wf(),
        forall|i: int| 0 <= i < costs.len() ==> (#[trigger] costs@[i]).1.wf(),
    ensures
        r matches Ok(f) ==> tx_fee(m@, costs@, gas_price as int) == Ok::<int, PricingFailure>(f as int),
        r matches Err(e) ==> tx_fee(m@, costs@, gas_price as int) matches Err(f) && matches_failure(e, f),
{
    let mut gas: u128 = 0;
    let mut i: usize = 0;
    while i < N_PRICED_RESOURCES
        invariant
            i <= N_PRICED_RESOURCES,
            m.wf(),
            forall|k: int| 0 <= k < costs.len() ==> (#[trigger] costs@[k]).1.wf(),
            vm_gas_prefix(m@, costs@, i as int) == Ok::<int, PricingFailure>(gas as int),
        decreases N_PRICED_RESOURCES - i,
    {
        let usage: u128 = if i == 0 { m.n_steps } else { m.builtin_counts[i - 1] };
        if usage != 0 {
            let name = if i == 0 {
                "n_steps".to_owned()
            } else {
                let b = Builtin::from_index(i - 1);
                proof {
                    lemma_builtin_at(b);
                }
                b.name()
            };
            let cost = match find_cost(costs, &name) {
                Some(c) => c,
                None => {
                    proof {
                        lemma_vm_gas_error_persists(m@, costs@, i + 1, N_PRICED_RESOURCES as int);
                    }
                    return Err(ResourcesError::MissingFeeCost { resource: name });
                },
            };
            proof {
                lemma_cost_named_listed(costs@, name@);
                let j = choose|j: int| 0 <= j < costs.len() && costs@[j].1 == cost && costs@[j].0@ == name@;
                assert(costs@[j].1.wf());
            }
            let term = match mul_ceil(&cost, usage) {
                Some(t) => t,
                None => {
                    proof {
                        lemma_vm_gas_error_persists(m@, costs@, i + 1, N_PRICED_RESOURCES as int);
                    }
                    return Err(ResourcesError::Overflow);
                },
            };
            if term > gas {
                gas = term;
            }
        }
        i = i + 1;
    }
    let total = match m.l1_gas_usage.checked_add(gas) {
        Some(t) => t,
        None => return Err(ResourcesError::Overflow),
    };
    match total.checked_mul(gas_price) {
        Some(f) => Ok(f),
        None => Err(ResourcesError::Overflow),
    }
}

/// A cost found under a name is one of the listed costs.
pub proof fn lemma_cost_named_listed(costs: Seq<(String, ResourceCost)>, name: Seq<char>)
    ensures
        cost_named(costs, name) matches Some(c) ==> exists|j: int| 0 <= j < costs.len() && costs[j].1 == c && costs[j].0@ == name,
    decreases costs.len(),
{
    if costs.len() > 0 && costs[0].0@ != name {
        let rest = costs.subrange(1, costs.len() as int);
        lemma_cost_named_listed(rest, name);
        if let Some(c) = cost_named(rest, name) {
            let j = choose|j: int| 0 <= j < rest.len() && rest[j].1 == c && rest[j].0@ == name;
            assert(costs[j + 1] == rest[j]);
        }
    }
}

/// Once pricing of a prefix fails, pricing of every longer prefix fails the same way.
pub proof fn lemma_vm_gas_error_persists(m: MappingCounts, costs: Seq<(String, ResourceCost)>, n: int, k: int)
    requires
        0 <= n <= k,
        vm_gas_prefix(m, costs, n) is Err,
    ensures
        vm_gas_prefix(m, costs, k) == vm_gas_prefix(m, costs, n),
    decreases k - n,
{
    if n < k {
        lemma_vm_gas_error_persists(m, costs, n, k - 1);
    }
}

/// The VM gas is at least the rounded-up cost of every priced resource that was used.
proof fn lemma_vm_gas_bounds_terms(m: MappingCounts, costs: Seq<(String, ResourceCost)>, n: int, i: int)
    requires
        0 <= i < n,
        vm_gas_prefix(m, costs, n) is Ok,
        priced_usage(m, i) != 0,
    ensures
        cost_named(costs, priced_name(i)) matches Some(c) && mul_ceil_spec(c, priced_usage(m, i)) matches Some(t)
            && vm_gas_prefix(m, costs, n) matches Ok(g) && g >= t,
    decreases n,
{
    if i < n - 1 {
        if vm_gas_prefix(m, costs, n - 1) is Err {
            lemma_vm_gas_error_persists(m, costs, n - 1, n);
        }
        lemma_vm_gas_bounds_terms(m, costs, n - 1, i);
    }
}

/// The fee is positive when the gas price is, and some used resource has a positive cost.
pub proof fn lemma_fee_positive(m: MappingCounts, costs: Seq<(String, ResourceCost)>, gas_price: int, i: int)
    requires
        0 <= i < N_PRICED_RESOURCES,
        gas_price > 0,
        priced_usage(m, i) > 0,
        m.l1_gas_usage >= 0,
        cost_named(costs, priced_name(i)) matches Some(c) && c.numer > 0 && c.denom > 0,
    ensures
        tx_fee(m, costs, gas_price) matches Ok(f) ==> f > 0,
{
    if let Ok(f) = tx_fee(m, costs, gas_price) {
        lemma_vm_gas_bounds_terms(m, costs, N_PRICED_RESOURCES as int, i);
        let c = cost_named(costs, priced_name(i)).unwrap();
        let u = priced_usage(m, i);
        let x = c.numer * u;
        assert(x >= 1) by (nonlinear_arith)
            requires c.numer > 0, u > 0, x == c.numer * u;
        let d = c.denom as int;
        assert((x + d - 1) / d >= 1) by (nonlinear_arith)
            requires x >= 1, d >= 1;
        if let Ok(g) = vm_gas_prefix(m, costs, N_PRICED_RESOURCES as int) {
            let gas = m.l1_gas_usage + g;
            assert(gas * gas_price > 0) by (nonlinear_arith)
                requires gas >= 1, gas_price > 0;
        }
    }
}

} // verus!
