//! The versioned constants snapshot: gas costs, resource formulas and limits of one
//! protocol version.

use vstd::prelude::*;

use crate::gas_costs::{OSConstants, is_allowed_gas_cost_name};
use crate::gas_table::value_named;
use crate::kinds::{SyscallSelector, TransactionType};
use crate::os_resources::OsResources;
use crate::resources::{Builtin, ResourceVector, opt_counts};

verus! {

/// A non-negative rational cost `numer / denom`.
#[derive(Clone, Copy, Debug, PartialEq, Eq, Structural)]
pub struct ResourceCost {
    pub numer: u128,
    pub denom: u128,
}

impl ResourceCost {
    pub open spec fn wf(&self) -> bool {
        self.denom > 0
    }

    /// The whole number `n`.
    pub fn from_integer(n: u128) -> (r: ResourceCost)
        ensures
            r.wf(),
            r.numer == n && r.denom == 1,
    {
        ResourceCost { numer: n, denom: 1 }
    }
}

/// Gas charged per unit of data posted on L2.
#[derive(Clone, Copy, Debug, PartialEq, Eq, Structural)]
pub struct L2ResourceGasCosts {
    pub gas_per_data_felt: ResourceCost,
    pub event_key_factor: ResourceCost,
    pub gas_per_code_byte: ResourceCost,
}

impl L2ResourceGasCosts {
    pub open spec fn wf(&self) -> bool {
        self.gas_per_data_felt.wf() && self.event_key_factor.wf() && self.gas_per_code_byte.wf()
    }
}

/// Size limits on the events that one transaction emits.
#[derive(Clone, Copy, Debug, Default, PartialEq, Eq, Structural)]
pub struct EventLimits {
    pub max_data_length: usize,
    pub max_keys_length: usize,
    pub max_n_emitted_events: usize,
}

impl EventLimits {
    /// No limit at all: every bound is `usize::MAX`.
    pub fn max() -> (r: EventLimits)
        ensures
            r.max_data_length == usize::MAX,
            r.max_keys_length == usize::MAX,
            r.max_n_emitted_events == usize::MAX,
    {
        EventLimits {
            max_data_length: usize::MAX,
            max_keys_length: usize::MAX,
            max_n_emitted_events: usize::MAX,
        }
    }
}

/// The resources that account tests price, each at one unit of gas.
pub open spec fn account_testing_fee_costs() -> Seq<(Seq<char>, ResourceCost)> {
    let one = ResourceCost { numer: 1, denom: 1 };
    seq![
        ("n_steps"@, one),
        (Builtin::Pedersen.spec_name(), one),
        (Builtin::RangeCheck.spec_name(), one),
        (Builtin::Ecdsa.spec_name(), one),
        (Builtin::Bitwise.spec_name(), one),
        (Builtin::Poseidon.spec_name(), one),
        (Builtin::Output.spec_name(), one),
        (Builtin::EcOp.spec_name(), one),
    ]
}

/// Constants that may vary between protocol versions.
#[derive(Debug)]
pub struct VersionedConstants {
    pub tx_event_limits: EventLimits,
    pub invoke_tx_max_n_steps: u32,
    pub l2_resource_gas_costs: L2ResourceGasCosts,
    pub max_recursion_depth: usize,
    pub validate_max_n_steps: u32,
    pub os_constants: OSConstants,
    pub os_resources: OsResources,
    pub vm_resource_fee_cost: Vec<(String, ResourceCost)>,
}

impl VersionedConstants {
    pub open spec fn spec_os_constants(&self) -> OSConstants {
        self.os_constants
    }

    pub open spec fn spec_os_resources(&self) -> OsResources {
        self.os_resources
    }

    pub open spec fn spec_fee_costs(&self) -> Seq<(String, ResourceCost)> {
        self.vm_resource_fee_cost@
    }

    pub open spec fn wf(&self) -> bool {
        &&& self.spec_os_constants().is_complete()
        &&& self.spec_os_resources().wf()
        &&& self.l2_resource_gas_costs.wf()
        &&& forall|i: int| 0 <= i < self.spec_fee_costs().len() ==> (#[trigger] self.spec_fee_costs()[i]).1.wf()
    }

    /// Assembles a snapshot from its validated parts.
    pub fn new(
        tx_event_limits: EventLimits,
        invoke_tx_max_n_steps: u32,
        l2_resource_gas_costs: L2ResourceGasCosts,
        max_recursion_depth: usize,
        validate_max_n_steps: u32,
        os_constants: OSConstants,
        os_resources: OsResources,
        vm_resource_fee_cost: Vec<(String, ResourceCost)>,
    ) -> (r: VersionedConstants)
        ensures
            r.tx_event_limits == tx_event_limits,
            r.invoke_tx_max_n_steps == invoke_tx_max_n_steps,
            r.l2_resource_gas_costs == l2_resource_gas_costs,
            r.max_recursion_depth == max_recursion_depth,
            r.validate_max_n_steps == validate_max_n_steps,
            r.spec_os_constants() == os_constants,
            r.spec_os_resources() == os_resources,
            r.spec_fee_costs() == vm_resource_fee_cost@,
    {
        VersionedConstants {
            tx_event_limits,
            invoke_tx_max_n_steps,
            l2_resource_gas_costs,
            max_recursion_depth,
            validate_max_n_steps,
            os_constants,
            os_resources,
            vm_resource_fee_cost,
        }
    }

    /// The same constants, with a fee table that prices steps and the builtins accounts use
    /// at one unit of gas each.
    pub fn create_for_account_testing(base: VersionedConstants) -> (r: VersionedConstants)
        ensures
            r.spec_fee_costs().map_values(|e: (String, ResourceCost)| (e.0@, e.1)) == account_testing_fee_costs(),
            r.tx_event_limits == base.tx_event_limits,
            r.invoke_tx_max_n_steps == base.invoke_tx_max_n_steps,
            r.l2_resource_gas_costs == base.l2_resource_gas_costs,
            r.max_recursion_depth == base.max_recursion_depth,
            r.validate_max_n_steps == base.validate_max_n_steps,
            r.spec_os_constants() == base.spec_os_constants(),
            r.spec_os_resources() == base.spec_os_resources(),
            base.wf() ==> r.wf(),
    {
        let mut vm_resource_fee_cost: Vec<(String, ResourceCost)> = Vec::new();
        vm_resource_fee_cost.push(("n_steps".to_owned(), ResourceCost::from_integer(1)));
        vm_resource_fee_cost.push((Builtin::Pedersen.name(), ResourceCost::from_integer(1)));
        vm_resource_fee_cost.push((Builtin::RangeCheck.name(), ResourceCost::from_integer(1)));
        vm_resource_fee_cost.push((Builtin::Ecdsa.name(), ResourceCost::from_integer(1)));
        vm_resource_fee_cost.push((Builtin::Bitwise.name(), ResourceCost::from_integer(1)));
        vm_resource_fee_cost.push((Builtin::Poseidon.name(), ResourceCost::from_integer(1)));
        vm_resource_fee_cost.push((Builtin::Output.name(), ResourceCost::from_integer(1)));
        vm_resource_fee_cost.push((Builtin::EcOp.name(), ResourceCost::from_integer(1)));
        assert(vm_resource_fee_cost@.map_values(|e: (String, ResourceCost)| (e.0@, e.1)) =~= account_testing_fee_costs());
        VersionedConstants { vm_resource_fee_cost, ..base }
    }

    /// Initial gas of any transaction: `initial_gas_cost - transaction_gas_cost`, or
    /// `None` when the latter is the larger.
    pub fn tx_initial_gas(&self) -> (r: Option<u64>)
        requires
            self.wf(),
        ensures
            ({
                let initial = value_named(self.spec_os_constants().spec_gas_costs(), "initial_gas_cost"@).unwrap();
                let per_tx = value_named(self.spec_os_constants().spec_gas_costs(), "transaction_gas_cost"@).unwrap();
                &&& r is Some <==> per_tx <= initial
                &&& r matches Some(g) ==> g == initial - per_tx
            }),
    {
        let initial_name = "initial_gas_cost".to_owned();
        let per_tx_name = "transaction_gas_cost".to_owned();
        proof {
            assert(crate::gas_costs::allowed_gas_cost_names()[3] == initial_name@);
            assert(crate::gas_costs::allowed_gas_cost_names()[8] == per_tx_name@);
        }
        let initial = self.os_constants.gas_cost(&initial_name);
        let per_tx = self.os_constants.gas_cost(&per_tx_name);
        initial.checked_sub(per_tx)
    }

    /// The fee cost of each resource, by resource name.
    pub fn vm_resource_fee_cost(&self) -> (r: &Vec<(String, ResourceCost)>)
        ensures
            r@ == self.spec_fee_costs(),
    {
        &self.vm_resource_fee_cost
    }

    /// Value of an allow-listed gas cost.
    pub fn gas_cost(&self, name: &String) -> (r: u64)
        requires
            self.wf(),
            is_allowed_gas_cost_name(name@),
        ensures
            value_named(self.spec_os_constants().spec_gas_costs(), name@) == Some(r),
    {
        self.os_constants.gas_cost(name)
    }

    pub fn os_resources_for_tx_type(&self, tx_type: TransactionType, calldata_length: u64) -> (r: Option<ResourceVector>)
        requires
            self.wf(),
        ensures
            r matches Some(v) ==> v.wf(),
            opt_counts(r) == self.spec_os_resources().spec_tx_resources(tx_type, calldata_length as int),
    {
        self.os_resources.resources_for_tx_type(tx_type, calldata_length)
    }

    pub fn os_kzg_da_resources(&self, data_segment_length: u64) -> (r: Option<ResourceVector>)
        requires
            self.wf(),
        ensures
            r matches Some(v) ==> v.wf(),
            opt_counts(r) == self.spec_os_resources().spec_kzg_da_resources(data_segment_length as int),
    {
        self.os_resources.os_kzg_da_resources(data_segment_length)
    }

    pub fn get_additional_os_tx_resources(
        &self,
        tx_type: TransactionType,
        calldata_length: u64,
        data_segment_length: u64,
        use_kzg_da: bool,
    ) -> (r: Option<ResourceVector>)
        requires
            self.wf(),
        ensures
            r matches Some(v) ==> v.wf(),
            opt_counts(r) == self.spec_os_resources().spec_additional_tx_resources(
                tx_type,
                calldata_length as int,
                data_segment_length as int,
                use_kzg_da,
            ),
    {
        self.os_resources.get_additional_os_tx_resources(tx_type, calldata_length, data_segment_length, use_kzg_da)
    }

    pub fn get_additional_os_syscall_resources(&self, counter: &Vec<(SyscallSelector, u64)>) -> (r: Option<ResourceVector>)
        requires
            self.wf(),
        ensures
            r matches Some(v) ==> v.wf(),
            opt_counts(r) == self.spec_os_resources().spec_syscall_total(counter@),
    {
        self.os_resources.get_additional_os_syscall_resources(counter)
    }

    pub fn get_validate_block_number_rounding(&self) -> (r: u64)
        ensures
            r == self.spec_os_constants().spec_rounding().validate_block_number_rounding,
    {
        self.os_constants.validate_block_number_rounding()
    }

    pub fn get_validate_timestamp_rounding(&self) -> (r: u64)
        ensures
            r == self.spec_os_constants().spec_rounding().validate_timestamp_rounding,
    {
        self.os_constants.validate_timestamp_rounding()
    }
}

} // verus!
