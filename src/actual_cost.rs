//! The actual-cost pipeline: a per-transaction accumulator that, once fed with the
//! transaction's calls, state changes and class, yields its fee, its data-availability
//! gas and its resources.

use vstd::prelude::*;

use crate::call_info::{
    CallInfo, EmitEventError, chain_events, chain_payloads, chained_events, chained_payloads, check_event_limits,
    event_and_message_totals, events_violation, sum_data, sum_keys, sum_lengths,
};
use crate::kinds::TransactionType;
use crate::resources::ResourceVector;
use crate::state_changes::{ContractAddress, Felt, StateChanges, StateChangesCount, StorageEntry};
use crate::tx_resources::{
    GasVector, MappingCounts, PricingFailure, ResourcesError, ResourcesMapping, StarknetResources, calculate_tx_resources,
    da_gas_cost, get_da_gas_cost, matches_failure, tx_fee, tx_resources_mapping, calculate_tx_fee,
};
use crate::versioned_constants::VersionedConstants;

verus! {

/// A fee, in the fee token's smallest unit.
#[derive(Clone, Copy, Debug, Default, PartialEq, Eq, Structural)]
pub struct Fee(pub u128);

/// Sizes of a declared contract class.
#[derive(Clone, Copy, Debug, PartialEq, Eq, Structural)]
pub struct ClassInfo {
    pub bytecode_length: u64,
    pub sierra_program_length: u64,
    pub abi_length: u64,
}

/// Bytes of code posted for a class: 32 per bytecode and Sierra word, plus the ABI.
pub open spec fn code_size(c: ClassInfo) -> int {
    (c.bytecode_length + c.sierra_program_length) * 32 + c.abi_length
}

/// What the pipeline reads of the transaction and its block.
#[derive(Debug)]
pub struct TransactionContext {
    pub versioned_constants: VersionedConstants,
    pub sender_address: ContractAddress,
    /// Storage key of the sender's balance in the fee-token contract.
    pub sender_fee_balance_key: Felt,
    /// The fee-token contract of the transaction's fee type.
    pub fee_token_address: ContractAddress,
    pub enforce_fee: bool,
    pub use_kzg_da: bool,
    pub gas_price: u128,
}

/// Fee, data-availability gas and resources of one transaction.
#[derive(Debug)]
pub struct ActualCost {
    pub actual_fee: Fee,
    pub da_gas: GasVector,
    pub actual_resources: ResourcesMapping,
}

/// Why the actual cost of a transaction could not be computed.
#[derive(Debug)]
pub enum TransactionExecutionError {
    EmitEvent(EmitEventError),
    Resources(ResourcesError),
}

/// Staged accumulator of a transaction's cost inputs.
#[derive(Debug)]
pub struct ActualCostBuilder<'a> {
    pub tx_context: &'a TransactionContext,
    pub tx_type: TransactionType,
    pub starknet_resources: StarknetResources,
    pub validate_call_info: Option<CallInfo>,
    pub execute_call_info: Option<CallInfo>,
    pub state_changes: StateChanges,
    pub sender_address: Option<ContractAddress>,
    pub n_reverted_steps: u64,
}

impl ActualCost {
    /// The builder of an L1 handler transaction: its payload is its calldata, it has no
    /// signature (it is validated on L1) and no sender pays on L2.
    pub fn builder_for_l1_handler<'a>(tx_context: &'a TransactionContext, l1_handler_payload_size: u64) -> (r:
        ActualCostBuilder<'a>)
        ensures
            r.tx_context == tx_context,
            r.tx_type == TransactionType::L1Handler,
            r.spec_starknet_resources().calldata_length == l1_handler_payload_size,
            r.spec_starknet_resources().signature_length == 0,
            r.spec_starknet_resources().l1_handler_payload_size == Some(l1_handler_payload_size),
            r.spec_starknet_resources().code_size == 0,
            r.spec_sender_address() is None,
            r.spec_validate_call_info() is None,
            r.spec_execute_call_info() is None,
            r.spec_n_reverted_steps() == 0,
            r.spec_state_changes().wf(),
            r.spec_state_changes().storage_updates.len() == 0,
    {
        let signature_length: u64 = 0;
        ActualCostBuilder::new(tx_context, TransactionType::L1Handler, l1_handler_payload_size, signature_length)
            .without_sender_address()
            .with_l1_payload_size(l1_handler_payload_size)
    }
}

/// The L2 data of a transaction as billed: its counters, with the state-change counts and
/// the event and message totals filled in.
pub open spec fn billed_resources(
    r: StarknetResources,
    count: StateChangesCount,
    validate: Option<CallInfo>,
    execute: Option<CallInfo>,
) -> StarknetResources {
    StarknetResources {
        state_changes_count: count,
        total_event_keys: sum_keys(chained_events(validate, execute)) as u128,
        total_event_data: sum_data(chained_events(validate, execute)) as u128,
        total_message_payload: sum_lengths(chained_payloads(validate, execute)) as u128,
        ..r
    }
}

/// The same mapping with `extra` more steps.
pub open spec fn with_extra_steps(m: MappingCounts, extra: int) -> MappingCounts {
    MappingCounts { n_steps: m.n_steps + extra, ..m }
}

impl<'a> ActualCostBuilder<'a> {
    pub open spec fn spec_starknet_resources(&self) -> StarknetResources {
        self.starknet_resources
    }

    pub open spec fn spec_validate_call_info(&self) -> Option<CallInfo> {
        self.validate_call_info
    }

    pub open spec fn spec_execute_call_info(&self) -> Option<CallInfo> {
        self.execute_call_info
    }

    pub open spec fn spec_state_changes(&self) -> StateChanges {
        self.state_changes
    }

    pub open spec fn spec_sender_address(&self) -> Option<ContractAddress> {
        self.sender_address
    }

    pub open spec fn spec_n_reverted_steps(&self) -> u64 {
        self.n_reverted_steps
    }

    /// The sender's balance cell in the fee token, which the fee transfer will write.
    pub open spec fn spec_sender_balance_entry(&self) -> Option<StorageEntry> {
        match self.spec_sender_address() {
            Some(_) => Some(
                StorageEntry { address: self.tx_context.fee_token_address, key: self.tx_context.sender_fee_balance_key },
            ),
            None => None,
        }
    }

    /// State-change counts billed for data availability.
    pub open spec fn spec_count(&self) -> StateChangesCount {
        self.spec_state_changes().spec_fee_charge_count(self.spec_sender_balance_entry(), self.tx_context.fee_token_address)
    }

    /// The L2 data as billed.
    pub open spec fn spec_billed_resources(&self) -> StarknetResources {
        billed_resources(
            self.spec_starknet_resources(),
            self.spec_count(),
            self.spec_validate_call_info(),
            self.spec_execute_call_info(),
        )
    }

    /// Whether the fee is charged: fee enforcement is on, or the transaction comes from L1
    /// (its L2 fee is compared with the L1 fee).
    pub open spec fn spec_charges_fee(&self) -> bool {
        self.tx_context.enforce_fee || self.tx_type == TransactionType::L1Handler
    }

    /// A fresh accumulator: no calls, no state changes, no class, no reverted steps; the
    /// sender of the context pays.
    pub fn new(
        tx_context: &'a TransactionContext,
        tx_type: TransactionType,
        calldata_length: u64,
        signature_length: u64,
    ) -> (r: ActualCostBuilder<'a>)
        ensures
            r.tx_context == tx_context,
            r.tx_type == tx_type,
            r.spec_starknet_resources().calldata_length == calldata_length,
            r.spec_starknet_resources().signature_length == signature_length,
            r.spec_starknet_resources().l1_handler_payload_size is None,
            r.spec_starknet_resources().code_size == 0,
            r.spec_sender_address() == Some(tx_context.sender_address),
            r.spec_validate_call_info() is None,
            r.spec_execute_call_info() is None,
            r.spec_n_reverted_steps() == 0,
            r.spec_state_changes().wf(),
            r.spec_state_changes().storage_updates.len() == 0,
            r.spec_state_changes().nonce_updates.len() == 0,
            r.spec_state_changes().class_hash_updates.len() == 0,
            r.spec_state_changes().compiled_class_hash_updates.len() == 0,
    {
        ActualCostBuilder {
            starknet_resources: StarknetResources {
                calldata_length,
                signature_length,
                code_size: 0,
                l1_handler_payload_size: None,
                state_changes_count: StateChangesCount {
                    n_storage_updates: 0,
                    n_class_hash_updates: 0,
                    n_compiled_class_hash_updates: 0,
                    n_modified_contracts: 0,
                },
                total_event_keys: 0,
                total_event_data: 0,
                total_message_payload: 0,
            },
            sender_address: Some(tx_context.sender_address),
            tx_context,
            tx_type,
            validate_call_info: None,
            execute_call_info: None,
            state_changes: StateChanges::empty(),
            n_reverted_steps: 0,
        }
    }

    /// No sender pays on L2 (an L1 handler transaction).
    pub fn without_sender_address(self) -> (r: Self)
        ensures
            r.spec_sender_address() is None,
            r.tx_context == self.tx_context,
            r.tx_type == self.tx_type,
            r.spec_starknet_resources() == self.spec_starknet_resources(),
            r.spec_validate_call_info() == self.spec_validate_call_info(),
            r.spec_execute_call_info() == self.spec_execute_call_info(),
            r.spec_state_changes() == self.spec_state_changes(),
            r.spec_n_reverted_steps() == self.spec_n_reverted_steps(),
    {
        let mut builder = self;
        builder.sender_address = None;
        builder
    }

    /// Computes the transaction's actual cost and the resources the block's capacity
    /// accounting should count (those exclude reverted steps).
    pub fn build(self, execution_resources: &ResourceVector) -> (r: Result<(ActualCost, ResourcesMapping), TransactionExecutionError>)
        requires
            self.tx_context.versioned_constants.wf(),
            self.spec_state_changes().wf(),
            self.spec_state_changes().storage_updates.len() < u64::MAX,
            execution_resources.wf(),
        ensures
            ({
                let vc = self.tx_context.versioned_constants;
                let events = chained_events(self.spec_validate_call_info(), self.spec_execute_call_info());
                let mapping = tx_resources_mapping(
                    vc,
                    execution_resources@,
                    self.tx_type,
                    self.spec_billed_resources(),
                    self.tx_context.use_kzg_da,
                );
                match r {
                    Ok((cost, bouncer)) => {
                        &&& events_violation(events, vc.tx_event_limits) is None
                        &&& mapping == Some(bouncer@)
                        &&& cost.da_gas == da_gas_cost(self.spec_count(), self.tx_context.use_kzg_da)
                        &&& cost.actual_resources@ == with_extra_steps(bouncer@, self.spec_n_reverted_steps() as int)
                        &&& if self.spec_charges_fee() {
                            tx_fee(cost.actual_resources@, vc.spec_fee_costs(), self.tx_context.gas_price as int)
                                == Ok::<int, PricingFailure>(cost.actual_fee.0 as int)
                        } else {
                            cost.actual_fee.0 == 0
                        }
                    },
                    Err(TransactionExecutionError::EmitEvent(e)) => events_violation(events, vc.tx_event_limits) == Some(e),
                    Err(TransactionExecutionError::Resources(e)) => {
                        &&& events_violation(events, vc.tx_event_limits) is None
                        &&& match mapping {
                            None => e is Overflow,
                            Some(m) => self.spec_charges_fee() && (tx_fee(
                                with_extra_steps(m, self.spec_n_reverted_steps() as int),
                                vc.spec_fee_costs(),
                                self.tx_context.gas_price as int,
                            ) matches Err(f) && matches_failure(e, f)),
                        }
                    },
                }
            }),
    {
        self.calculate_actual_fee_and_resources(execution_resources)
    }

    /// Attaches the result of the validate call.
    pub fn with_validate_call_info(self, validate_call_info: Option<CallInfo>) -> (r: Self)
        ensures
            r.spec_validate_call_info() == validate_call_info,
            r.tx_context == self.tx_context,
            r.tx_type == self.tx_type,
            r.spec_starknet_resources() == self.spec_starknet_resources(),
            r.spec_execute_call_info() == self.spec_execute_call_info(),
            r.spec_state_changes() == self.spec_state_changes(),
            r.spec_sender_address() == self.spec_sender_address(),
            r.spec_n_reverted_steps() == self.spec_n_reverted_steps(),
    {
        let mut builder = self;
        builder.validate_call_info = validate_call_info;
        builder
    }

    /// Attaches the result of the execute call.
    pub fn with_execute_call_info(self, execute_call_info: Option<CallInfo>) -> (r: Self)
        ensures
            r.spec_execute_call_info() == execute_call_info,
            r.tx_context == self.tx_context,
            r.tx_type == self.tx_type,
            r.spec_starknet_resources() == self.spec_starknet_resources(),
            r.spec_validate_call_info() == self.spec_validate_call_info(),
            r.spec_state_changes() == self.spec_state_changes(),
            r.spec_sender_address() == self.spec_sender_address(),
            r.spec_n_reverted_steps() == self.spec_n_reverted_steps(),
    {
        let mut builder = self;
        builder.execute_call_info = execute_call_info;
        builder
    }

    /// Records the size of the class the transaction declares.
    pub fn with_class_info(self, class_info: ClassInfo) -> (r: Self)
        ensures
            r.spec_starknet_resources() == (StarknetResources { code_size: code_size(class_info) as u128, ..self.spec_starknet_resources() }),
            r.tx_context == self.tx_context,
            r.tx_type == self.tx_type,
            r.spec_validate_call_info() == self.spec_validate_call_info(),
            r.spec_execute_call_info() == self.spec_execute_call_info(),
            r.spec_state_changes() == self.spec_state_changes(),
            r.spec_sender_address() == self.spec_sender_address(),
            r.spec_n_reverted_steps() == self.spec_n_reverted_steps(),
    {
        let mut builder = self;
        let words = class_info.bytecode_length as u128 + class_info.sierra_program_length as u128;
        builder.starknet_resources.code_size = words * 32 + class_info.abi_length as u128;
        builder
    }

    /// Merges newly observed state changes into those already recorded.
    pub fn try_add_state_changes(self, new_state_changes: StateChanges) -> (r: Self)
        requires
            self.spec_state_changes().wf(),
            new_state_changes.wf(),
        ensures
            r.spec_state_changes().wf(),
            forall|x: StorageEntry| r.spec_state_changes().storage_updates@.contains(x) <==> (
                self.spec_state_changes().storage_updates@.contains(x) || new_state_changes.storage_updates@.contains(x)),
            forall|x: Felt| r.spec_state_changes().nonce_updates@.contains(x) <==> (
                self.spec_state_changes().nonce_updates@.contains(x) || new_state_changes.nonce_updates@.contains(x)),
            forall|x: Felt| r.spec_state_changes().class_hash_updates@.contains(x) <==> (
                self.spec_state_changes().class_hash_updates@.contains(x) || new_state_changes.class_hash_updates@.contains(x)),
            forall|x: Felt| r.spec_state_changes().compiled_class_hash_updates@.contains(x) <==> (
                self.spec_state_changes().compiled_class_hash_updates@.contains(x)
                    || new_state_changes.compiled_class_hash_updates@.contains(x)),
            r.tx_context == self.tx_context,
            r.tx_type == self.tx_type,
            r.spec_starknet_resources() == self.spec_starknet_resources(),
            r.spec_validate_call_info() == self.spec_validate_call_info(),
            r.spec_execute_call_info() == self.spec_execute_call_info(),
            r.spec_sender_address() == self.spec_sender_address(),
            r.spec_n_reverted_steps() == self.spec_n_reverted_steps(),
    {
        let mut builder = self;
        builder.state_changes = StateChanges::merge(&builder.state_changes, &new_state_changes);
        builder
    }

    /// Records the payload size of an L1 handler transaction.
    pub fn with_l1_payload_size(self, l1_payload_size: u64) -> (r: Self)
        ensures
            r.spec_starknet_resources() == (StarknetResources {
                l1_handler_payload_size: Some(l1_payload_size),
                ..self.spec_starknet_resources()
            }),
            r.tx_context == self.tx_context,
            r.tx_type == self.tx_type,
            r.spec_validate_call_info() == self.spec_validate_call_info(),
            r.spec_execute_call_info() == self.spec_execute_call_info(),
            r.spec_state_changes() == self.spec_state_changes(),
            r.spec_sender_address() == self.spec_sender_address(),
            r.spec_n_reverted_steps() == self.spec_n_reverted_steps(),
    {
        let mut builder = self;
        builder.starknet_resources.l1_handler_payload_size = Some(l1_payload_size);
        builder
    }

    /// Records the steps executed before the transaction reverted.
    pub fn with_reverted_steps(self, n_reverted_steps: u64) -> (r: Self)
        ensures
            r.spec_n_reverted_steps() == n_reverted_steps,
            r.tx_context == self.tx_context,
            r.tx_type == self.tx_type,
            r.spec_starknet_resources() == self.spec_starknet_resources(),
            r.spec_validate_call_info() == self.spec_validate_call_info(),
            r.spec_execute_call_info() == self.spec_execute_call_info(),
            r.spec_state_changes() == self.spec_state_changes(),
            r.spec_sender_address() == self.spec_sender_address(),
    {
        let mut builder = self;
        builder.n_reverted_steps = n_reverted_steps;
        builder
    }

    fn use_kzg_da(&self) -> (r: bool)
        ensures
            r == self.tx_context.use_kzg_da,
    {
        self.tx_context.use_kzg_da
    }

    fn calculate_actual_fee_and_resources(self, execution_resources: &ResourceVector) -> (r: Result<
        (ActualCost, ResourcesMapping),
        TransactionExecutionError,
    >)
        requires
            self.tx_context.versioned_constants.wf(),
            self.spec_state_changes().wf(),
            self.spec_state_changes().storage_updates.len() < u64::MAX,
            execution_resources.wf(),
        ensures
            ({
                let vc = self.tx_context.versioned_constants;
                let events = chained_events(self.spec_validate_call_info(), self.spec_execute_call_info());
                let mapping = tx_resources_mapping(
                    vc,
                    execution_resources@,
                    self.tx_type,
                    self.spec_billed_resources(),
                    self.tx_context.use_kzg_da,
                );
                match r {
                    Ok((cost, bouncer)) => {
                        &&& events_violation(events, vc.tx_event_limits) is None
                        &&& mapping == Some(bouncer@)
                        &&& cost.da_gas == da_gas_cost(self.spec_count(), self.tx_context.use_kzg_da)
                        &&& cost.actual_resources@ == with_extra_steps(bouncer@, self.spec_n_reverted_steps() as int)
                        &&& if self.spec_charges_fee() {
                            tx_fee(cost.actual_resources@, vc.spec_fee_costs(), self.tx_context.gas_price as int)
                                == Ok::<int, PricingFailure>(cost.actual_fee.0 as int)
                        } else {
                            cost.actual_fee.0 == 0
                        }
                    },
                    Err(TransactionExecutionError::EmitEvent(e)) => events_violation(events, vc.tx_event_limits) == Some(e),
                    Err(TransactionExecutionError::Resources(e)) => {
                        &&& events_violation(events, vc.tx_event_limits) is None
                        &&& match mapping {
                            None => e is Overflow,
                            Some(m) => self.spec_charges_fee() && (tx_fee(
                                with_extra_steps(m, self.spec_n_reverted_steps() as int),
                                vc.spec_fee_costs(),
                                self.tx_context.gas_price as int,
                            ) matches Err(f) && matches_failure(e, f)),
                        }
                    },
                }
            }),
    {
        let ghost old_self = self;
        let mut builder = self;
        let use_kzg_da = builder.use_kzg_da();
        let ctx = builder.tx_context;
        let vc = &ctx.versioned_constants;
        let sender_balance_entry = match builder.sender_address {
            Some(_) => Some(StorageEntry { address: ctx.fee_token_address, key: ctx.sender_fee_balance_key }),
            None => None,
        };
        let count = builder.state_changes.count_for_fee_charge(sender_balance_entry, ctx.fee_token_address);
        builder.starknet_resources.state_changes_count = count;
        let da_gas = get_da_gas_cost(&count, use_kzg_da);

        // Events and messages of the validate call, then of the execute call.
        let events = chain_events(&builder.validate_call_info, &builder.execute_call_info);
        if let Err(e) = check_event_limits(&events, &vc.tx_event_limits) {
            return Err(TransactionExecutionError::EmitEvent(e));
        }
        let payloads = chain_payloads(&builder.validate_call_info, &builder.execute_call_info);
        let (keys, data, payload) = event_and_message_totals(&events, &payloads);
        builder.starknet_resources.total_event_keys = keys;
        builder.starknet_resources.total_event_data = data;
        builder.starknet_resources.total_message_payload = payload;
        assert(builder.starknet_resources == old_self.spec_billed_resources());

        let bouncer_resources = match calculate_tx_resources(
            vc,
            execution_resources,
            builder.tx_type,
            &builder.starknet_resources,
            use_kzg_da,
        ) {
            Some(m) => m,
            None => return Err(TransactionExecutionError::Resources(ResourcesError::Overflow)),
        };

        // Reverted steps are billed, but do not count toward the block's capacity.
        let mut actual_resources = bouncer_resources.copy();
        actual_resources.n_steps = bouncer_resources.n_steps + builder.n_reverted_steps as u128;
        assert(actual_resources@ == with_extra_steps(bouncer_resources@, builder.n_reverted_steps as int)) by {
            assert(actual_resources@.builtins =~= bouncer_resources@.builtins);
        }

        let actual_fee = if ctx.enforce_fee || builder.tx_type == TransactionType::L1Handler {
            match calculate_tx_fee(&actual_resources, &vc.vm_resource_fee_cost, ctx.gas_price) {
                Ok(f) => Fee(f),
                Err(e) => return Err(TransactionExecutionError::Resources(e)),
            }
        } else {
            Fee(0)
        };
        Ok((ActualCost { actual_fee, da_gas, actual_resources }, bouncer_resources))
    }
}

} // verus!
