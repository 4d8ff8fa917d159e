//! Deterministic cost accounting for layer-2 transactions: versioned protocol
//! constants, resource formulas, and the per-transaction actual-cost pipeline.

use vstd::prelude::*;

pub mod actual_cost;
pub mod call_info;
pub mod gas_costs;
pub mod gas_table;
pub mod kinds;
pub mod os_resources;
pub mod resources;
pub mod state_changes;
pub mod tx_resources;
pub mod versioned_constants;

verus! {

} // verus!
