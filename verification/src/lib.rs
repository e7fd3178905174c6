//! Verified domain logic of the Voletu logistics core: document rules, inventory
//! ledger arithmetic, synchronisation merge rules and query specifications.
use vstd::prelude::*;

pub mod await_cycle;
pub mod base_ids;
pub mod cargo_flow;
pub mod enums;
pub mod errors;
pub mod execution;
pub mod flat_laws;
pub mod flat_rows;
pub mod flow;
pub mod flow_laws;
pub mod jwt;
pub mod ledger;
pub mod models;
pub mod pipelines;
pub mod quantity;
pub mod query;
pub mod restore;
pub mod rules;
pub mod selection;
pub mod sync_helpers;
pub mod sync_merge;
pub mod updates;

verus! {

} // verus!
