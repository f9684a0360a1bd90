//! The summary record whose fields make up one CSV data row.
//!
//! The ingestion framework hands each worker an opaque checkpoint value;
//! the surrounding program copies the fields the writer reads into this
//! plain record, so that the row-building logic can be verified over it.

use vstd::prelude::*;

verus! {

/// Aggregated gas figures of a checkpoint's epoch so far.
#[derive(Debug)]
pub struct GasCostSummaryRecord {
    pub computation_cost: u64,
    pub storage_cost: u64,
    pub storage_rebate: u64,
    pub non_refundable_storage_fee: u64,
}

/// The header-level metadata of one checkpoint: everything a CSV data row
/// is rendered from, except the per-checkpoint transaction count, which the
/// caller passes separately.
#[derive(Debug)]
pub struct CheckpointSummaryRecord {
    pub epoch: u64,
    pub sequence_number: u64,
    pub network_total_transactions: u64,
    /// The checkpoint content digest, as raw bytes; rendered in base58.
    pub content_digest: Vec<u8>,
    pub epoch_rolling_gas_cost_summary: GasCostSummaryRecord,
    pub timestamp_ms: u64,
}

} // verus!
