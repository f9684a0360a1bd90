//! Incremental CSV writer for blockchain checkpoint summaries.
//!
//! The library builds the exact text that one call of the writer appends to
//! (or replaces in) the destination file: an optional fixed header row and
//! one data row per checkpoint summary. The file itself is opened, written
//! and flushed by the surrounding program; every byte it writes comes from
//! here, with a proved contract.

pub mod encoding;
pub mod record;
pub mod writer;

pub use encoding::u64_to_string;
pub use record::CheckpointSummaryRecord;
pub use record::GasCostSummaryRecord;
pub use writer::apply_write;
pub use writer::encode_row;
