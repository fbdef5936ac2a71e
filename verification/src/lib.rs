//! Alignment quality-control metrics: per-record flag tallies and a
//! Picard-compatible insert-size median broken down by read-pair orientation.
//!
//! The crate operates purely on in-memory values: decoded alignment records
//! are handed in as plain [`record::RecordInfo`] values, admitted
//! observations are aggregated into per-orientation histograms, and a single
//! reported insert size is selected under a configurable filtering and
//! selection policy.

pub mod flag_stat;
pub mod histogram;
pub mod insert_size;
pub mod pipeline;
pub mod record;

pub use flag_stat::FlagStat;
pub use histogram::Histogram;
pub use insert_size::{
    determine_pair_orientation, InsertSizeCalculator, InsertSizeError, InsertSizeStats, MinPct,
    PairOrientation, Strategy,
};
pub use pipeline::{admits, compute_insert_size, process_record, FilterConfig};
pub use record::RecordInfo;
