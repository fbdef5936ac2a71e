//! Plain-value model of a decoded alignment record.
//!
//! An upstream reader decodes alignment records and exposes per-record flag
//! predicates and fields; this crate consumes them as one plain value per
//! record, so that every decision taken on a record is a function of the
//! fields below.

use vstd::prelude::*;

verus! {

/// The flags and fields of one decoded alignment record that the metrics
/// read: flag predicates, the reference sequence id of the record and of
/// its mate (negative when unavailable), and the signed template length.
#[derive(Clone, Copy, Debug, PartialEq, Eq, Structural)]
pub struct RecordInfo {
    /// Part of a segmented (paired) template.
    pub is_segmented: bool,
    /// Flagged by the aligner as a properly-paired template.
    pub is_properly_segmented: bool,
    /// The record's own alignment is unmapped.
    pub is_unmapped: bool,
    /// The mate's alignment is unmapped.
    pub is_mate_unmapped: bool,
    /// The record's read aligns to the reverse strand.
    pub is_reverse: bool,
    /// The mate's read aligns to the reverse strand.
    pub is_mate_reverse: bool,
    /// Secondary alignment.
    pub is_secondary: bool,
    /// Failed the platform's quality control.
    pub is_qc_fail: bool,
    /// Flagged as a duplicate.
    pub is_duplicate: bool,
    /// Supplementary alignment.
    pub is_supplementary: bool,
    /// Reference sequence id of the record (negative when unavailable).
    pub tid: i32,
    /// Reference sequence id of the mate (negative when unavailable).
    pub mtid: i32,
    /// Signed template length; the left-end record of a pair carries the
    /// positive value.
    pub template_length: i32,
}

} // verus!
