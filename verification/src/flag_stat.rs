//! Per-record flag classification tallies ("flagstat").

use vstd::prelude::*;
use crate::record::RecordInfo;

verus! {

/// Tallies of alignment-record flag classes over a record stream.
///
/// Records that failed quality control are skipped entirely and counted
/// nowhere.
#[derive(Clone, Copy, Debug, PartialEq, Eq, Structural)]
pub struct FlagStat {
    /// Records counted (all that did not fail quality control).
    pub total: u64,
    /// Neither secondary nor supplementary.
    pub primary: u64,
    /// Secondary alignments.
    pub secondary: u64,
    /// Supplementary alignments.
    pub supplementary: u64,
    /// Flagged as duplicates.
    pub duplicate: u64,
    /// Mapped records.
    pub mapped: u64,
    /// Mapped and primary.
    pub primary_mapped: u64,
}

/// No tally can exceed the number of counted records.
pub open spec fn flag_stat_wf(stat: FlagStat) -> bool {
    &&& stat.primary <= stat.total
    &&& stat.secondary <= stat.total
    &&& stat.supplementary <= stat.total
    &&& stat.duplicate <= stat.total
    &&& stat.mapped <= stat.total
    &&& stat.primary_mapped <= stat.total
}

impl FlagStat {
    /// All tallies zero.
    pub fn new() -> (stat: FlagStat)
        ensures
            stat.total == 0,
            stat.primary == 0,
            stat.secondary == 0,
            stat.supplementary == 0,
            stat.duplicate == 0,
            stat.mapped == 0,
            stat.primary_mapped == 0,
            flag_stat_wf(stat),
    {
        FlagStat {
            total: 0,
            primary: 0,
            secondary: 0,
            supplementary: 0,
            duplicate: 0,
            mapped: 0,
            primary_mapped: 0,
        }
    }

    /// Counts one record into each tally whose class it belongs to; a
    /// record that failed quality control changes nothing.
    pub fn update(&mut self, record: &RecordInfo)
        requires
            flag_stat_wf(*old(self)),
            old(self).total < u64::MAX,
        ensures
            flag_stat_wf(*final(self)),
            record.is_qc_fail ==> *final(self) == *old(self),
            !record.is_qc_fail ==> final(self).total == old(self).total + 1,
            !record.is_qc_fail ==> final(self).primary == old(self).primary + (if !(
            record.is_secondary || record.is_supplementary) {
                1int
            } else {
                0int
            }),
            !record.is_qc_fail ==> final(self).secondary == old(self).secondary + (
            if record.is_secondary {
                1int
            } else {
                0int
            }),
            !record.is_qc_fail ==> final(self).supplementary == old(self).supplementary + (
            if record.is_supplementary {
                1int
            } else {
                0int
            }),
            !record.is_qc_fail ==> final(self).duplicate == old(self).duplicate + (
            if record.is_duplicate {
                1int
            } else {
                0int
            }),
            !record.is_qc_fail ==> final(self).mapped == old(self).mapped + (
            if !record.is_unmapped {
                1int
            } else {
                0int
            }),
            !record.is_qc_fail ==> final(self).primary_mapped == old(self).primary_mapped + (if !record.is_unmapped
                && !(record.is_secondary || record.is_supplementary) {
                1int
            } else {
                0int
            }),
    {
        if record.is_qc_fail {
            return ;
        }
        self.total = self.total + 1;
        if !(record.is_secondary || record.is_supplementary) {
            self.primary = self.primary + 1;
        }
        if record.is_secondary {
            self.secondary = self.secondary + 1;
        }
        if record.is_supplementary {
            self.supplementary = self.supplementary + 1;
        }
        if record.is_duplicate {
            self.duplicate = self.duplicate + 1;
        }
        if !record.is_unmapped {
            self.mapped = self.mapped + 1;
        }
        if !record.is_unmapped && !(record.is_secondary || record.is_supplementary) {
            self.primary_mapped = self.primary_mapped + 1;
        }
    }
}

} // verus!
