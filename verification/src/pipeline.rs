//! The record filter pipeline: per-record admission, the streaming fold
//! over a record sequence, and the shard-merge law.

use vstd::prelude::*;
use crate::histogram::{
    hist_add, hist_count, hist_merge, hist_total, lemma_hist_add_props, lemma_hist_canonical,
    lemma_hist_merge_props,
};
use crate::insert_size::{
    orientation_hist, spec_calculate, spec_pair_orientation, stats_add, stats_empty, stats_merge,
    stats_wf, determine_pair_orientation, InsertSizeCalculator, InsertSizeError, InsertSizeStats,
    MinPct, PairOrientation, StatsV, Strategy,
};
use crate::record::RecordInfo;

verus! {

/// Configuration of the admission test.
#[derive(Clone, Copy, Debug, PartialEq, Eq, Structural)]
pub struct FilterConfig {
    /// Admit records flagged as duplicates.
    pub include_duplicates: bool,
    /// Reject records not flagged as properly paired.
    pub require_proper_pair: bool,
}

/// The admission test: a record contributes one observation exactly when it
/// is paired, primary (neither secondary nor supplementary), not an excluded
/// duplicate, mapped together with its mate, on the same reference sequence
/// as its mate, properly paired when that is required, and the left-end
/// record of its pair (positive template length).
pub open spec fn spec_admits(record: RecordInfo, config: FilterConfig) -> bool {
    &&& record.is_segmented
    &&& !record.is_secondary
    &&& !record.is_supplementary
    &&& (config.include_duplicates || !record.is_duplicate)
    &&& !record.is_unmapped
    &&& !record.is_mate_unmapped
    &&& record.tid == record.mtid
    &&& (!config.require_proper_pair || record.is_properly_segmented)
    &&& record.template_length > 0
}

/// The statistics after one record: unchanged when the record is rejected,
/// one observation of `(orientation, template length)` when it is admitted.
pub open spec fn spec_step(m: StatsV, record: RecordInfo, config: FilterConfig) -> StatsV {
    if spec_admits(record, config) {
        stats_add(
            m,
            spec_pair_orientation(record.is_reverse, record.is_mate_reverse),
            record.template_length,
        )
    } else {
        m
    }
}

/// The statistics after one forward pass over a record sequence.
pub open spec fn stats_of(records: Seq<RecordInfo>, config: FilterConfig) -> StatsV
    decreases records.len(),
{
    if records.len() == 0 {
        stats_empty()
    } else {
        spec_step(stats_of(records.drop_last(), config), records.last(), config)
    }
}

/// Decides whether one record contributes an observation, applying the
/// admission tests in precedence order: the first failing test rejects.
pub fn admits(record: &RecordInfo, config: &FilterConfig) -> (admitted: bool)
    ensures
        admitted == spec_admits(*record, *config),
{
    if !record.is_segmented {
        return false;
    }
    if record.is_secondary || record.is_supplementary {
        return false;
    }
    if !config.include_duplicates && record.is_duplicate {
        return false;
    }
    if record.is_unmapped || record.is_mate_unmapped {
        return false;
    }
    if record.tid != record.mtid {
        return false;
    }
    if config.require_proper_pair && !record.is_properly_segmented {
        return false;
    }
    let template_length = record.template_length;
    if template_length <= 0 {
        return false;
    }
    // Defensive: the counted size cannot be zero once the template length
    // is known positive; kept as the final admission step nonetheless.
    if template_length == 0 {
        return false;
    }
    true
}

/// Feeds one record through the admission test and, when it is admitted,
/// records one observation of `(orientation, template length)`: exactly one
/// histogram increment and one total increment, and no other state change.
pub fn process_record(stats: &mut InsertSizeStats, record: &RecordInfo, config: &FilterConfig) -> (
    admitted: bool)
    requires
        old(stats)@.total < u32::MAX,
    ensures
        final(stats)@ == spec_step(old(stats)@, *record, *config),
        admitted == spec_admits(*record, *config),
{
    if admits(record, config) {
        let orientation = determine_pair_orientation(record.is_reverse, record.is_mate_reverse);
        stats.add_insert_size(orientation, record.template_length);
        true
    } else {
        false
    }
}

/// Runs the whole computation over a sequence of decoded records: one
/// forward pass of admission filtering and aggregation, then category
/// filtering, strategy selection and the median.
///
/// An invalid threshold is rejected before the records are touched.
pub fn compute_insert_size(
    records: &Vec<RecordInfo>,
    include_duplicates: bool,
    require_proper_pair: bool,
    min_pct: MinPct,
    orientation_pref: PairOrientation,
    strategy: Strategy,
) -> (result: Result<i32, InsertSizeError>)
    requires
        records@.len() <= u32::MAX,
    ensures
        result == spec_calculate(
            stats_of(records@, (FilterConfig { include_duplicates, require_proper_pair })),
            min_pct,
            orientation_pref,
            strategy,
        ),
{
    let config = FilterConfig { include_duplicates, require_proper_pair };
    if !(1 <= min_pct.denominator && 2 * (min_pct.numerator as u64) <= (
    min_pct.denominator as u64)) {
        return Err(InsertSizeError::InvalidMinPct);
    }
    let mut stats = InsertSizeStats::new();
    proof {
        assert(records@.take(0) =~= Seq::<RecordInfo>::empty());
    }
    let mut i: usize = 0;
    while i < records.len()
        invariant
            i <= records@.len(),
            records@.len() <= u32::MAX,
            stats@ == stats_of(records@.take(i as int), config),
            stats@.total <= i,
        decreases records@.len() - i,
    {
        proof {
            assert(records@.take(i + 1).drop_last() =~= records@.take(i as int));
            assert(records@.take(i + 1).last() == records@[i as int]);
        }
        process_record(&mut stats, &records[i], &config);
        i = i + 1;
    }
    proof {
        assert(records@.take(records@.len() as int) =~= records@);
    }
    InsertSizeCalculator::calculate(&stats, min_pct, orientation_pref, strategy)
}

/// Statistics folded from any record sequence are well-formed, and their
/// total never exceeds the number of records.
pub proof fn lemma_stats_of_wf(records: Seq<RecordInfo>, config: FilterConfig)
    requires
        records.len() <= u32::MAX,
    ensures
        stats_wf(stats_of(records, config)),
        stats_of(records, config).total <= records.len(),
    decreases records.len(),
{
    if records.len() == 0 {
        assert(hist_total(Seq::<(i32, u32)>::empty()) == 0);
    } else {
        lemma_stats_of_wf(records.drop_last(), config);
        let m = stats_of(records.drop_last(), config);
        let record = records.last();
        if spec_admits(record, config) {
            let orientation = spec_pair_orientation(record.is_reverse, record.is_mate_reverse);
            lemma_hist_add_props(
                orientation_hist(m, orientation),
                record.template_length,
                1,
            );
        }
    }
}

/// Populating statistics from the concatenation of two record sequences is
/// the same as populating them from each sequence independently and then
/// summing per orientation and per size: the shard-merge rule.
pub proof fn lemma_stats_of_concat(a: Seq<RecordInfo>, b: Seq<RecordInfo>, config: FilterConfig)
    requires
        a.len() + b.len() <= u32::MAX,
    ensures
        stats_of(a + b, config) == stats_merge(stats_of(a, config), stats_of(b, config)),
    decreases b.len(),
{
    let ma = stats_of(a, config);
    lemma_stats_of_wf(a, config);
    if b.len() == 0 {
        assert(a + b =~= a);
        assert(stats_merge(ma, stats_of(b, config)) =~= ma);
    } else {
        lemma_stats_of_concat(a, b.drop_last(), config);
        assert((a + b).drop_last() =~= a + b.drop_last());
        assert((a + b).last() == b.last());
        let mb = stats_of(b.drop_last(), config);
        lemma_stats_of_wf(b.drop_last(), config);
        let record = b.last();
        if spec_admits(record, config) {
            let orientation = spec_pair_orientation(record.is_reverse, record.is_mate_reverse);
            let size = record.template_length;
            let ha = orientation_hist(ma, orientation);
            let hb = orientation_hist(mb, orientation);
            lemma_hist_merge_props(ha, hb);
            lemma_hist_add_props(hist_merge(ha, hb), size, 1);
            lemma_hist_add_props(hb, size, 1);
            lemma_hist_merge_props(ha, hist_add(hb, size, 1));
            assert forall|k: int| #[trigger]
                hist_count(hist_add(hist_merge(ha, hb), size, 1), k) == hist_count(
                    hist_merge(ha, hist_add(hb, size, 1)),
                    k,
                ) by {}
            lemma_hist_canonical(
                hist_add(hist_merge(ha, hb), size, 1),
                hist_merge(ha, hist_add(hb, size, 1)),
            );
            assert(stats_of(a + b, config) =~= stats_merge(ma, stats_of(b, config)));
        } else {
            assert(stats_of(a + b, config) =~= stats_merge(ma, stats_of(b, config)));
        }
    }
}

/// Merging two independently populated statistics by per-cell summation and
/// then calculating yields the same result as one pass over the
/// concatenation of the two record subsets.
pub proof fn lemma_merge_then_calculate(
    a: Seq<RecordInfo>,
    b: Seq<RecordInfo>,
    config: FilterConfig,
    min_pct: MinPct,
    orientation_pref: PairOrientation,
    strategy: Strategy,
)
    requires
        a.len() + b.len() <= u32::MAX,
    ensures
        spec_calculate(
            stats_merge(stats_of(a, config), stats_of(b, config)),
            min_pct,
            orientation_pref,
            strategy,
        ) == spec_calculate(stats_of(a + b, config), min_pct, orientation_pref, strategy),
{
    lemma_stats_of_concat(a, b, config);
}

} // verus!
