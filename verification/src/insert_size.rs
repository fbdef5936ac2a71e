//! Insert-size aggregation and selection.
//!
//! Admitted observations are aggregated into one [`Histogram`] per read-pair
//! orientation, together with a running total of left-end records.  Once the
//! record stream is exhausted, [`InsertSizeCalculator::calculate`] filters
//! the orientation categories by a minimum-percentage threshold, picks one
//! category by policy, and reports the upper median of its histogram.

use vstd::prelude::*;
use crate::histogram::{
    hist_add, hist_count, hist_merge, hist_total, hist_wf, lemma_hist_add_props,
    lemma_hist_canonical, lemma_hist_merge_props, lemma_hist_total_take_le,
    lemma_hist_total_take_step, Histogram,
};

verus! {

/// Relative orientation of the two reads of a pair on the reference.
#[derive(Clone, Copy, Debug, PartialEq, Eq, Hash, Structural)]
pub enum PairOrientation {
    /// Forward-reverse orientation (the typical library preparation).
    Fr,
    /// Reverse-forward orientation.
    Rf,
    /// Both reads on the same strand.
    Tandem,
}

/// Policy by which the reported orientation category is chosen.
#[derive(Clone, Copy, Debug, PartialEq, Eq, Structural)]
pub enum Strategy {
    /// Use the category the caller asked for, or fail if it was filtered.
    Specific,
    /// Use the surviving category with the largest count.
    Dominant,
}

/// Minimum share a category must hold to survive filtering, as an exact
/// rational `numerator / denominator`.
///
/// A value is valid when the denominator is nonzero and the fraction is at
/// most one half; anything else is rejected as `InvalidMinPct`, since a
/// threshold above 50% could silently filter every category at once.
#[derive(Clone, Copy, Debug, PartialEq, Eq, Structural)]
pub struct MinPct {
    pub numerator: u32,
    pub denominator: u32,
}

/// The threshold lies in the closed interval from zero to one half.
pub open spec fn min_pct_valid(min_pct: MinPct) -> bool {
    1 <= min_pct.denominator && 2 * min_pct.numerator <= min_pct.denominator
}

/// `count / total >= min_pct`, stated without division.
pub open spec fn meets_threshold(count: nat, total: nat, min_pct: MinPct) -> bool {
    count * min_pct.denominator >= min_pct.numerator * total
}

/// A failure of the insert-size computation; every variant is terminal.
#[derive(Clone, Copy, Debug, PartialEq, Eq, Structural)]
pub enum InsertSizeError {
    /// After filtering, no left-end record with a positive template length
    /// was admitted at all.
    NoValidReads,
    /// Observations existed, but every orientation's share fell below the
    /// threshold.
    AllCategoriesFiltered { min_pct: MinPct },
    /// The specifically requested orientation did not survive filtering,
    /// even though other categories may have.
    OrientationFiltered { orientation: PairOrientation, min_pct: MinPct },
    /// The threshold lay outside the closed interval from zero to one half.
    InvalidMinPct,
}

/// Mathematical model of [`InsertSizeStats`]: one entry table per
/// orientation plus the running total of admitted left-end records.
#[verifier::ext_equal]
pub struct StatsV {
    pub fr: Seq<(i32, u32)>,
    pub rf: Seq<(i32, u32)>,
    pub tandem: Seq<(i32, u32)>,
    pub total: nat,
}

/// The model of freshly created statistics: all tables empty, total zero.
pub open spec fn stats_empty() -> StatsV {
    StatsV { fr: Seq::empty(), rf: Seq::empty(), tandem: Seq::empty(), total: 0 }
}

/// The entry table of one orientation.
pub open spec fn orientation_hist(m: StatsV, orientation: PairOrientation) -> Seq<(i32, u32)> {
    match orientation {
        PairOrientation::Fr => m.fr,
        PairOrientation::Rf => m.rf,
        PairOrientation::Tandem => m.tandem,
    }
}

/// Number of observations recorded for one orientation.
pub open spec fn orientation_count(m: StatsV, orientation: PairOrientation) -> nat {
    hist_total(orientation_hist(m, orientation))
}

/// The model after recording one observation of `size` for `orientation`.
pub open spec fn stats_add(m: StatsV, orientation: PairOrientation, size: i32) -> StatsV {
    match orientation {
        PairOrientation::Fr => StatsV {
            fr: hist_add(m.fr, size, 1),
            rf: m.rf,
            tandem: m.tandem,
            total: m.total + 1,
        },
        PairOrientation::Rf => StatsV {
            fr: m.fr,
            rf: hist_add(m.rf, size, 1),
            tandem: m.tandem,
            total: m.total + 1,
        },
        PairOrientation::Tandem => StatsV {
            fr: m.fr,
            rf: m.rf,
            tandem: hist_add(m.tandem, size, 1),
            total: m.total + 1,
        },
    }
}

/// Per-cell summation of two models: each orientation's table is merged
/// size by size, and the totals are added.
pub open spec fn stats_merge(a: StatsV, b: StatsV) -> StatsV {
    StatsV {
        fr: hist_merge(a.fr, b.fr),
        rf: hist_merge(a.rf, b.rf),
        tandem: hist_merge(a.tandem, b.tandem),
        total: a.total + b.total,
    }
}

/// Well-formedness of a model: each table well-formed and the total equal
/// to the sum of all histogram counts across the three orientations.
pub open spec fn stats_wf(m: StatsV) -> bool {
    &&& hist_wf(m.fr)
    &&& hist_wf(m.rf)
    &&& hist_wf(m.tandem)
    &&& m.total == hist_total(m.fr) + hist_total(m.rf) + hist_total(m.tandem)
    &&& m.total <= u32::MAX
}

/// Orientation of a pair from the two reverse-strand flags, following the
/// FR/RF/TANDEM convention of cumulative-histogram insert-size estimators.
pub open spec fn spec_pair_orientation(left_reverse: bool, right_reverse: bool) -> PairOrientation {
    if left_reverse == right_reverse {
        PairOrientation::Tandem
    } else if !left_reverse && right_reverse {
        PairOrientation::Fr
    } else {
        PairOrientation::Rf
    }
}

/// Classifies a pair by the reverse-strand flags of its two reads.
///
/// Only meaningful for the left-end record of a pair already known to have a
/// positive template length; callers must not invoke it for unpaired or
/// improper records.
pub fn determine_pair_orientation(left_reverse: bool, right_reverse: bool) -> (orientation:
    PairOrientation)
    ensures
        orientation == spec_pair_orientation(left_reverse, right_reverse),
{
    if left_reverse == right_reverse {
        PairOrientation::Tandem
    } else if !left_reverse && right_reverse {
        PairOrientation::Fr
    } else {
        PairOrientation::Rf
    }
}

/// Per-orientation insert-size histograms with a running total of admitted
/// left-end records.
pub struct InsertSizeStats {
    fr: Histogram,
    rf: Histogram,
    tandem: Histogram,
    total_left_records: u32,
}

impl View for InsertSizeStats {
    type V = StatsV;

    closed spec fn view(&self) -> StatsV {
        StatsV {
            fr: self.fr@,
            rf: self.rf@,
            tandem: self.tandem@,
            total: self.total_left_records as nat,
        }
    }
}

impl InsertSizeStats {
    #[verifier::type_invariant]
    spec fn wf(self) -> bool {
        stats_wf(self@)
    }

    /// Empty statistics: all three histograms present and empty.
    pub fn new() -> (stats: InsertSizeStats)
        ensures
            stats@ == stats_empty(),
    {
        proof {
            assert(hist_total(Seq::<(i32, u32)>::empty()) == 0);
        }
        let stats = InsertSizeStats {
            fr: Histogram::new(),
            rf: Histogram::new(),
            tandem: Histogram::new(),
            total_left_records: 0,
        };
        proof {
            assert(stats@ =~= stats_empty());
        }
        stats
    }

    /// Number of admitted left-end records so far.
    pub fn total_left_records(&self) -> (total: u32)
        ensures
            total == self@.total,
    {
        self.total_left_records
    }

    /// Read-only access to the histogram of one orientation.
    pub fn histogram(&self, orientation: PairOrientation) -> (histogram: &Histogram)
        ensures
            histogram@ == orientation_hist(self@, orientation),
    {
        match orientation {
            PairOrientation::Fr => &self.fr,
            PairOrientation::Rf => &self.rf,
            PairOrientation::Tandem => &self.tandem,
        }
    }

    /// Records one observation: one histogram increment and one increment of
    /// the running total, and no other change.
    pub fn add_insert_size(&mut self, orientation: PairOrientation, size: i32)
        requires
            old(self)@.total < u32::MAX,
            1 <= size,
        ensures
            final(self)@ == stats_add(old(self)@, orientation, size),
    {
        proof {
            use_type_invariant(&*self);
        }
        let ghost m0 = self@;
        let mut taken = InsertSizeStats::new();
        std::mem::swap(&mut taken, self);
        let InsertSizeStats { mut fr, mut rf, mut tandem, total_left_records } = taken;
        proof {
            lemma_hist_add_props(orientation_hist(m0, orientation), size, 1);
        }
        match orientation {
            PairOrientation::Fr => fr.add_count(size, 1),
            PairOrientation::Rf => rf.add_count(size, 1),
            PairOrientation::Tandem => tandem.add_count(size, 1),
        }
        let updated = InsertSizeStats { fr, rf, tandem, total_left_records: total_left_records + 1 };
        proof {
            assert(updated@ =~= stats_add(m0, orientation, size));
        }
        *self = updated;
    }

    /// Adds every observation of `other` into `self`, per orientation and
    /// per size, and adds the running totals: the merge rule for
    /// independently populated statistics.
    pub fn merge(&mut self, other: &InsertSizeStats)
        requires
            old(self)@.total + other@.total <= u32::MAX,
        ensures
            final(self)@ == stats_merge(old(self)@, other@),
    {
        proof {
            use_type_invariant(&*self);
            use_type_invariant(other);
        }
        let ghost m0 = self@;
        let ghost m1 = other@;
        let mut taken = InsertSizeStats::new();
        std::mem::swap(&mut taken, self);
        let InsertSizeStats { mut fr, mut rf, mut tandem, total_left_records } = taken;
        proof {
            lemma_hist_merge_props(m0.fr, m1.fr);
            lemma_hist_merge_props(m0.rf, m1.rf);
            lemma_hist_merge_props(m0.tandem, m1.tandem);
        }
        fr.merge_from(&other.fr);
        rf.merge_from(&other.rf);
        tandem.merge_from(&other.tandem);
        let total = total_left_records + other.total_left_records;
        let updated = InsertSizeStats { fr, rf, tandem, total_left_records: total };
        proof {
            assert(updated@ =~= stats_merge(m0, m1));
        }
        *self = updated;
    }
}

impl Default for InsertSizeStats {
    /// Same as [`InsertSizeStats::new`].
    fn default() -> (stats: Self)
        ensures
            stats@ == stats_empty(),
    {
        Self::new()
    }
}

/// For every reachable statistics value, the running total of left-end
/// records equals the sum of all histogram counts across the three
/// orientations — the invariant holds after any sequence of
/// `add_insert_size` calls.  (An executable function, since the hidden type
/// invariant can only be recovered from a live value.)
pub fn lemma_total_is_sum(stats: &InsertSizeStats)
    ensures
        stats_wf(stats@),
        stats@.total == hist_total(stats@.fr) + hist_total(stats@.rf) + hist_total(stats@.tandem),
{
    proof {
        use_type_invariant(stats);
    }
}

/// Per-cell summation of statistics is symmetric in its two operands.
pub proof fn lemma_stats_merge_commutes(a: StatsV, b: StatsV)
    requires
        stats_wf(a),
        stats_wf(b),
        a.total + b.total <= u32::MAX,
    ensures
        stats_merge(a, b) == stats_merge(b, a),
{
    lemma_hist_merge_props(a.fr, b.fr);
    lemma_hist_merge_props(b.fr, a.fr);
    assert forall|k: int| #[trigger]
        hist_count(hist_merge(a.fr, b.fr), k) == hist_count(hist_merge(b.fr, a.fr), k) by {}
    lemma_hist_canonical(hist_merge(a.fr, b.fr), hist_merge(b.fr, a.fr));
    lemma_hist_merge_props(a.rf, b.rf);
    lemma_hist_merge_props(b.rf, a.rf);
    assert forall|k: int| #[trigger]
        hist_count(hist_merge(a.rf, b.rf), k) == hist_count(hist_merge(b.rf, a.rf), k) by {}
    lemma_hist_canonical(hist_merge(a.rf, b.rf), hist_merge(b.rf, a.rf));
    lemma_hist_merge_props(a.tandem, b.tandem);
    lemma_hist_merge_props(b.tandem, a.tandem);
    assert forall|k: int| #[trigger]
        hist_count(hist_merge(a.tandem, b.tandem), k) == hist_count(
            hist_merge(b.tandem, a.tandem),
            k,
        ) by {}
    lemma_hist_canonical(hist_merge(a.tandem, b.tandem), hist_merge(b.tandem, a.tandem));
    assert(stats_merge(a, b) =~= stats_merge(b, a));
}

/// Result of scanning a sorted entry table for the first size whose running
/// cumulative count reaches `threshold`, starting at index `i` with
/// cumulative count `running`; the last size present is the fallback.
pub open spec fn median_scan(s: Seq<(i32, u32)>, threshold: int, i: int, running: int) -> i32
    decreases s.len() - i,
{
    if i < 0 || i >= s.len() {
        0
    } else if running + s[i].1 >= threshold || i == s.len() - 1 {
        s[i].0
    } else {
        median_scan(s, threshold, i + 1, running + s[i].1)
    }
}

/// The upper median of a histogram: the first size, in ascending order, at
/// which the cumulative count reaches `ceil(total / 2)`; `0` for an empty
/// histogram.
pub open spec fn spec_median(s: Seq<(i32, u32)>) -> i32 {
    if s.len() == 0 {
        0
    } else {
        median_scan(s, ((hist_total(s) + 1) / 2) as int, 0, 0)
    }
}

proof fn lemma_median_scan_reaches(s: Seq<(i32, u32)>, threshold: int, i: int, running: int)
    requires
        0 <= i < s.len(),
        running == hist_total(s.take(i)),
        threshold <= hist_total(s),
    ensures
        exists|j: int|
            i <= j < s.len() && (#[trigger] s[j]).0 == median_scan(s, threshold, i, running)
                && hist_total(s.take(j + 1)) >= threshold,
    decreases s.len() - i,
{
    lemma_hist_total_take_step(s, i);
    if running + s[i].1 >= threshold {
        assert(s[i].0 == median_scan(s, threshold, i, running) && hist_total(s.take(i + 1))
            >= threshold);
    } else if i == s.len() - 1 {
        assert(s.take(i + 1) =~= s);
        assert(false);
    } else {
        lemma_median_scan_reaches(s, threshold, i + 1, running + s[i].1);
    }
}

/// The reported median of a nonempty histogram is a size present in it at
/// which the cumulative count reaches the upper-median threshold
/// `ceil(total / 2)`: the scan always reaches the threshold, and its
/// defensive fallback to the largest size never decides.
pub proof fn lemma_median_reaches_threshold(s: Seq<(i32, u32)>)
    requires
        hist_wf(s),
        s.len() > 0,
    ensures
        exists|j: int|
            0 <= j < s.len() && (#[trigger] s[j]).0 == spec_median(s) && hist_total(s.take(j + 1))
                >= (hist_total(s) + 1) / 2,
{
    assert(hist_total(s) >= 1) by {
        assert(hist_total(s) == (s[0].1 as nat) + hist_total(s.drop_first()));
    }
    assert(s.take(0) =~= Seq::<(i32, u32)>::empty());
    assert(hist_total(Seq::<(i32, u32)>::empty()) == 0);
    lemma_median_scan_reaches(s, ((hist_total(s) + 1) / 2) as int, 0, 0);
}

/// Computes the reported insert size from completed statistics.
pub struct InsertSizeCalculator;

impl InsertSizeCalculator {
    /// Cumulative-frequency upper median of one histogram.
    ///
    /// Returns `0` for an empty histogram (a sentinel for "no data";
    /// callers invoke this only on histograms with nonzero total).
    /// Otherwise accumulates counts over the sizes in ascending order and
    /// returns the first size at which the running count reaches
    /// `ceil(total / 2)` — the upper-median convention, not a mean of two
    /// middle values.
    pub fn calculate_median_from_counts(counts: &Histogram) -> (median: i32)
        ensures
            median == spec_median(counts@),
    {
        let ghost s = counts@;
        let entries = counts.entries();
        if entries.len() == 0 {
            return 0;
        }
        let total: u64 = counts.total_count();
        let threshold: u64 = (total + 1) / 2;
        let mut running: u64 = 0;
        let mut i: usize = 0;
        while i < entries.len() - 1
            invariant
                entries@ == s,
                counts@ == s,
                s.len() > 0,
                i < s.len(),
                total == hist_total(s),
                hist_total(s) <= u32::MAX,
                threshold == ((hist_total(s) + 1) / 2) as int,
                running == hist_total(s.take(i as int)),
                spec_median(s) == median_scan(s, threshold as int, i as int, running as int),
            decreases s.len() - i,
        {
            proof {
                lemma_hist_total_take_step(s, i as int);
                lemma_hist_total_take_le(s, i + 1);
            }
            let count = entries[i].1;
            if running + (count as u64) >= threshold {
                proof {
                    assert(median_scan(s, threshold as int, i as int, running as int) == s[
                        i as int].0);
                }
                return entries[i].0;
            }
            running = running + (count as u64);
            i = i + 1;
        }
        // The loop leaves the last entry: its size is returned whether or
        // not the threshold was reached there (defensively, the largest
        // size present; the threshold is in fact always reached).
        entries[i].0
    }

    /// `count / total >= min_pct`, in exact integer arithmetic.
    fn meets_min_pct(count: u64, total: u32, min_pct: MinPct) -> (met: bool)
        requires
            count <= u32::MAX,
        ensures
            met == meets_threshold(count as nat, total as nat, min_pct),
    {
        proof {
            assert((count as int) * (min_pct.denominator as int) <= 0xffff_ffff * 0xffff_ffff)
                by (nonlinear_arith)
                requires
                    count <= 0xffff_ffff,
                    min_pct.denominator <= 0xffff_ffff,
            ;
            assert((min_pct.numerator as int) * (total as int) <= 0xffff_ffff * 0xffff_ffff)
                by (nonlinear_arith)
                requires
                    min_pct.numerator <= 0xffff_ffff,
                    total <= 0xffff_ffff,
            ;
        }
        count * (min_pct.denominator as u64) >= (min_pct.numerator as u64) * (total as u64)
    }

    /// Filters the three orientation categories by `min_pct`, picks one by
    /// `strategy`, and reports the upper median of its histogram.
    ///
    /// Fails with `InvalidMinPct` when the threshold is above one half,
    /// with `NoValidReads` when no observation was admitted, with
    /// `AllCategoriesFiltered` when every nonzero category's share is below
    /// the threshold, and — under `Specific` — with `OrientationFiltered`
    /// when the requested orientation was filtered, even though others may
    /// have survived.  Ties under `Dominant` go to the earliest orientation
    /// in the fixed order `Fr`, `Rf`, `Tandem`.
    pub fn calculate(
        stats: &InsertSizeStats,
        min_pct: MinPct,
        orientation_pref: PairOrientation,
        strategy: Strategy,
    ) -> (result: Result<i32, InsertSizeError>)
        ensures
            result == spec_calculate(stats@, min_pct, orientation_pref, strategy),
    {
        if !(1 <= min_pct.denominator && 2 * (min_pct.numerator as u64) <= (
        min_pct.denominator as u64)) {
            return Err(InsertSizeError::InvalidMinPct);
        }
        let total = stats.total_left_records();
        if total == 0 {
            return Err(InsertSizeError::NoValidReads);
        }
        let count_fr = stats.histogram(PairOrientation::Fr).total_count();
        let count_rf = stats.histogram(PairOrientation::Rf).total_count();
        let count_tandem = stats.histogram(PairOrientation::Tandem).total_count();
        let surv_fr = count_fr > 0 && Self::meets_min_pct(count_fr, total, min_pct);
        let surv_rf = count_rf > 0 && Self::meets_min_pct(count_rf, total, min_pct);
        let surv_tandem = count_tandem > 0 && Self::meets_min_pct(count_tandem, total, min_pct);
        if !surv_fr && !surv_rf && !surv_tandem {
            return Err(InsertSizeError::AllCategoriesFiltered { min_pct });
        }
        match strategy {
            Strategy::Specific => {
                let surv_pref = match orientation_pref {
                    PairOrientation::Fr => surv_fr,
                    PairOrientation::Rf => surv_rf,
                    PairOrientation::Tandem => surv_tandem,
                };
                if surv_pref {
                    Ok(Self::calculate_median_from_counts(stats.histogram(orientation_pref)))
                } else {
                    Err(InsertSizeError::OrientationFiltered { orientation: orientation_pref, min_pct })
                }
            },
            Strategy::Dominant => {
                let dominant = if surv_fr && (!surv_rf || count_fr >= count_rf) && (!surv_tandem
                    || count_fr >= count_tandem) {
                    PairOrientation::Fr
                } else if surv_rf && (!surv_tandem || count_rf >= count_tandem) {
                    PairOrientation::Rf
                } else {
                    PairOrientation::Tandem
                };
                Ok(Self::calculate_median_from_counts(stats.histogram(dominant)))
            },
        }
    }
}

/// A category survives filtering when it has at least one observation and
/// its share of the total is at least the threshold.
pub open spec fn survives(m: StatsV, orientation: PairOrientation, min_pct: MinPct) -> bool {
    orientation_count(m, orientation) > 0 && meets_threshold(
        orientation_count(m, orientation),
        m.total,
        min_pct,
    )
}

/// The surviving orientation with the largest count; ties go to the
/// earliest orientation in the fixed order `Fr`, `Rf`, `Tandem`.  Only
/// meaningful when at least one orientation survives.
pub open spec fn spec_dominant(m: StatsV, min_pct: MinPct) -> PairOrientation {
    if survives(m, PairOrientation::Fr, min_pct) && (!survives(m, PairOrientation::Rf, min_pct)
        || orientation_count(m, PairOrientation::Fr) >= orientation_count(m, PairOrientation::Rf))
        && (!survives(m, PairOrientation::Tandem, min_pct) || orientation_count(
        m,
        PairOrientation::Fr,
    ) >= orientation_count(m, PairOrientation::Tandem)) {
        PairOrientation::Fr
    } else if survives(m, PairOrientation::Rf, min_pct) && (!survives(
        m,
        PairOrientation::Tandem,
        min_pct,
    ) || orientation_count(m, PairOrientation::Rf) >= orientation_count(
        m,
        PairOrientation::Tandem,
    )) {
        PairOrientation::Rf
    } else {
        PairOrientation::Tandem
    }
}

/// The whole selection policy as a function of the model: threshold
/// validation, then the no-data check, then percentage filtering, then
/// strategy selection, then the median of the selected histogram.
pub open spec fn spec_calculate(
    m: StatsV,
    min_pct: MinPct,
    orientation_pref: PairOrientation,
    strategy: Strategy,
) -> Result<i32, InsertSizeError> {
    if !min_pct_valid(min_pct) {
        Err(InsertSizeError::InvalidMinPct)
    } else if m.total == 0 {
        Err(InsertSizeError::NoValidReads)
    } else if !survives(m, PairOrientation::Fr, min_pct) && !survives(
        m,
        PairOrientation::Rf,
        min_pct,
    ) && !survives(m, PairOrientation::Tandem, min_pct) {
        Err(InsertSizeError::AllCategoriesFiltered { min_pct })
    } else {
        match strategy {
            Strategy::Specific => if survives(m, orientation_pref, min_pct) {
                Ok(spec_median(orientation_hist(m, orientation_pref)))
            } else {
                Err(InsertSizeError::OrientationFiltered { orientation: orientation_pref, min_pct })
            },
            Strategy::Dominant => Ok(spec_median(orientation_hist(m, spec_dominant(m, min_pct)))),
        }
    }
}

/// Re-running the calculation on an unmodified statistics value with
/// identical arguments yields an identical result: by the contract of
/// [`InsertSizeCalculator::calculate`], every run returns exactly
/// `spec_calculate` of its inputs.
pub proof fn lemma_calculate_deterministic(
    r1: Result<i32, InsertSizeError>,
    r2: Result<i32, InsertSizeError>,
    m: StatsV,
    min_pct: MinPct,
    orientation_pref: PairOrientation,
    strategy: Strategy,
)
    requires
        r1 == spec_calculate(m, min_pct, orientation_pref, strategy),
        r2 == spec_calculate(m, min_pct, orientation_pref, strategy),
    ensures
        r1 == r2,
{
}

} // verus!
