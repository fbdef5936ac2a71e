use bamqc::insert_size::{
    InsertSizeCalculator, InsertSizeError, InsertSizeStats, MinPct, PairOrientation, Strategy,
};
use bamqc::histogram::Histogram;
use bamqc::pipeline::{admits, compute_insert_size, process_record, FilterConfig};
use bamqc::record::RecordInfo;
use bamqc::determine_pair_orientation;

fn admitted_record(template_length: i32, is_reverse: bool, is_mate_reverse: bool) -> RecordInfo {
    RecordInfo {
        is_segmented: true,
        is_properly_segmented: true,
        is_unmapped: false,
        is_mate_unmapped: false,
        is_reverse,
        is_mate_reverse,
        is_secondary: false,
        is_qc_fail: false,
        is_duplicate: false,
        is_supplementary: false,
        tid: 0,
        mtid: 0,
        template_length,
    }
}

fn pct(numerator: u32, denominator: u32) -> MinPct {
    MinPct { numerator, denominator }
}

fn stats_with(counts: &[(PairOrientation, i32, u32)]) -> InsertSizeStats {
    let mut stats = InsertSizeStats::new();
    for &(orientation, size, count) in counts {
        for _ in 0..count {
            stats.add_insert_size(orientation, size);
        }
    }
    stats
}

#[test]
fn classify_forward_reverse() {
    assert_eq!(determine_pair_orientation(false, true), PairOrientation::Fr);
}

#[test]
fn classify_reverse_forward() {
    assert_eq!(determine_pair_orientation(true, false), PairOrientation::Rf);
}

#[test]
fn classify_tandem_both_reverse() {
    assert_eq!(determine_pair_orientation(true, true), PairOrientation::Tandem);
}

#[test]
fn classify_tandem_both_forward() {
    assert_eq!(determine_pair_orientation(false, false), PairOrientation::Tandem);
}

#[test]
fn median_of_three_distinct_sizes() {
    let mut histogram = Histogram::new();
    histogram.add_count(100, 1);
    histogram.add_count(200, 1);
    histogram.add_count(300, 1);
    assert_eq!(InsertSizeCalculator::calculate_median_from_counts(&histogram), 200);
}

#[test]
fn median_of_two_sizes_is_upper_median() {
    let mut histogram = Histogram::new();
    histogram.add_count(100, 1);
    histogram.add_count(200, 1);
    assert_eq!(InsertSizeCalculator::calculate_median_from_counts(&histogram), 100);
}

#[test]
fn median_of_empty_histogram_is_zero() {
    let histogram = Histogram::new();
    assert_eq!(InsertSizeCalculator::calculate_median_from_counts(&histogram), 0);
}

#[test]
fn median_respects_counts_not_just_sizes() {
    // total 6, threshold 3: the cumulative count reaches 3 at size 10.
    let mut histogram = Histogram::new();
    histogram.add_count(20, 2);
    histogram.add_count(10, 3);
    histogram.add_count(30, 1);
    assert_eq!(InsertSizeCalculator::calculate_median_from_counts(&histogram), 10);
}

#[test]
fn median_insertion_order_is_irrelevant() {
    let mut a = Histogram::new();
    a.add_count(300, 1);
    a.add_count(100, 1);
    a.add_count(200, 1);
    let mut b = Histogram::new();
    b.add_count(100, 1);
    b.add_count(200, 1);
    b.add_count(300, 1);
    assert_eq!(a.entries(), b.entries());
    assert_eq!(
        InsertSizeCalculator::calculate_median_from_counts(&a),
        InsertSizeCalculator::calculate_median_from_counts(&b),
    );
}

#[test]
fn histogram_entries_stay_sorted_and_merged() {
    let mut histogram = Histogram::new();
    histogram.add_count(50, 1);
    histogram.add_count(10, 2);
    histogram.add_count(50, 3);
    histogram.add_count(20, 1);
    assert_eq!(histogram.entries().as_slice(), &[(10, 2), (20, 1), (50, 4)]);
    assert_eq!(histogram.total_count(), 7);
}

#[test]
fn total_left_records_is_sum_of_histogram_counts() {
    let stats = stats_with(&[
        (PairOrientation::Fr, 100, 4),
        (PairOrientation::Rf, 250, 2),
        (PairOrientation::Tandem, 70, 1),
    ]);
    let sum = stats.histogram(PairOrientation::Fr).total_count()
        + stats.histogram(PairOrientation::Rf).total_count()
        + stats.histogram(PairOrientation::Tandem).total_count();
    assert_eq!(stats.total_left_records() as u64, sum);
    assert_eq!(stats.total_left_records(), 7);
}

#[test]
fn calculate_rejects_min_pct_above_one_half() {
    let stats = stats_with(&[(PairOrientation::Fr, 100, 10)]);
    let result = InsertSizeCalculator::calculate(
        &stats,
        pct(3, 5),
        PairOrientation::Fr,
        Strategy::Specific,
    );
    assert_eq!(result, Err(InsertSizeError::InvalidMinPct));
}

#[test]
fn calculate_rejects_zero_denominator() {
    let stats = stats_with(&[(PairOrientation::Fr, 100, 10)]);
    let result = InsertSizeCalculator::calculate(
        &stats,
        pct(0, 0),
        PairOrientation::Fr,
        Strategy::Specific,
    );
    assert_eq!(result, Err(InsertSizeError::InvalidMinPct));
}

#[test]
fn calculate_fails_without_any_observation() {
    let stats = InsertSizeStats::new();
    let result = InsertSizeCalculator::calculate(
        &stats,
        pct(1, 20),
        PairOrientation::Fr,
        Strategy::Dominant,
    );
    assert_eq!(result, Err(InsertSizeError::NoValidReads));
}

#[test]
fn calculate_all_categories_filtered() {
    // Largest category holds 2 of 5 observations (40%), below the 50%
    // threshold; every category is filtered at once.
    let stats = stats_with(&[
        (PairOrientation::Fr, 100, 2),
        (PairOrientation::Rf, 200, 2),
        (PairOrientation::Tandem, 300, 1),
    ]);
    let min_pct = pct(1, 2);
    let result =
        InsertSizeCalculator::calculate(&stats, min_pct, PairOrientation::Fr, Strategy::Dominant);
    assert_eq!(result, Err(InsertSizeError::AllCategoriesFiltered { min_pct }));
}

#[test]
fn calculate_specific_orientation_filtered() {
    // The requested orientation has zero observations while another holds
    // them all: the caller's choice is never silently substituted.
    let stats = stats_with(&[(PairOrientation::Fr, 100, 8)]);
    let min_pct = pct(1, 20);
    let result =
        InsertSizeCalculator::calculate(&stats, min_pct, PairOrientation::Rf, Strategy::Specific);
    assert_eq!(
        result,
        Err(InsertSizeError::OrientationFiltered { orientation: PairOrientation::Rf, min_pct }),
    );
}

#[test]
fn calculate_specific_returns_preferred_median() {
    let stats = stats_with(&[
        (PairOrientation::Fr, 100, 1),
        (PairOrientation::Fr, 300, 1),
        (PairOrientation::Fr, 200, 1),
        (PairOrientation::Rf, 999, 5),
    ]);
    let result = InsertSizeCalculator::calculate(
        &stats,
        pct(1, 20),
        PairOrientation::Fr,
        Strategy::Specific,
    );
    assert_eq!(result, Ok(200));
}

#[test]
fn calculate_dominant_picks_largest_surviving_category() {
    // Fr: 10, Rf: 3, Tandem: 1, threshold 5%: Rf (3/14) and Tandem (1/14)
    // survive but are not selected; the median of Fr is reported.
    let stats = stats_with(&[
        (PairOrientation::Fr, 150, 10),
        (PairOrientation::Rf, 999, 3),
        (PairOrientation::Tandem, 5, 1),
    ]);
    let result = InsertSizeCalculator::calculate(
        &stats,
        pct(1, 20),
        PairOrientation::Tandem,
        Strategy::Dominant,
    );
    assert_eq!(result, Ok(150));
}

#[test]
fn calculate_dominant_skips_filtered_larger_category() {
    // Tandem holds 1 of 21 observations (below 10%); the largest surviving
    // category is Rf even though Fr is preferred by the tie-break order.
    let stats = stats_with(&[
        (PairOrientation::Fr, 100, 9),
        (PairOrientation::Rf, 400, 11),
        (PairOrientation::Tandem, 5, 1),
    ]);
    let result = InsertSizeCalculator::calculate(
        &stats,
        pct(1, 10),
        PairOrientation::Fr,
        Strategy::Dominant,
    );
    assert_eq!(result, Ok(400));
}

#[test]
fn calculate_dominant_tie_goes_to_fr_first() {
    let stats = stats_with(&[
        (PairOrientation::Fr, 100, 5),
        (PairOrientation::Rf, 400, 5),
    ]);
    let result = InsertSizeCalculator::calculate(
        &stats,
        pct(1, 20),
        PairOrientation::Rf,
        Strategy::Dominant,
    );
    assert_eq!(result, Ok(100));
}

#[test]
fn calculate_is_deterministic_on_unmodified_stats() {
    let stats = stats_with(&[
        (PairOrientation::Fr, 100, 3),
        (PairOrientation::Rf, 200, 2),
    ]);
    let first = InsertSizeCalculator::calculate(
        &stats,
        pct(1, 20),
        PairOrientation::Fr,
        Strategy::Dominant,
    );
    let second = InsertSizeCalculator::calculate(
        &stats,
        pct(1, 20),
        PairOrientation::Fr,
        Strategy::Dominant,
    );
    assert_eq!(first, second);
    assert_eq!(first, Ok(100));
}

#[test]
fn admits_rejects_in_precedence_order() {
    let config = FilterConfig { include_duplicates: false, require_proper_pair: true };
    let base = admitted_record(300, false, true);
    assert!(admits(&base, &config));

    let unpaired = RecordInfo { is_segmented: false, ..base };
    assert!(!admits(&unpaired, &config));
    let secondary = RecordInfo { is_secondary: true, ..base };
    assert!(!admits(&secondary, &config));
    let supplementary = RecordInfo { is_supplementary: true, ..base };
    assert!(!admits(&supplementary, &config));
    let duplicate = RecordInfo { is_duplicate: true, ..base };
    assert!(!admits(&duplicate, &config));
    let unmapped = RecordInfo { is_unmapped: true, ..base };
    assert!(!admits(&unmapped, &config));
    let mate_unmapped = RecordInfo { is_mate_unmapped: true, ..base };
    assert!(!admits(&mate_unmapped, &config));
    let cross_contig = RecordInfo { mtid: 1, ..base };
    assert!(!admits(&cross_contig, &config));
    let improper = RecordInfo { is_properly_segmented: false, ..base };
    assert!(!admits(&improper, &config));
    let right_end = RecordInfo { template_length: -300, ..base };
    assert!(!admits(&right_end, &config));
    let zero_length = RecordInfo { template_length: 0, ..base };
    assert!(!admits(&zero_length, &config));
}

#[test]
fn admits_duplicates_when_configured() {
    let duplicate = RecordInfo { is_duplicate: true, ..admitted_record(300, false, true) };
    let keep = FilterConfig { include_duplicates: true, require_proper_pair: false };
    let drop = FilterConfig { include_duplicates: false, require_proper_pair: false };
    assert!(admits(&duplicate, &keep));
    assert!(!admits(&duplicate, &drop));
}

#[test]
fn admits_improper_pairs_unless_required() {
    let improper =
        RecordInfo { is_properly_segmented: false, ..admitted_record(300, false, true) };
    let lenient = FilterConfig { include_duplicates: false, require_proper_pair: false };
    let strict = FilterConfig { include_duplicates: false, require_proper_pair: true };
    assert!(admits(&improper, &lenient));
    assert!(!admits(&improper, &strict));
}

#[test]
fn process_record_counts_only_admitted_records() {
    let config = FilterConfig { include_duplicates: false, require_proper_pair: false };
    let mut stats = InsertSizeStats::new();
    assert!(process_record(&mut stats, &admitted_record(120, false, true), &config));
    assert!(!process_record(
        &mut stats,
        &RecordInfo { template_length: -120, ..admitted_record(120, true, false) },
        &config,
    ));
    assert_eq!(stats.total_left_records(), 1);
    assert_eq!(stats.histogram(PairOrientation::Fr).total_count(), 1);
    assert_eq!(stats.histogram(PairOrientation::Rf).total_count(), 0);
}

#[test]
fn compute_insert_size_end_to_end() {
    let mut records = vec![
        admitted_record(100, false, true),
        admitted_record(300, false, true),
        admitted_record(200, false, true),
        admitted_record(500, true, false),
        RecordInfo { is_secondary: true, ..admitted_record(999, false, true) },
        RecordInfo { template_length: -200, ..admitted_record(200, true, false) },
    ];
    records.push(RecordInfo { is_segmented: false, ..admitted_record(888, false, true) });
    let result = compute_insert_size(
        &records,
        false,
        false,
        pct(1, 20),
        PairOrientation::Fr,
        Strategy::Specific,
    );
    assert_eq!(result, Ok(200));
}

#[test]
fn merge_matches_single_pass_over_concatenation() {
    let config = FilterConfig { include_duplicates: false, require_proper_pair: false };
    let first = vec![
        admitted_record(100, false, true),
        admitted_record(300, false, true),
        RecordInfo { is_duplicate: true, ..admitted_record(250, false, true) },
    ];
    let second = vec![
        admitted_record(200, false, true),
        admitted_record(400, true, false),
        admitted_record(100, false, true),
    ];

    let mut merged = InsertSizeStats::new();
    for record in &first {
        process_record(&mut merged, record, &config);
    }
    let mut other = InsertSizeStats::new();
    for record in &second {
        process_record(&mut other, record, &config);
    }
    merged.merge(&other);

    let merged_result = InsertSizeCalculator::calculate(
        &merged,
        pct(1, 20),
        PairOrientation::Fr,
        Strategy::Dominant,
    );

    let mut concatenated: Vec<RecordInfo> = first.clone();
    concatenated.extend_from_slice(&second);
    let single_pass = compute_insert_size(
        &concatenated,
        false,
        false,
        pct(1, 20),
        PairOrientation::Fr,
        Strategy::Dominant,
    );
    assert_eq!(merged_result, single_pass);

    // The opposite interleaving gives the same result as well.
    let mut reversed: Vec<RecordInfo> = second.clone();
    reversed.extend_from_slice(&first);
    let reversed_pass = compute_insert_size(
        &reversed,
        false,
        false,
        pct(1, 20),
        PairOrientation::Fr,
        Strategy::Dominant,
    );
    assert_eq!(merged_result, reversed_pass);
}

#[test]
fn merge_sums_per_cell() {
    let mut a = InsertSizeStats::new();
    a.add_insert_size(PairOrientation::Fr, 100);
    a.add_insert_size(PairOrientation::Fr, 100);
    a.add_insert_size(PairOrientation::Tandem, 70);
    let mut b = InsertSizeStats::new();
    b.add_insert_size(PairOrientation::Fr, 100);
    b.add_insert_size(PairOrientation::Fr, 250);
    b.add_insert_size(PairOrientation::Rf, 40);
    a.merge(&b);
    assert_eq!(a.total_left_records(), 6);
    assert_eq!(a.histogram(PairOrientation::Fr).entries().as_slice(), &[(100, 3), (250, 1)]);
    assert_eq!(a.histogram(PairOrientation::Rf).entries().as_slice(), &[(40, 1)]);
    assert_eq!(a.histogram(PairOrientation::Tandem).entries().as_slice(), &[(70, 1)]);
}

#[test]
fn compute_insert_size_rejects_invalid_threshold_before_reading() {
    let records = vec![admitted_record(100, false, true)];
    let result = compute_insert_size(
        &records,
        false,
        false,
        pct(2, 3),
        PairOrientation::Fr,
        Strategy::Specific,
    );
    assert_eq!(result, Err(InsertSizeError::InvalidMinPct));
}

#[test]
fn compute_insert_size_no_valid_reads_on_fully_filtered_stream() {
    let records = vec![
        RecordInfo { is_segmented: false, ..admitted_record(100, false, true) },
        RecordInfo { template_length: -100, ..admitted_record(100, false, true) },
    ];
    let result = compute_insert_size(
        &records,
        false,
        false,
        pct(1, 20),
        PairOrientation::Fr,
        Strategy::Dominant,
    );
    assert_eq!(result, Err(InsertSizeError::NoValidReads));
}

#[test]
fn zero_threshold_keeps_every_nonzero_category() {
    let stats = stats_with(&[
        (PairOrientation::Fr, 100, 1),
        (PairOrientation::Rf, 200, 1000),
    ]);
    let result = InsertSizeCalculator::calculate(
        &stats,
        pct(0, 1),
        PairOrientation::Fr,
        Strategy::Specific,
    );
    assert_eq!(result, Ok(100));
}
