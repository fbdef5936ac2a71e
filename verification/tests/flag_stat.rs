use bamqc::flag_stat::FlagStat;
use bamqc::record::RecordInfo;

fn plain_record() -> RecordInfo {
    RecordInfo {
        is_segmented: true,
        is_properly_segmented: true,
        is_unmapped: false,
        is_mate_unmapped: false,
        is_reverse: false,
        is_mate_reverse: true,
        is_secondary: false,
        is_qc_fail: false,
        is_duplicate: false,
        is_supplementary: false,
        tid: 0,
        mtid: 0,
        template_length: 100,
    }
}

#[test]
fn new_flag_stat_is_all_zero() {
    let stat = FlagStat::new();
    assert_eq!(stat.total, 0);
    assert_eq!(stat.primary, 0);
    assert_eq!(stat.secondary, 0);
    assert_eq!(stat.supplementary, 0);
    assert_eq!(stat.duplicate, 0);
    assert_eq!(stat.mapped, 0);
    assert_eq!(stat.primary_mapped, 0);
}

#[test]
fn update_counts_a_plain_mapped_record() {
    let mut stat = FlagStat::new();
    stat.update(&plain_record());
    assert_eq!(stat.total, 1);
    assert_eq!(stat.primary, 1);
    assert_eq!(stat.secondary, 0);
    assert_eq!(stat.supplementary, 0);
    assert_eq!(stat.duplicate, 0);
    assert_eq!(stat.mapped, 1);
    assert_eq!(stat.primary_mapped, 1);
}

#[test]
fn update_skips_qc_failed_records() {
    let mut stat = FlagStat::new();
    stat.update(&RecordInfo { is_qc_fail: true, is_duplicate: true, ..plain_record() });
    assert_eq!(stat, FlagStat::new());
}

#[test]
fn update_classifies_secondary_and_supplementary() {
    let mut stat = FlagStat::new();
    stat.update(&RecordInfo { is_secondary: true, ..plain_record() });
    stat.update(&RecordInfo { is_supplementary: true, ..plain_record() });
    assert_eq!(stat.total, 2);
    assert_eq!(stat.primary, 0);
    assert_eq!(stat.secondary, 1);
    assert_eq!(stat.supplementary, 1);
    assert_eq!(stat.mapped, 2);
    assert_eq!(stat.primary_mapped, 0);
}

#[test]
fn update_counts_unmapped_and_duplicate_records() {
    let mut stat = FlagStat::new();
    stat.update(&RecordInfo { is_unmapped: true, ..plain_record() });
    stat.update(&RecordInfo { is_duplicate: true, ..plain_record() });
    assert_eq!(stat.total, 2);
    assert_eq!(stat.primary, 2);
    assert_eq!(stat.duplicate, 1);
    assert_eq!(stat.mapped, 1);
    assert_eq!(stat.primary_mapped, 1);
}
