use anti_sniping::classifier::{
    Accumulator, Classification, InvariantViolation, classify_and_record, classify_record,
    record_outcome,
};
use anti_sniping::record::{ENABLE_LOCKTIME_NO_RBF, ENABLE_RBF_NO_LOCKTIME, TxRecord, is_flagged};

fn record(sequences: Vec<u32>, lock_time: u32, height: u64) -> TxRecord {
    TxRecord { input_sequences: sequences, lock_time, observed_block_height: height }
}

#[test]
fn flag_predicate_follows_rbf_setting() {
    assert!(!is_flagged(ENABLE_RBF_NO_LOCKTIME, true));
    assert!(is_flagged(ENABLE_LOCKTIME_NO_RBF, true));
    assert!(is_flagged(1, true));
    assert!(!is_flagged(ENABLE_LOCKTIME_NO_RBF, false));
    assert!(is_flagged(ENABLE_RBF_NO_LOCKTIME, false));
    assert!(is_flagged(1, false));
}

#[test]
fn classify_no_mechanism() {
    let r = record(vec![ENABLE_RBF_NO_LOCKTIME, ENABLE_RBF_NO_LOCKTIME], 0, 500);
    assert_eq!(classify_record(&r, true), Ok(Classification::NoAntiSniping));
}

#[test]
fn classify_relative_single_flagged_input() {
    let r = record(
        vec![ENABLE_RBF_NO_LOCKTIME, ENABLE_RBF_NO_LOCKTIME, 1, ENABLE_RBF_NO_LOCKTIME],
        0,
        500,
    );
    assert_eq!(
        classify_record(&r, true),
        Ok(Classification::RelativeAntiSniping { sequence: 1, input_count: 4, index: 2 })
    );
}

#[test]
fn classify_relative_no_rbf_predicate() {
    // Without replace-by-fee the canonical value is ENABLE_LOCKTIME_NO_RBF,
    // so ENABLE_RBF_NO_LOCKTIME itself counts as flagged.
    let r = record(vec![ENABLE_LOCKTIME_NO_RBF, ENABLE_RBF_NO_LOCKTIME], 0, 500);
    assert_eq!(
        classify_record(&r, false),
        Ok(Classification::RelativeAntiSniping {
            sequence: ENABLE_RBF_NO_LOCKTIME,
            input_count: 2,
            index: 1
        })
    );
}

#[test]
fn classify_absolute_offset_zero_at_tip() {
    // lock_time equal to the observed height yields offset key 0.
    let r = record(vec![ENABLE_RBF_NO_LOCKTIME], 500, 500);
    assert_eq!(
        classify_record(&r, true),
        Ok(Classification::AbsoluteAntiSniping { offset: 0 })
    );
}

#[test]
fn classify_absolute_offset_hundred_back() {
    // lock_time one hundred blocks below the observed height yields key -100.
    let r = record(vec![ENABLE_RBF_NO_LOCKTIME], 400, 500);
    assert_eq!(
        classify_record(&r, true),
        Ok(Classification::AbsoluteAntiSniping { offset: -100 })
    );
}

#[test]
fn classify_rejects_two_flagged_inputs() {
    let r = record(vec![1, ENABLE_RBF_NO_LOCKTIME, 2], 0, 500);
    assert_eq!(classify_record(&r, true), Err(InvariantViolation::MultipleFlaggedInputs));
}

#[test]
fn classify_rejects_both_mechanisms() {
    let r = record(vec![1, ENABLE_RBF_NO_LOCKTIME], 500, 500);
    assert_eq!(classify_record(&r, true), Err(InvariantViolation::BothMechanisms));
}

#[test]
fn classify_rejects_two_flagged_even_with_locktime() {
    let r = record(vec![1, 2], 500, 500);
    assert_eq!(classify_record(&r, true), Err(InvariantViolation::MultipleFlaggedInputs));
}

#[test]
fn empty_stream_leaves_tables_empty() {
    let acc = Accumulator::new();
    assert_eq!(acc.relative.distinct_keys(), 0);
    assert!(acc.relative.is_empty());
    assert_eq!(acc.relative_pos.distinct_keys(), 0);
    assert_eq!(acc.absolute.distinct_keys(), 0);
    assert_eq!(acc.absolute.sum(), 0);
    assert_eq!(acc.records, 0);
}

#[test]
fn accumulator_counts_each_mechanism_once() {
    let mut acc = Accumulator::new();
    let rel = record(vec![1, ENABLE_RBF_NO_LOCKTIME], 0, 500);
    let abs = record(vec![ENABLE_RBF_NO_LOCKTIME], 490, 500);
    let none = record(vec![ENABLE_RBF_NO_LOCKTIME], 0, 500);
    assert!(classify_and_record(&rel, true, &mut acc).is_ok());
    assert!(classify_and_record(&abs, true, &mut acc).is_ok());
    assert!(classify_and_record(&none, true, &mut acc).is_ok());
    assert_eq!(acc.relative.count(1), 1);
    assert_eq!(acc.relative.sum(), 1);
    assert_eq!(acc.relative_pos.count((2, 0)), 1);
    assert_eq!(acc.absolute.count(-10), 1);
    assert_eq!(acc.absolute.sum(), 1);
    assert_eq!(acc.records, 3);
}

#[test]
fn accumulator_untouched_by_malformed_record() {
    let mut acc = Accumulator::new();
    let bad = record(vec![1, 2], 0, 500);
    assert_eq!(
        classify_and_record(&bad, true, &mut acc),
        Err(InvariantViolation::MultipleFlaggedInputs)
    );
    assert_eq!(acc.records, 0);
    assert!(acc.relative.is_empty());
    assert!(acc.absolute.is_empty());
    assert_eq!(acc.relative_pos.distinct_keys(), 0);
}

#[test]
fn repeated_keys_accumulate() {
    let mut acc = Accumulator::new();
    for _ in 0..3 {
        record_outcome(
            Classification::RelativeAntiSniping { sequence: 1, input_count: 3, index: 2 },
            &mut acc,
        );
    }
    record_outcome(Classification::AbsoluteAntiSniping { offset: 0 }, &mut acc);
    record_outcome(Classification::AbsoluteAntiSniping { offset: 0 }, &mut acc);
    record_outcome(Classification::AbsoluteAntiSniping { offset: -3 }, &mut acc);
    assert_eq!(acc.relative.count(1), 3);
    assert_eq!(acc.relative.distinct_keys(), 1);
    assert_eq!(acc.relative_pos.count((3, 2)), 3);
    assert_eq!(acc.absolute.count(0), 2);
    assert_eq!(acc.absolute.count(-3), 1);
    assert_eq!(acc.absolute.sum(), 3);
    assert_eq!(acc.absolute.min_key(), -3);
    assert_eq!(acc.records, 6);
}
