use anti_sniping::classifier::{Accumulator, classify_and_record};
use anti_sniping::record::{ENABLE_RBF_NO_LOCKTIME, TxRecord};
use anti_sniping::validator::{
    RecordCheckFailure, ScenarioConfig, ThresholdFailure, is_all_nlocktime, is_nlocktime_only,
    meets_coverage, meets_min_frequency, validate_taproot_rbf, within_back_window,
    within_range_window,
};

const HEIGHT: u64 = 500;

fn feed(acc: &mut Accumulator, r: &TxRecord, rbf: bool) {
    classify_and_record(r, rbf, acc).expect("well-formed record");
}

fn relative_record(input_count: usize, index: usize) -> TxRecord {
    let mut sequences = vec![ENABLE_RBF_NO_LOCKTIME; input_count];
    sequences[index] = 1;
    TxRecord { input_sequences: sequences, lock_time: 0, observed_block_height: HEIGHT }
}

fn absolute_record(offset: i64) -> TxRecord {
    TxRecord {
        input_sequences: vec![ENABLE_RBF_NO_LOCKTIME],
        lock_time: (HEIGHT as i64 + offset) as u32,
        observed_block_height: HEIGHT,
    }
}

fn plain_record() -> TxRecord {
    TxRecord {
        input_sequences: vec![ENABLE_RBF_NO_LOCKTIME, ENABLE_RBF_NO_LOCKTIME],
        lock_time: 0,
        observed_block_height: HEIGHT,
    }
}

#[test]
fn min_frequency_is_strict() {
    // 40% of 200 trials is 80: a count must exceed it strictly.
    assert!(!meets_min_frequency(80, 200, 40));
    assert!(meets_min_frequency(81, 200, 40));
    assert!(!meets_min_frequency(0, 0, 40));
}

#[test]
fn range_window_is_strict_on_both_sides() {
    assert!(!within_range_window(85, 100, 85, 95));
    assert!(within_range_window(86, 100, 85, 95));
    assert!(within_range_window(94, 100, 85, 95));
    assert!(!within_range_window(95, 100, 85, 95));
}

#[test]
fn coverage_against_triangular_combinations() {
    // With up to 5 inputs there are 15 combinations; 80% of them is 12.
    assert!(meets_coverage(12, 5, 80));
    assert!(!meets_coverage(11, 5, 80));
    assert!(meets_coverage(15, 5, 80));
}

#[test]
fn back_window_accepts_hundred_rejects_hundred_one() {
    // A bound of -101 accepts a key of -100 and rejects -101.
    assert!(within_back_window(-100, 100));
    assert!(!within_back_window(-101, 100));
    assert!(!within_back_window(0, 100));
    assert!(within_back_window(-1, 100));
}

#[test]
fn taproot_rbf_scenario_passes() {
    // 200 trials: 90 with relative-sequence key 1 spread over all 15
    // position combinations, 90 at absolute offset 0, 10 at offset -50,
    // 10 with no mechanism at all.
    let mut acc = Accumulator::new();
    let mut fed: usize = 0;
    while fed < 90 {
        for input_count in 1..=5usize {
            for index in 0..input_count {
                if fed < 90 {
                    feed(&mut acc, &relative_record(input_count, index), true);
                    fed += 1;
                }
            }
        }
    }
    for _ in 0..90 {
        feed(&mut acc, &absolute_record(0), true);
    }
    for _ in 0..10 {
        feed(&mut acc, &absolute_record(-50), true);
    }
    for _ in 0..10 {
        feed(&mut acc, &plain_record(), true);
    }
    assert_eq!(acc.records, 200);
    assert_eq!(acc.relative.count(1), 90);
    assert_eq!(acc.relative_pos.distinct_keys(), 15);
    assert_eq!(acc.absolute.count(0), 90);
    assert_eq!(acc.absolute.sum(), 100);
    let cfg = ScenarioConfig::standard();
    assert_eq!(validate_taproot_rbf(&acc, &cfg), Ok(()));
    // The same scenario is not a locktime-only scenario.
    assert_eq!(
        is_all_nlocktime(&acc, &cfg),
        Err(ThresholdFailure::RelativeNotEmpty { distinct: 1 })
    );
    // Re-running the validator on the unchanged tables repeats the verdict.
    assert_eq!(validate_taproot_rbf(&acc, &cfg), Ok(()));
}

#[test]
fn segwit_scenario_all_locktime() {
    // 200 trials, all with a locktime and none with a flagged sequence:
    // the relative table stays empty and the absolute aggregate is 200.
    let mut acc = Accumulator::new();
    for _ in 0..180 {
        feed(&mut acc, &absolute_record(0), true);
    }
    for _ in 0..20 {
        feed(&mut acc, &absolute_record(-30), true);
    }
    assert_eq!(acc.relative.distinct_keys(), 0);
    assert_eq!(acc.absolute.sum(), 200);
    let cfg = ScenarioConfig::standard();
    assert_eq!(is_all_nlocktime(&acc, &cfg), Ok(()));
    assert_eq!(is_all_nlocktime(&acc, &cfg), Ok(()));
}

#[test]
fn taproot_validator_reports_missing_relative_key() {
    let acc = Accumulator::new();
    let cfg = ScenarioConfig::standard();
    assert_eq!(
        validate_taproot_rbf(&acc, &cfg),
        Err(ThresholdFailure::RelativeKeyAbsent { key: 1 })
    );
}

#[test]
fn taproot_validator_reports_unexpected_relative_keys() {
    let mut acc = Accumulator::new();
    feed(&mut acc, &relative_record(1, 0), true);
    let mut other = relative_record(1, 0);
    other.input_sequences[0] = 2;
    feed(&mut acc, &other, true);
    let cfg = ScenarioConfig::standard();
    assert_eq!(
        validate_taproot_rbf(&acc, &cfg),
        Err(ThresholdFailure::RelativeKeysUnexpected { distinct: 2 })
    );
}

#[test]
fn taproot_validator_reports_poor_coverage() {
    let mut acc = Accumulator::new();
    for _ in 0..100 {
        feed(&mut acc, &relative_record(1, 0), true);
    }
    let cfg = ScenarioConfig::standard();
    assert_eq!(
        validate_taproot_rbf(&acc, &cfg),
        Err(ThresholdFailure::Coverage { observed: 1, max_inputs: 5, pct: 80 })
    );
}

#[test]
fn taproot_validator_reports_low_frequency() {
    // All 15 combinations hit, but only 15 relative occurrences out of 200.
    let mut acc = Accumulator::new();
    for input_count in 1..=5usize {
        for index in 0..input_count {
            feed(&mut acc, &relative_record(input_count, index), true);
        }
    }
    let cfg = ScenarioConfig::standard();
    assert_eq!(
        validate_taproot_rbf(&acc, &cfg),
        Err(ThresholdFailure::MinimumFrequency { observed: 15, trials: 200, pct: 40 })
    );
}

#[test]
fn taproot_validator_reports_window_breach() {
    let mut acc = Accumulator::new();
    let mut fed: usize = 0;
    while fed < 90 {
        for input_count in 1..=5usize {
            for index in 0..input_count {
                if fed < 90 {
                    feed(&mut acc, &relative_record(input_count, index), true);
                    fed += 1;
                }
            }
        }
    }
    // 96 of 100 absolute offsets at zero: above the 95% upper bound.
    for _ in 0..96 {
        feed(&mut acc, &absolute_record(0), true);
    }
    for _ in 0..4 {
        feed(&mut acc, &absolute_record(-50), true);
    }
    let cfg = ScenarioConfig::standard();
    assert_eq!(
        validate_taproot_rbf(&acc, &cfg),
        Err(ThresholdFailure::RangeWindow {
            observed: 96,
            aggregate: 100,
            low_pct: 85,
            high_pct: 95
        })
    );
}

#[test]
fn taproot_validator_reports_backdated_locktime() {
    let mut acc = Accumulator::new();
    let mut fed: usize = 0;
    while fed < 90 {
        for input_count in 1..=5usize {
            for index in 0..input_count {
                if fed < 90 {
                    feed(&mut acc, &relative_record(input_count, index), true);
                    fed += 1;
                }
            }
        }
    }
    for _ in 0..90 {
        feed(&mut acc, &absolute_record(0), true);
    }
    // Ten locktimes back-dated one block past the allowed window.
    for _ in 0..10 {
        feed(&mut acc, &absolute_record(-101), true);
    }
    let cfg = ScenarioConfig::standard();
    assert_eq!(
        validate_taproot_rbf(&acc, &cfg),
        Err(ThresholdFailure::BackWindow { observed_min: -101, window: 100 })
    );
}

#[test]
fn locktime_only_validator_reports_aggregate_mismatch() {
    let mut acc = Accumulator::new();
    for _ in 0..199 {
        feed(&mut acc, &absolute_record(0), true);
    }
    let cfg = ScenarioConfig::standard();
    assert_eq!(
        is_all_nlocktime(&acc, &cfg),
        Err(ThresholdFailure::AggregateMismatch { observed: 199, expected: 200 })
    );
}

#[test]
fn record_check_accepts_locktime_only_record() {
    let r = absolute_record(0);
    assert_eq!(is_nlocktime_only(&r, 100), Ok(()));
    let r = absolute_record(-100);
    assert_eq!(is_nlocktime_only(&r, 100), Ok(()));
}

#[test]
fn record_check_reports_unexpected_sequence() {
    let mut r = absolute_record(0);
    r.input_sequences = vec![ENABLE_RBF_NO_LOCKTIME, 1];
    assert_eq!(
        is_nlocktime_only(&r, 100),
        Err(RecordCheckFailure::UnexpectedSequence { index: 1, sequence: 1 })
    );
}

#[test]
fn record_check_reports_unset_locktime() {
    let r = plain_record();
    assert_eq!(is_nlocktime_only(&r, 100), Err(RecordCheckFailure::LockTimeUnset));
}

#[test]
fn record_check_reports_forward_locktime() {
    let r = absolute_record(1);
    assert_eq!(
        is_nlocktime_only(&r, 100),
        Err(RecordCheckFailure::OffsetNotBack { offset: 1 })
    );
}

#[test]
fn record_check_reports_overlong_backdate() {
    let r = absolute_record(-101);
    assert_eq!(
        is_nlocktime_only(&r, 100),
        Err(RecordCheckFailure::OffsetTooFarBack { offset: -101 })
    );
}
