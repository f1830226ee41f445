//! The threshold validator: pure checks of the accumulated frequency
//! tables against a scenario's configured expectations.

use vstd::prelude::*;

use crate::classifier::Accumulator;
use crate::record::{ENABLE_RBF_NO_LOCKTIME, MAX_INPUTS, TX_NUMBER, TxRecord, offset_of};
use crate::tables::{
    lemma_count_le_sum, spec_min_key, table_count, table_has_key, table_sum,
};

verus! {

/// The sequence value encoding a relative locktime of one block: the value
/// an anti-sniping wallet places on the one flagged input.
pub const SEQUENCE_HEIGHT_ONE: u32 = 1;

/// The fixed, tunable expectations one scenario is validated against.
#[derive(Clone, Copy, PartialEq, Eq, Structural, Debug)]
pub struct ScenarioConfig {
    /// Number of trial spends the scenario ran.
    pub trial_count: usize,
    /// Largest number of inputs a trial was funded with.
    pub max_inputs: usize,
    /// Minimum share, in percent, of trials each mechanism must reach.
    pub min_freq_pct: usize,
    /// Lower percentage of the window the zero-offset count must exceed.
    pub window_low_pct: usize,
    /// Upper percentage of the window the zero-offset count must stay under.
    pub window_high_pct: usize,
    /// Share, in percent, of the position combinations that must be hit.
    pub coverage_pct: usize,
    /// How many blocks a locktime may at most be back-dated.
    pub back_window: i64,
}

impl ScenarioConfig {
    /// Percentages are percentages, and the products the checks build stay
    /// representable.
    pub open spec fn valid(&self) -> bool {
        &&& self.min_freq_pct <= 100
        &&& self.window_low_pct <= 100
        &&& self.window_high_pct <= 100
        &&& self.coverage_pct <= 100
        &&& self.max_inputs <= 0xffff_ffff
        &&& 0 <= self.back_window < i64::MAX
    }

    /// The configuration all five scenarios run with: 200 trials, up to 5
    /// inputs, 40% minimum frequency, an 85–95% zero-offset window, 80%
    /// position coverage, and a 100-block back window.
    pub fn standard() -> (c: ScenarioConfig)
        ensures
            c.valid(),
            c.trial_count == TX_NUMBER,
            c.max_inputs == MAX_INPUTS,
            c.min_freq_pct == 40,
            c.window_low_pct == 85,
            c.window_high_pct == 95,
            c.coverage_pct == 80,
            c.back_window == 100,
    {
        ScenarioConfig {
            trial_count: TX_NUMBER,
            max_inputs: MAX_INPUTS,
            min_freq_pct: 40,
            window_low_pct: 85,
            window_high_pct: 95,
            coverage_pct: 80,
            back_window: 100,
        }
    }
}

/// Which expectation failed, with the bound and the observed value.
#[derive(Clone, Copy, PartialEq, Eq, Structural, Debug)]
pub enum ThresholdFailure {
    /// The expected relative-sequence key was never observed.
    RelativeKeyAbsent { key: i64 },
    /// The relative table holds other keys than the one expected.
    RelativeKeysUnexpected { distinct: usize },
    /// The relative table should have stayed empty.
    RelativeNotEmpty { distinct: usize },
    /// Too few of the position combinations were hit.
    Coverage { observed: usize, max_inputs: usize, pct: usize },
    /// A count did not exceed its minimum share of the trials.
    MinimumFrequency { observed: usize, trials: usize, pct: usize },
    /// The zero-offset count fell outside its share of the aggregate.
    RangeWindow { observed: usize, aggregate: usize, low_pct: usize, high_pct: usize },
    /// The aggregate absolute count was not the full trial count.
    AggregateMismatch { observed: usize, expected: usize },
    /// The most back-dated offset left the allowed window.
    BackWindow { observed_min: i64, window: i64 },
}

/// Minimum-frequency check: the count exceeds `pct` percent of the trials.
pub open spec fn spec_min_frequency(count: nat, trials: nat, pct: nat) -> bool {
    count > trials * pct / 100
}

/// Range-window check: the count lies strictly between `low_pct` and
/// `high_pct` percent of the aggregate.
pub open spec fn spec_range_window(count: nat, aggregate: nat, low_pct: nat, high_pct: nat) -> bool {
    count > aggregate * low_pct / 100 && count < aggregate * high_pct / 100
}

/// Number of `(input_count, input_index)` combinations with up to `m`
/// inputs: the triangular number of `m`.
pub open spec fn triangular(m: nat) -> nat {
    m * (m + 1) / 2
}

/// Coverage check: at least `pct` percent of the position combinations
/// were hit.
pub open spec fn spec_coverage(distinct: nat, max_inputs: nat, pct: nat) -> bool {
    distinct >= triangular(max_inputs) * pct / 100
}

/// Boundedness check: the smallest offset lies strictly between
/// `-window - 1` and zero.
pub open spec fn spec_back_window(min_key: int, window: int) -> bool {
    -window - 1 < min_key && min_key < 0
}

/// Minimum-frequency check, executable form.
pub fn meets_min_frequency(count: usize, trials: usize, pct: usize) -> (r: bool)
    requires
        pct <= 100,
    ensures
        r == spec_min_frequency(count as nat, trials as nat, pct as nat),
{
    proof {
        assert((trials as u128) * (pct as u128) <= 0xffff_ffff_ffff_ffff * 100)
            by (nonlinear_arith)
            requires
                trials as u128 <= 0xffff_ffff_ffff_ffff,
                pct as u128 <= 100,
        ;
    }
    (count as u128) > (trials as u128) * (pct as u128) / 100
}

/// Range-window check, executable form.
pub fn within_range_window(count: usize, aggregate: usize, low_pct: usize, high_pct: usize) -> (r:
    bool)
    requires
        low_pct <= 100,
        high_pct <= 100,
    ensures
        r == spec_range_window(count as nat, aggregate as nat, low_pct as nat, high_pct as nat),
{
    proof {
        assert((aggregate as u128) * (low_pct as u128) <= 0xffff_ffff_ffff_ffff * 100)
            by (nonlinear_arith)
            requires
                aggregate as u128 <= 0xffff_ffff_ffff_ffff,
                low_pct as u128 <= 100,
        ;
        assert((aggregate as u128) * (high_pct as u128) <= 0xffff_ffff_ffff_ffff * 100)
            by (nonlinear_arith)
            requires
                aggregate as u128 <= 0xffff_ffff_ffff_ffff,
                high_pct as u128 <= 100,
        ;
    }
    (count as u128) > (aggregate as u128) * (low_pct as u128) / 100 && (count as u128) < (
    aggregate as u128) * (high_pct as u128) / 100
}

/// Coverage check, executable form.
pub fn meets_coverage(distinct: usize, max_inputs: usize, pct: usize) -> (r: bool)
    requires
        pct <= 100,
        max_inputs <= 0xffff_ffff,
    ensures
        r == spec_coverage(distinct as nat, max_inputs as nat, pct as nat),
{
    let m = max_inputs as u128;
    proof {
        assert((max_inputs as u128) * ((max_inputs as u128) + 1) <= 0xffff_ffff * 0x1_0000_0000)
            by (nonlinear_arith)
            requires
                max_inputs as u128 <= 0xffff_ffff,
        ;
    }
    let combos = m * (m + 1) / 2;
    proof {
        assert(combos * (pct as u128) <= 0x8000_0000_0000_0000 * 100) by (nonlinear_arith)
            requires
                combos <= 0x8000_0000_0000_0000,
                pct as u128 <= 100,
        ;
    }
    (distinct as u128) >= combos * (pct as u128) / 100
}

/// Boundedness check, executable form.
pub fn within_back_window(min_key: i64, window: i64) -> (r: bool)
    requires
        0 <= window < i64::MAX,
    ensures
        r == spec_back_window(min_key as int, window as int),
{
    min_key > -window - 1 && min_key < 0
}

/// A back window of `window` blocks accepts the offset `-window` and
/// rejects the offset one block further back.
pub proof fn lemma_back_window_boundary(window: int)
    requires
        window >= 1,
    ensures
        spec_back_window(-window, window),
        !spec_back_window(-window - 1, window),
{
}

/// All expectations of the taproot-with-replace-by-fee scenario at once:
/// the relative table holds exactly the one-block key, the flagged input
/// position is well distributed, both mechanisms each cover the minimum
/// share of trials, the zero offset dominates the absolute table within
/// its window, and no locktime is back-dated past the window.
pub open spec fn spec_taproot_rbf_ok(
    rel: Seq<(i64, usize)>,
    pos: Seq<((usize, usize), usize)>,
    abs: Seq<(i64, usize)>,
    cfg: ScenarioConfig,
) -> bool {
    &&& table_has_key(rel, SEQUENCE_HEIGHT_ONE as i64)
    &&& rel.len() == 1
    &&& spec_coverage(pos.len(), cfg.max_inputs as nat, cfg.coverage_pct as nat)
    &&& spec_min_frequency(
        table_count(rel, SEQUENCE_HEIGHT_ONE as i64),
        cfg.trial_count as nat,
        cfg.min_freq_pct as nat,
    )
    &&& spec_min_frequency(table_sum(abs), cfg.trial_count as nat, cfg.min_freq_pct as nat)
    &&& spec_range_window(
        table_count(abs, 0),
        table_sum(abs),
        cfg.window_low_pct as nat,
        cfg.window_high_pct as nat,
    )
    &&& spec_back_window(spec_min_key(abs) as int, cfg.back_window as int)
}

/// The validator's exact result for the taproot-with-replace-by-fee
/// scenario: the first expectation to fail, in check order, or success.
pub open spec fn spec_validate_taproot_rbf(
    rel: Seq<(i64, usize)>,
    pos: Seq<((usize, usize), usize)>,
    abs: Seq<(i64, usize)>,
    cfg: ScenarioConfig,
) -> Result<(), ThresholdFailure> {
    if !table_has_key(rel, SEQUENCE_HEIGHT_ONE as i64) {
        Err(ThresholdFailure::RelativeKeyAbsent { key: SEQUENCE_HEIGHT_ONE as i64 })
    } else if rel.len() != 1 {
        Err(ThresholdFailure::RelativeKeysUnexpected { distinct: rel.len() as usize })
    } else if !spec_coverage(pos.len(), cfg.max_inputs as nat, cfg.coverage_pct as nat) {
        Err(
            ThresholdFailure::Coverage {
                observed: pos.len() as usize,
                max_inputs: cfg.max_inputs,
                pct: cfg.coverage_pct,
            },
        )
    } else if !spec_min_frequency(
        table_count(rel, SEQUENCE_HEIGHT_ONE as i64),
        cfg.trial_count as nat,
        cfg.min_freq_pct as nat,
    ) {
        Err(
            ThresholdFailure::MinimumFrequency {
                observed: table_count(rel, SEQUENCE_HEIGHT_ONE as i64) as usize,
                trials: cfg.trial_count,
                pct: cfg.min_freq_pct,
            },
        )
    } else if !spec_min_frequency(table_sum(abs), cfg.trial_count as nat, cfg.min_freq_pct as nat) {
        Err(
            ThresholdFailure::MinimumFrequency {
                observed: table_sum(abs) as usize,
                trials: cfg.trial_count,
                pct: cfg.min_freq_pct,
            },
        )
    } else if !spec_range_window(
        table_count(abs, 0),
        table_sum(abs),
        cfg.window_low_pct as nat,
        cfg.window_high_pct as nat,
    ) {
        Err(
            ThresholdFailure::RangeWindow {
                observed: table_count(abs, 0) as usize,
                aggregate: table_sum(abs) as usize,
                low_pct: cfg.window_low_pct,
                high_pct: cfg.window_high_pct,
            },
        )
    } else if !spec_back_window(spec_min_key(abs) as int, cfg.back_window as int) {
        Err(
            ThresholdFailure::BackWindow {
                observed_min: spec_min_key(abs),
                window: cfg.back_window,
            },
        )
    } else {
        Ok(())
    }
}

/// Validate the taproot-with-replace-by-fee scenario: both anti-sniping
/// mechanisms must appear, each with its expected shape.
pub fn validate_taproot_rbf(acc: &Accumulator, cfg: &ScenarioConfig) -> (res: Result<
    (),
    ThresholdFailure,
>)
    requires
        acc.inv(),
        cfg.valid(),
    ensures
        res == spec_validate_taproot_rbf(acc.relative@, acc.relative_pos@, acc.absolute@, *cfg),
        res is Ok <==> spec_taproot_rbf_ok(acc.relative@, acc.relative_pos@, acc.absolute@, *cfg),
{
    if !acc.relative.contains(SEQUENCE_HEIGHT_ONE as i64) {
        return Err(ThresholdFailure::RelativeKeyAbsent { key: SEQUENCE_HEIGHT_ONE as i64 });
    }
    let distinct = acc.relative.distinct_keys();
    if distinct != 1 {
        return Err(ThresholdFailure::RelativeKeysUnexpected { distinct });
    }
    let pos_distinct = acc.relative_pos.distinct_keys();
    if !meets_coverage(pos_distinct, cfg.max_inputs, cfg.coverage_pct) {
        return Err(
            ThresholdFailure::Coverage {
                observed: pos_distinct,
                max_inputs: cfg.max_inputs,
                pct: cfg.coverage_pct,
            },
        );
    }
    let seq_count = acc.relative.count(SEQUENCE_HEIGHT_ONE as i64);
    if !meets_min_frequency(seq_count, cfg.trial_count, cfg.min_freq_pct) {
        return Err(
            ThresholdFailure::MinimumFrequency {
                observed: seq_count,
                trials: cfg.trial_count,
                pct: cfg.min_freq_pct,
            },
        );
    }
    let aggregate = acc.absolute.sum();
    if !meets_min_frequency(aggregate, cfg.trial_count, cfg.min_freq_pct) {
        return Err(
            ThresholdFailure::MinimumFrequency {
                observed: aggregate,
                trials: cfg.trial_count,
                pct: cfg.min_freq_pct,
            },
        );
    }
    let zero_count = acc.absolute.count(0);
    if !within_range_window(zero_count, aggregate, cfg.window_low_pct, cfg.window_high_pct) {
        return Err(
            ThresholdFailure::RangeWindow {
                observed: zero_count,
                aggregate,
                low_pct: cfg.window_low_pct,
                high_pct: cfg.window_high_pct,
            },
        );
    }
    proof {
        if acc.absolute@.len() == 0 {
            assert(table_sum(acc.absolute@) == 0);
        }
    }
    let min = acc.absolute.min_key();
    if !within_back_window(min, cfg.back_window) {
        return Err(ThresholdFailure::BackWindow { observed_min: min, window: cfg.back_window });
    }
    Ok(())
}

/// All expectations of a locktime-only scenario at once: no relative
/// anti-sniping, every trial in the absolute table, and the absolute
/// table shaped as in the taproot scenario.
pub open spec fn spec_all_nlocktime_ok(
    rel: Seq<(i64, usize)>,
    abs: Seq<(i64, usize)>,
    cfg: ScenarioConfig,
) -> bool {
    &&& rel.len() == 0
    &&& table_sum(abs) == cfg.trial_count
    &&& spec_range_window(
        table_count(abs, 0),
        table_sum(abs),
        cfg.window_low_pct as nat,
        cfg.window_high_pct as nat,
    )
    &&& spec_back_window(spec_min_key(abs) as int, cfg.back_window as int)
}

/// The validator's exact result for a locktime-only scenario.
pub open spec fn spec_validate_all_nlocktime(
    rel: Seq<(i64, usize)>,
    abs: Seq<(i64, usize)>,
    cfg: ScenarioConfig,
) -> Result<(), ThresholdFailure> {
    if rel.len() != 0 {
        Err(ThresholdFailure::RelativeNotEmpty { distinct: rel.len() as usize })
    } else if table_sum(abs) != cfg.trial_count {
        Err(
            ThresholdFailure::AggregateMismatch {
                observed: table_sum(abs) as usize,
                expected: cfg.trial_count,
            },
        )
    } else if !spec_range_window(
        table_count(abs, 0),
        table_sum(abs),
        cfg.window_low_pct as nat,
        cfg.window_high_pct as nat,
    ) {
        Err(
            ThresholdFailure::RangeWindow {
                observed: table_count(abs, 0) as usize,
                aggregate: table_sum(abs) as usize,
                low_pct: cfg.window_low_pct,
                high_pct: cfg.window_high_pct,
            },
        )
    } else if !spec_back_window(spec_min_key(abs) as int, cfg.back_window as int) {
        Err(
            ThresholdFailure::BackWindow {
                observed_min: spec_min_key(abs),
                window: cfg.back_window,
            },
        )
    } else {
        Ok(())
    }
}

/// Validate a scenario whose wallet must anti-snipe with the locktime
/// alone: segwit inputs, or taproot without replace-by-fee.
pub fn is_all_nlocktime(acc: &Accumulator, cfg: &ScenarioConfig) -> (res: Result<
    (),
    ThresholdFailure,
>)
    requires
        acc.inv(),
        cfg.valid(),
    ensures
        res == spec_validate_all_nlocktime(acc.relative@, acc.absolute@, *cfg),
        res is Ok <==> spec_all_nlocktime_ok(acc.relative@, acc.absolute@, *cfg),
{
    let distinct = acc.relative.distinct_keys();
    if distinct != 0 {
        return Err(ThresholdFailure::RelativeNotEmpty { distinct });
    }
    let aggregate = acc.absolute.sum();
    if aggregate != cfg.trial_count {
        return Err(
            ThresholdFailure::AggregateMismatch { observed: aggregate, expected: cfg.trial_count },
        );
    }
    let zero_count = acc.absolute.count(0);
    if !within_range_window(zero_count, aggregate, cfg.window_low_pct, cfg.window_high_pct) {
        return Err(
            ThresholdFailure::RangeWindow {
                observed: zero_count,
                aggregate,
                low_pct: cfg.window_low_pct,
                high_pct: cfg.window_high_pct,
            },
        );
    }
    proof {
        lemma_count_le_sum(acc.absolute@, 0, acc.absolute@.len() as int);
        if acc.absolute@.len() == 0 {
            assert(table_sum(acc.absolute@) == 0);
        }
    }
    let min = acc.absolute.min_key();
    if !within_back_window(min, cfg.back_window) {
        return Err(ThresholdFailure::BackWindow { observed_min: min, window: cfg.back_window });
    }
    Ok(())
}

/// Why one record failed the locktime-only check.
#[derive(Clone, Copy, PartialEq, Eq, Structural, Debug)]
pub enum RecordCheckFailure {
    /// An input carried something else than the canonical
    /// replace-by-fee-without-locktime sequence value.
    UnexpectedSequence { index: usize, sequence: u32 },
    /// The transaction-level locktime was not set at all.
    LockTimeUnset,
    /// The locktime pointed past the observed chain tip.
    OffsetNotBack { offset: i64 },
    /// The locktime was back-dated past the allowed window.
    OffsetTooFarBack { offset: i64 },
}

/// Whether the first `n` sequence values all carry the canonical
/// replace-by-fee-without-locktime value.
pub open spec fn sequences_canonical_to(sequences: Seq<u32>, n: int) -> bool {
    forall|j: int| 0 <= j < n ==> sequences[j] == ENABLE_RBF_NO_LOCKTIME
}

/// What the locktime-only check accepts: every input canonical, the
/// locktime set, and its offset within `(-window - 1, 1)`.
pub open spec fn spec_nlocktime_only_ok(r: TxRecord, window: int) -> bool {
    &&& sequences_canonical_to(r.input_sequences@, r.input_sequences@.len() as int)
    &&& r.lock_time > 0
    &&& offset_of(r) < 1
    &&& offset_of(r) > -window - 1
}

/// Check one record of a scenario whose every spend must anti-snipe with
/// the locktime alone and never with a sequence value: all inputs carry
/// the canonical replace-by-fee sequence, and the locktime is set and
/// back-dated at most `window` blocks.
pub fn is_nlocktime_only(r: &TxRecord, window: i64) -> (res: Result<(), RecordCheckFailure>)
    requires
        r.observed_block_height <= i64::MAX as u64,
        0 <= window < i64::MAX,
    ensures
        res is Ok <==> spec_nlocktime_only_ok(*r, window as int),
        match res {
            Ok(_) => true,
            Err(RecordCheckFailure::UnexpectedSequence { index, sequence }) => {
                &&& index < r.input_sequences@.len()
                &&& sequence == r.input_sequences@[index as int]
                &&& sequence != ENABLE_RBF_NO_LOCKTIME
                &&& sequences_canonical_to(r.input_sequences@, index as int)
            },
            Err(RecordCheckFailure::LockTimeUnset) => {
                &&& sequences_canonical_to(r.input_sequences@, r.input_sequences@.len() as int)
                &&& r.lock_time == 0
            },
            Err(RecordCheckFailure::OffsetNotBack { offset }) => {
                &&& sequences_canonical_to(r.input_sequences@, r.input_sequences@.len() as int)
                &&& r.lock_time > 0
                &&& offset == offset_of(*r)
                &&& offset >= 1
            },
            Err(RecordCheckFailure::OffsetTooFarBack { offset }) => {
                &&& sequences_canonical_to(r.input_sequences@, r.input_sequences@.len() as int)
                &&& r.lock_time > 0
                &&& offset == offset_of(*r)
                &&& offset < 1
                &&& offset <= -window - 1
            },
        },
{
    let s = &r.input_sequences;
    let n = s.len();
    let mut i: usize = 0;
    while i < n
        invariant
            i <= n,
            n == s@.len(),
            s@ == r.input_sequences@,
            sequences_canonical_to(s@, i as int),
        decreases n - i,
    {
        let sequence = s[i];
        if sequence != ENABLE_RBF_NO_LOCKTIME {
            proof {
                assert(!sequences_canonical_to(s@, s@.len() as int)) by {
                    assert(s@[i as int] != ENABLE_RBF_NO_LOCKTIME);
                }
            }
            return Err(RecordCheckFailure::UnexpectedSequence { index: i, sequence });
        }
        i += 1;
    }
    if r.lock_time == 0 {
        return Err(RecordCheckFailure::LockTimeUnset);
    }
    let offset = r.lock_time as i64 - r.observed_block_height as i64;
    if offset >= 1 {
        return Err(RecordCheckFailure::OffsetNotBack { offset });
    }
    if offset <= -window - 1 {
        return Err(RecordCheckFailure::OffsetTooFarBack { offset });
    }
    Ok(())
}

/// Validation is a pure function of the table contents: two accumulators
/// with equal tables validate alike, so re-running a validator cannot
/// change the verdict.
pub proof fn lemma_validate_deterministic(a: Accumulator, b: Accumulator, cfg: ScenarioConfig)
    requires
        a.relative@ == b.relative@,
        a.relative_pos@ == b.relative_pos@,
        a.absolute@ == b.absolute@,
    ensures
        spec_validate_taproot_rbf(a.relative@, a.relative_pos@, a.absolute@, cfg)
            == spec_validate_taproot_rbf(b.relative@, b.relative_pos@, b.absolute@, cfg),
        spec_validate_all_nlocktime(a.relative@, a.absolute@, cfg) == spec_validate_all_nlocktime(
            b.relative@,
            b.absolute@,
            cfg,
        ),
{
}

} // verus!
