//! The sample classifier: decides which anti-sniping mechanism one observed
//! transaction exhibits and folds the outcome into the frequency tables.

use vstd::prelude::*;

use crate::record::{
    TxRecord, flagged_count, flagged_count_to, offset_of, spec_is_flagged,
};
use crate::tables::{FreqTable, PosTable, lemma_count_le_sum, table_bumped, table_sum};

verus! {

/// The mechanism one record exhibits. A record never exhibits both: the
/// variants make the exclusivity structural.
#[derive(Clone, Copy, PartialEq, Eq, Structural, Debug)]
pub enum Classification {
    /// Neither a locktime nor a flagged sequence value.
    NoAntiSniping,
    /// Exactly one input carried a relative-locktime sequence value.
    RelativeAntiSniping { sequence: u32, input_count: usize, index: usize },
    /// The transaction-level locktime was set; `offset` is locktime minus
    /// observed height.
    AbsoluteAntiSniping { offset: i64 },
}

/// A record that breaks the data-model contract of the wallet under test.
#[derive(Clone, Copy, PartialEq, Eq, Structural, Debug)]
pub enum InvariantViolation {
    /// More than one input carried a flagged sequence value.
    MultipleFlaggedInputs,
    /// Both a locktime and a flagged sequence value were present.
    BothMechanisms,
}

/// What the classifier owes for a record: `res` is the correct reading of
/// `r` under the flag predicate for `rbf`, error cases included, if and
/// only if.
pub open spec fn classification_matches(
    r: TxRecord,
    rbf: bool,
    res: Result<Classification, InvariantViolation>,
) -> bool {
    match res {
        Ok(Classification::NoAntiSniping) => r.lock_time == 0 && flagged_count(
            r.input_sequences@,
            rbf,
        ) == 0,
        Ok(Classification::RelativeAntiSniping { sequence, input_count, index }) => {
            &&& r.lock_time == 0
            &&& flagged_count(r.input_sequences@, rbf) == 1
            &&& input_count == r.input_sequences@.len()
            &&& index < r.input_sequences@.len()
            &&& sequence == r.input_sequences@[index as int]
            &&& spec_is_flagged(sequence, rbf)
        },
        Ok(Classification::AbsoluteAntiSniping { offset }) => {
            &&& r.lock_time > 0
            &&& flagged_count(r.input_sequences@, rbf) == 0
            &&& offset == offset_of(r)
        },
        Err(InvariantViolation::MultipleFlaggedInputs) => flagged_count(r.input_sequences@, rbf)
            >= 2,
        Err(InvariantViolation::BothMechanisms) => r.lock_time > 0 && flagged_count(
            r.input_sequences@,
            rbf,
        ) == 1,
    }
}

/// Classify one record. Scans the sequence values under the flag predicate,
/// rejects malformed records, and otherwise names the one mechanism found.
pub fn classify_record(r: &TxRecord, rbf: bool) -> (res: Result<
    Classification,
    InvariantViolation,
>)
    requires
        r.observed_block_height <= i64::MAX as u64,
    ensures
        classification_matches(*r, rbf, res),
{
    let s = &r.input_sequences;
    let n = s.len();
    let mut count: usize = 0;
    let mut first: usize = 0;
    let mut i: usize = 0;
    while i < n
        invariant
            i <= n,
            n == s@.len(),
            count <= i,
            count as nat == flagged_count_to(s@, rbf, i as int),
            count >= 1 ==> first < i && spec_is_flagged(s@[first as int], rbf),
        decreases n - i,
    {
        proof {
            assert(flagged_count_to(s@, rbf, i + 1) == flagged_count_to(s@, rbf, i as int) + (
            if spec_is_flagged(s@[i as int], rbf) {
                1nat
            } else {
                0nat
            }));
        }
        if crate::record::is_flagged(s[i], rbf) {
            if count == 0 {
                first = i;
            }
            count += 1;
        }
        i += 1;
    }
    if count > 1 {
        return Err(InvariantViolation::MultipleFlaggedInputs);
    }
    if r.lock_time > 0 {
        if count > 0 {
            return Err(InvariantViolation::BothMechanisms);
        }
        let offset = r.lock_time as i64 - r.observed_block_height as i64;
        return Ok(Classification::AbsoluteAntiSniping { offset });
    }
    if count == 1 {
        let sequence = s[first];
        return Ok(
            Classification::RelativeAntiSniping { sequence, input_count: n, index: first },
        );
    }
    Ok(Classification::NoAntiSniping)
}

/// The classifier accepts a record only when at most one input is flagged.
pub proof fn lemma_at_most_one_flagged(
    r: TxRecord,
    rbf: bool,
    res: Result<Classification, InvariantViolation>,
)
    requires
        classification_matches(r, rbf, res),
        res is Ok,
    ensures
        flagged_count(r.input_sequences@, rbf) <= 1,
{
}

/// The two mechanisms are mutually exclusive: a record with both a locktime
/// and a flagged sequence value is never accepted.
pub proof fn lemma_mechanisms_exclusive(
    r: TxRecord,
    rbf: bool,
    res: Result<Classification, InvariantViolation>,
)
    requires
        classification_matches(r, rbf, res),
        r.lock_time > 0,
        flagged_count(r.input_sequences@, rbf) > 0,
    ensures
        res is Err,
{
}

/// The three frequency tables of one scenario run, owned as one accumulator
/// and reset at scenario start.
pub struct Accumulator {
    /// Sequence value (as a signed key) to occurrence count.
    pub relative: FreqTable,
    /// `(input_count, input_index)` of the flagged input to occurrence count.
    pub relative_pos: PosTable,
    /// Absolute-locktime offset to occurrence count.
    pub absolute: FreqTable,
    /// How many records have been folded in.
    pub records: usize,
}

impl Accumulator {
    /// Table well-formedness, plus: the tables never hold more occurrences
    /// than records were folded in, and a record feeds at most one of the
    /// relative and absolute tables.
    pub open spec fn inv(&self) -> bool {
        &&& self.relative.wf()
        &&& self.relative_pos.wf()
        &&& self.absolute.wf()
        &&& table_sum(self.relative@) + table_sum(self.absolute@) <= self.records
        &&& table_sum(self.relative_pos@) <= self.records
    }

    /// Fresh tables for a new scenario: all three empty.
    pub fn new() -> (acc: Accumulator)
        ensures
            acc.inv(),
            acc.relative@.len() == 0,
            acc.relative_pos@.len() == 0,
            acc.absolute@.len() == 0,
            acc.records == 0,
    {
        Accumulator {
            relative: FreqTable::new(),
            relative_pos: PosTable::new(),
            absolute: FreqTable::new(),
            records: 0,
        }
    }
}

/// Fold one classification outcome into the tables: a relative outcome
/// bumps the sequence and position tables, an absolute outcome bumps the
/// offset table, no mechanism leaves all three unchanged.
pub fn record_outcome(c: Classification, acc: &mut Accumulator)
    requires
        old(acc).inv(),
        old(acc).records < usize::MAX,
    ensures
        final(acc).inv(),
        final(acc).records == old(acc).records + 1,
        match c {
            Classification::NoAntiSniping => {
                &&& final(acc).relative@ == old(acc).relative@
                &&& final(acc).relative_pos@ == old(acc).relative_pos@
                &&& final(acc).absolute@ == old(acc).absolute@
            },
            Classification::RelativeAntiSniping { sequence, input_count, index } => {
                &&& table_bumped(old(acc).relative@, final(acc).relative@, sequence as i64)
                &&& table_bumped(
                    old(acc).relative_pos@,
                    final(acc).relative_pos@,
                    (input_count, index),
                )
                &&& final(acc).absolute@ == old(acc).absolute@
            },
            Classification::AbsoluteAntiSniping { offset } => {
                &&& table_bumped(old(acc).absolute@, final(acc).absolute@, offset)
                &&& final(acc).relative@ == old(acc).relative@
                &&& final(acc).relative_pos@ == old(acc).relative_pos@
            },
        },
{
    match c {
        Classification::NoAntiSniping => {},
        Classification::RelativeAntiSniping { sequence, input_count, index } => {
            proof {
                lemma_count_le_sum(
                    acc.relative@,
                    sequence as i64,
                    acc.relative@.len() as int,
                );
                lemma_count_le_sum(
                    acc.relative_pos@,
                    (input_count, index),
                    acc.relative_pos@.len() as int,
                );
            }
            acc.relative.increment(sequence as i64);
            acc.relative_pos.increment((input_count, index));
        },
        Classification::AbsoluteAntiSniping { offset } => {
            proof {
                lemma_count_le_sum(acc.absolute@, offset, acc.absolute@.len() as int);
            }
            acc.absolute.increment(offset);
        },
    }
    acc.records = acc.records + 1;
}

/// Classify one record and, when it is well formed, fold the outcome into
/// the tables; a malformed record leaves the tables untouched and surfaces
/// the violation.
pub fn classify_and_record(r: &TxRecord, rbf: bool, acc: &mut Accumulator) -> (res: Result<
    Classification,
    InvariantViolation,
>)
    requires
        old(acc).inv(),
        old(acc).records < usize::MAX,
        r.observed_block_height <= i64::MAX as u64,
    ensures
        final(acc).inv(),
        classification_matches(*r, rbf, res),
        match res {
            Ok(c) => final(acc).records == old(acc).records + 1 && (match c {
                Classification::NoAntiSniping => {
                    &&& final(acc).relative@ == old(acc).relative@
                    &&& final(acc).relative_pos@ == old(acc).relative_pos@
                    &&& final(acc).absolute@ == old(acc).absolute@
                },
                Classification::RelativeAntiSniping { sequence, input_count, index } => {
                    &&& table_bumped(old(acc).relative@, final(acc).relative@, sequence as i64)
                    &&& table_bumped(
                        old(acc).relative_pos@,
                        final(acc).relative_pos@,
                        (input_count, index),
                    )
                    &&& final(acc).absolute@ == old(acc).absolute@
                },
                Classification::AbsoluteAntiSniping { offset } => {
                    &&& table_bumped(old(acc).absolute@, final(acc).absolute@, offset)
                    &&& final(acc).relative@ == old(acc).relative@
                    &&& final(acc).relative_pos@ == old(acc).relative_pos@
                },
            }),
            Err(_) => *final(acc) == *old(acc),
        },
        table_sum(final(acc).relative@) + table_sum(final(acc).absolute@) <= table_sum(
            old(acc).relative@,
        ) + table_sum(old(acc).absolute@) + 1,
{
    let res = classify_record(r, rbf);
    match res {
        Ok(c) => {
            record_outcome(c, acc);
        },
        Err(_) => {},
    }
    res
}

} // verus!
