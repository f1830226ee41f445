//! The observed-transaction record and the per-input flag predicate.

use vstd::prelude::*;

verus! {

/// Sequence value a wallet uses when it opts into replace-by-fee and does
/// not request a relative locktime.
pub const ENABLE_RBF_NO_LOCKTIME: u32 = 0xFFFF_FFFD;

/// Sequence value a wallet uses when locktime is enabled and replace-by-fee
/// is not signalled.
pub const ENABLE_LOCKTIME_NO_RBF: u32 = 0xFFFF_FFFE;

/// Number of trial spends in one scenario run.
pub const TX_NUMBER: usize = 200;

/// Largest number of inputs a trial spend is funded with.
pub const MAX_INPUTS: usize = 5;

/// One observed transaction: the per-input sequence values, the
/// transaction-level locktime (0 means unset), and the chain height at the
/// moment of observation.
pub struct TxRecord {
    pub input_sequences: Vec<u32>,
    pub lock_time: u32,
    pub observed_block_height: u64,
}

/// A sequence value is flagged when it differs from the canonical value for
/// the wallet's replace-by-fee setting, i.e. when it carries a relative
/// locktime.
pub open spec fn spec_is_flagged(sequence: u32, rbf: bool) -> bool {
    if rbf {
        sequence != ENABLE_RBF_NO_LOCKTIME
    } else {
        sequence != ENABLE_LOCKTIME_NO_RBF
    }
}

/// How many of the first `n` sequence values are flagged.
pub open spec fn flagged_count_to(sequences: Seq<u32>, rbf: bool, n: int) -> nat
    decreases n,
{
    if n <= 0 {
        0
    } else {
        flagged_count_to(sequences, rbf, n - 1) + if spec_is_flagged(sequences[n - 1], rbf) {
            1nat
        } else {
            0nat
        }
    }
}

/// How many sequence values of a record are flagged.
pub open spec fn flagged_count(sequences: Seq<u32>, rbf: bool) -> nat {
    flagged_count_to(sequences, rbf, sequences.len() as int)
}

/// The absolute-locktime offset of a record: its locktime minus the height
/// observed with it.
pub open spec fn offset_of(r: TxRecord) -> int {
    r.lock_time - r.observed_block_height
}

/// The flag predicate, executable form.
pub fn is_flagged(sequence: u32, rbf: bool) -> (r: bool)
    ensures
        r == spec_is_flagged(sequence, rbf),
{
    if rbf {
        sequence != ENABLE_RBF_NO_LOCKTIME
    } else {
        sequence != ENABLE_LOCKTIME_NO_RBF
    }
}

/// A record whose locktime equals the height it was observed at sits at
/// absolute offset zero.
pub proof fn lemma_lock_at_tip_offset_zero(r: TxRecord)
    requires
        r.lock_time == r.observed_block_height,
    ensures
        offset_of(r) == 0,
{
}

/// A record whose locktime is `back` blocks below the observed height sits
/// at absolute offset `-back`.
pub proof fn lemma_backdated_offset(r: TxRecord, back: int)
    requires
        r.lock_time == r.observed_block_height - back,
    ensures
        offset_of(r) == -back,
{
}

} // verus!
