//! Confidence levels and the score thresholds that select them.
//!
//! Weights, scores and confidence levels are fixed-point numbers counted in
//! thousandths, so that `1000` stands for one whole.

use vstd::prelude::*;

verus! {

/// One whole, in thousandths.
pub const UNIT: u32 = 1000;

/// The smallest winning score that gives full confidence.
pub const HIGH_SCORE: u64 = 5000;

/// The smallest winning score that gives strong confidence.
pub const MEDIUM_SCORE: u64 = 2000;

/// Confidence of a win with a score of at least `HIGH_SCORE`.
pub const CONFIDENCE_FULL: u32 = 1000;

/// Confidence of a win with a score of at least `MEDIUM_SCORE`.
pub const CONFIDENCE_STRONG: u32 = 800;

/// Confidence of a win with any smaller positive score.
pub const CONFIDENCE_WEAK: u32 = 500;

/// Confidence when nothing scored.
pub const CONFIDENCE_NONE: u32 = 0;

/// The confidence that a winning score earns: the thresholds are tried from
/// the highest down and the first one reached decides.
pub open spec fn confidence_of(score: nat) -> nat {
    if score >= HIGH_SCORE {
        CONFIDENCE_FULL as nat
    } else if score >= MEDIUM_SCORE {
        CONFIDENCE_STRONG as nat
    } else if score > 0 {
        CONFIDENCE_WEAK as nat
    } else {
        CONFIDENCE_NONE as nat
    }
}

/// Derives the confidence level from a winning score.
pub fn confidence_for(score: u64) -> (level: u32)
    ensures
        level == confidence_of(score as nat),
{
    if score >= HIGH_SCORE {
        CONFIDENCE_FULL
    } else if score >= MEDIUM_SCORE {
        CONFIDENCE_STRONG
    } else if score > 0 {
        CONFIDENCE_WEAK
    } else {
        CONFIDENCE_NONE
    }
}

/// `level` is one of the four confidence levels.
pub open spec fn is_level(level: nat) -> bool {
    ||| level == CONFIDENCE_NONE
    ||| level == CONFIDENCE_WEAK
    ||| level == CONFIDENCE_STRONG
    ||| level == CONFIDENCE_FULL
}

/// Every score earns one of the four confidence levels.
pub proof fn lemma_confidence_is_level(score: nat)
    ensures
        is_level(confidence_of(score)),
{
}

/// A higher score never earns less confidence.
pub proof fn lemma_confidence_monotone(lower: nat, higher: nat)
    requires
        lower <= higher,
    ensures
        confidence_of(lower) <= confidence_of(higher),
{
}

/// Every score at or above the high threshold earns full confidence, and no
/// score earns more.
pub proof fn lemma_confidence_tops_out(score: nat)
    ensures
        score >= HIGH_SCORE ==> confidence_of(score) == CONFIDENCE_FULL,
        confidence_of(score) <= CONFIDENCE_FULL,
{
}

} // verus!
