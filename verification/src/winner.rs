//! Choosing the leader among the scores of the candidates.
//!
//! The leader is the first candidate to hold the highest score, provided
//! that score is positive: a later candidate with an equal score does not
//! displace an earlier one, and nobody leads when nothing scored.

use vstd::prelude::*;

verus! {

/// The candidate at `at` leads: its score is positive, every earlier score is
/// lower and no later score is higher.
pub open spec fn leads(scores: Seq<u64>, at: int) -> bool {
    &&& 0 <= at < scores.len()
    &&& scores[at] > 0
    &&& forall|i: int| 0 <= i < at ==> scores[i] < scores[at]
    &&& forall|i: int| at <= i < scores.len() ==> scores[i] <= scores[at]
}

/// Some candidate scored.
pub open spec fn any_scored(scores: Seq<u64>) -> bool {
    exists|i: int| 0 <= i < scores.len() && scores[i] > 0
}

/// The position of the leader, if there is one.
pub open spec fn leader(scores: Seq<u64>) -> Option<int> {
    if exists|at: int| leads(scores, at) {
        Some(choose|at: int| leads(scores, at))
    } else {
        None
    }
}

/// The score of the leader, or 0 when nobody leads.
pub open spec fn leading_score(scores: Seq<u64>) -> u64 {
    match leader(scores) {
        Some(at) => scores[at],
        None => 0,
    }
}

/// At most one candidate leads.
pub proof fn lemma_leader_unique(scores: Seq<u64>, one: int, other: int)
    requires
        leads(scores, one),
        leads(scores, other),
    ensures
        one == other,
{
}

/// A candidate that leads is the leader.
pub proof fn lemma_leader_is(scores: Seq<u64>, at: int)
    requires
        leads(scores, at),
    ensures
        leader(scores) == Some(at),
{
    let chosen = choose|at: int| leads(scores, at);
    lemma_leader_unique(scores, at, chosen);
}

/// Where nothing scored, nobody leads.
pub proof fn lemma_no_leader(scores: Seq<u64>)
    requires
        !any_scored(scores),
    ensures
        leader(scores) == None::<int>,
{
}

/// Where some candidate scored, one of them leads.
pub proof fn lemma_some_leader(scores: Seq<u64>)
    requires
        any_scored(scores),
    ensures
        leader(scores) is Some,
        leads(scores, leader(scores)->0),
    decreases scores.len(),
{
    let front = scores.drop_last();
    let end = scores.len() - 1;
    assert forall|i: int| 0 <= i < front.len() implies front[i] == scores[i] by {}
    if any_scored(front) {
        lemma_some_leader(front);
        let at = leader(front)->0;
        if scores[end] > front[at] {
            assert(leads(scores, end));
        } else {
            assert(leads(scores, at));
        }
    } else {
        let i = choose|i: int| 0 <= i < scores.len() && scores[i] > 0;
        if i < end {
            assert(front[i] > 0);
        }
        assert forall|k: int| 0 <= k < end implies scores[k] < scores[end] by {
            if scores[k] > 0 {
                assert(front[k] > 0);
            }
        }
        assert(leads(scores, end));
    }
}

/// Finds the leader among `scores`.
pub fn pick_leader(scores: &[u64]) -> (winner: Option<usize>)
    ensures
        winner is Some <==> any_scored(scores@),
        winner matches Some(at) ==> leads(scores@, at as int),
        winner matches Some(at) ==> leader(scores@) == Some(at as int),
        winner is None ==> leader(scores@) == None::<int>,
{
    let mut winner: Option<usize> = None;
    let mut best: u64 = 0;
    let mut i: usize = 0;
    while i < scores.len()
        invariant
            i <= scores.len(),
            winner is None ==> best == 0 && forall|k: int| 0 <= k < i ==> scores@[k] == 0,
            winner matches Some(at) ==> at < i && best == scores@[at as int] && leads(
                scores@.take(i as int),
                at as int,
            ),
        decreases scores.len() - i,
    {
        if scores[i] > best {
            best = scores[i];
            winner = Some(i);
        }
        i += 1;
    }
    proof {
        assert(scores@.take(scores.len() as int) =~= scores@);
        match winner {
            Some(at) => {
                lemma_leader_is(scores@, at as int);
            },
            None => {
                lemma_no_leader(scores@);
            },
        }
    }
    winner
}

} // verus!
