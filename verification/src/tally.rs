//! How often each outcome was seen for one piece of the target position.
//!
//! An outcome says what became of a tracked piece: `Some(d)` with another
//! square `d` is the square of its first move; `Some(d)` with the piece's own
//! square says that it was captured where it stood; `None` says that it never
//! moved again before the game ended.

use crate::square::{on_board, Square};
use std::collections::HashMap;
use vstd::prelude::*;
use vstd::std_specs::hash::group_hash_axioms;

verus! {

broadcast use {Square::lemma_on_board, group_hash_axioms};

/// Number of different outcomes: 64 squares and "never moved".
pub const OUTCOMES: usize = 65;

/// An outcome as the contracts see it: the number of the square, or `None`.
pub open spec fn outcome_view(to: Option<Square>) -> Option<int> {
    match to {
        Some(square) => Some(square@),
        None => None,
    }
}

/// Whether the value names an outcome: its square, if any, is on the board.
pub open spec fn is_outcome(outcome: Option<int>) -> bool {
    outcome matches Some(square) ==> on_board(square)
}

/// The place of an outcome in the fixed order of outcomes: squares by their
/// number, then "never moved".
pub open spec fn slot_of(outcome: Option<int>) -> int {
    match outcome {
        Some(square) => square,
        None => 64,
    }
}

/// The outcome at a place of the fixed order of outcomes.
pub open spec fn outcome_at(slot: int) -> Option<int> {
    if slot < 64 {
        Some(slot)
    } else {
        None
    }
}

/// How often a tally has seen an outcome: zero for one that it does not hold.
pub open spec fn occurrences(tally: Map<Option<int>, nat>, outcome: Option<int>) -> nat {
    if tally.dom().contains(outcome) {
        tally[outcome]
    } else {
        0
    }
}

/// The tally after one more occurrence of an outcome: a first occurrence
/// enters with count one, a later one adds one to its count.
pub open spec fn bumped(tally: Map<Option<int>, nat>, outcome: Option<int>) -> Map<
    Option<int>,
    nat,
> {
    tally.insert(outcome, occurrences(tally, outcome) + 1)
}

/// The occurrences of the first `n` outcomes of the fixed order, added up.
pub open spec fn sum_to(tally: Map<Option<int>, nat>, n: nat) -> nat
    decreases n,
{
    if n == 0 {
        0
    } else {
        sum_to(tally, (n - 1) as nat) + occurrences(tally, outcome_at(n - 1))
    }
}

/// The occurrences of all outcomes, added up.
pub open spec fn total(tally: Map<Option<int>, nat>) -> nat {
    sum_to(tally, OUTCOMES as nat)
}

/// One more occurrence of an outcome adds one to the sum of the outcomes up
/// to `n` if the outcome is among them, and nothing otherwise.
pub proof fn lemma_sum_bumped(tally: Map<Option<int>, nat>, outcome: Option<int>, n: nat)
    requires
        is_outcome(outcome),
        n <= OUTCOMES,
    ensures
        sum_to(bumped(tally, outcome), n) == sum_to(tally, n) + if slot_of(outcome) < n {
            1nat
        } else {
            0nat
        },
    decreases n,
{
    if n > 0 {
        lemma_sum_bumped(tally, outcome, (n - 1) as nat);
    }
}

/// One more occurrence of an outcome adds exactly one to the total.
pub proof fn lemma_total_bumped(tally: Map<Option<int>, nat>, outcome: Option<int>)
    requires
        is_outcome(outcome),
    ensures
        total(bumped(tally, outcome)) == total(tally) + 1,
{
    lemma_sum_bumped(tally, outcome, OUTCOMES as nat);
}

/// No outcome has been seen more often than all outcomes together.
pub proof fn lemma_occurrences_within_sum(
    tally: Map<Option<int>, nat>,
    outcome: Option<int>,
    n: nat,
)
    requires
        is_outcome(outcome),
        slot_of(outcome) < n <= OUTCOMES,
    ensures
        occurrences(tally, outcome) <= sum_to(tally, n),
    decreases n,
{
    if slot_of(outcome) < n - 1 {
        lemma_occurrences_within_sum(tally, outcome, (n - 1) as nat);
    }
}

/// A tally whose total is zero holds no outcome with a count.
pub proof fn lemma_zero_sum(tally: Map<Option<int>, nat>, outcome: Option<int>, n: nat)
    requires
        is_outcome(outcome),
        slot_of(outcome) < n <= OUTCOMES,
        sum_to(tally, n) == 0,
    ensures
        occurrences(tally, outcome) == 0,
{
    lemma_occurrences_within_sum(tally, outcome, n);
}

/// The empty tally has total zero.
pub proof fn lemma_sum_empty(n: nat)
    ensures
        sum_to(Map::<Option<int>, nat>::empty(), n) == 0,
    decreases n,
{
    if n > 0 {
        lemma_sum_empty((n - 1) as nat);
    }
}

/// The counts of the outcomes seen for one piece.
///
/// The view is the map from each outcome seen at least once to the number of
/// times it was seen.
pub struct Tally {
    counts: HashMap<u8, u32>,
}

impl View for Tally {
    type V = Map<Option<int>, nat>;

    closed spec fn view(&self) -> Map<Option<int>, nat> {
        Map::new(
            |outcome: Option<int>|
                is_outcome(outcome) && self.counts@.contains_key(slot_of(outcome) as u8),
            |outcome: Option<int>| self.counts@[slot_of(outcome) as u8] as nat,
        )
    }
}

impl Tally {
    /// The representation holds no outcome with a count of zero.
    pub closed spec fn wf(&self) -> bool {
        forall|key: u8| #[trigger] self.counts@.contains_key(key) ==> self.counts@[key] > 0
    }

    /// A tally holds outcomes only, each with a count of at least one that
    /// fits in 32 bits.
    pub proof fn lemma_entries(&self)
        requires
            self.wf(),
        ensures
            forall|outcome: Option<int>| #[trigger]
                self@.dom().contains(outcome) ==> is_outcome(outcome) && 0 < self@[outcome]
                    <= u32::MAX,
    {
    }

    /// The tally that has seen nothing.
    pub fn new() -> (r: Tally)
        ensures
            r.wf(),
            r@ == Map::<Option<int>, nat>::empty(),
    {
        let r = Tally { counts: HashMap::new() };
        assert(r@ =~= Map::<Option<int>, nat>::empty());
        r
    }

    /// How often the outcome was seen.
    pub fn get(&self, to: Option<Square>) -> (r: u32)
        requires
            self.wf(),
        ensures
            r == occurrences(self@, outcome_view(to)),
    {
        let key = slot(to);
        match self.counts.get(&key) {
            Some(seen) => *seen,
            None => 0,
        }
    }

    /// Counts one more occurrence of the outcome.
    pub fn bump(&mut self, to: Option<Square>)
        requires
            old(self).wf(),
            occurrences(old(self)@, outcome_view(to)) < u32::MAX,
        ensures
            final(self).wf(),
            final(self)@ == bumped(old(self)@, outcome_view(to)),
    {
        let key = slot(to);
        let seen = self.get(to);
        self.counts.insert(key, seen + 1);
        proof {
            assert forall|outcome: Option<int>|
                is_outcome(outcome) && outcome != outcome_view(to) implies slot_of(outcome) as u8
                != key by {}
            assert(self@ =~= bumped(old(self)@, outcome_view(to)));
        }
    }
}

/// The place of an outcome in the fixed order of outcomes.
pub(crate) fn slot(to: Option<Square>) -> (r: u8)
    ensures
        r == slot_of(outcome_view(to)),
        r < OUTCOMES,
        is_outcome(outcome_view(to)),
{
    match to {
        Some(square) => square.index(),
        None => 64,
    }
}

/// The outcome at a place of the fixed order of outcomes.
pub(crate) fn outcome(slot: usize) -> (r: Option<Square>)
    requires
        slot < OUTCOMES,
    ensures
        outcome_view(r) == outcome_at(slot as int),
        is_outcome(outcome_view(r)),
{
    if slot < 64 {
        Square::new(slot as u8)
    } else {
        None
    }
}

} // verus!
