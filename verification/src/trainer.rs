use vstd::prelude::*;

use crate::interval::{interval_between, interval_index, Interval};
use crate::ratio::Ratio;
use crate::trit::Trit;

verus! {

/// Sum of the five per-interval counts in a table.
pub open spec fn table_sum(t: Seq<u32>) -> nat {
    t[0] as nat + t[1] as nat + t[2] as nat + t[3] as nat + t[4] as nat
}

/// Trains recognition of intervals (transitions) in ternary sequences.
///
/// Keeps, per interval type, how many quiz answers were right and how many were
/// wrong; the tables are indexed by `Interval::all` order.
#[derive(Debug)]
pub struct IntervalTrainer {
    /// Count of correctly identified intervals per type.
    correct: Vec<u32>,
    /// Count of incorrect attempts per type.
    incorrect: Vec<u32>,
}

impl IntervalTrainer {
    /// The tables have one entry per interval type, and all answers together
    /// still fit in the `u32` that `total_attempts` reports.
    pub closed spec fn wf(self) -> bool {
        &&& self.correct@.len() == 5
        &&& self.incorrect@.len() == 5
        &&& table_sum(self.correct@) + table_sum(self.incorrect@) <= u32::MAX
    }

    /// How many quiz answers about interval `i` were right.
    pub closed spec fn correct_count(self, i: Interval) -> nat {
        self.correct@[interval_index(i)] as nat
    }

    /// How many quiz answers about interval `i` were wrong.
    pub closed spec fn incorrect_count(self, i: Interval) -> nat {
        self.incorrect@[interval_index(i)] as nat
    }

    /// Right answers over all interval types.
    pub open spec fn total_correct(self) -> nat {
        self.correct_count(Interval::Unison) + self.correct_count(Interval::MinorSecond)
            + self.correct_count(Interval::MajorSecond) + self.correct_count(
            Interval::MinorSecondDesc,
        ) + self.correct_count(Interval::MajorSecondDesc)
    }

    /// Wrong answers over all interval types.
    pub open spec fn total_incorrect(self) -> nat {
        self.incorrect_count(Interval::Unison) + self.incorrect_count(Interval::MinorSecond)
            + self.incorrect_count(Interval::MajorSecond) + self.incorrect_count(
            Interval::MinorSecondDesc,
        ) + self.incorrect_count(Interval::MajorSecondDesc)
    }

    /// All quiz answers so far.
    pub open spec fn attempts(self) -> nat {
        self.total_correct() + self.total_incorrect()
    }

    /// A trainer with no answers recorded.
    pub fn new() -> (r: IntervalTrainer)
        ensures
            r.wf(),
            forall|i: Interval| r.correct_count(i) == 0 && r.incorrect_count(i) == 0,
            r.attempts() == 0,
    {
        IntervalTrainer { correct: vec![0, 0, 0, 0, 0], incorrect: vec![0, 0, 0, 0, 0] }
    }

    /// Present a training pair: given `first`, the agent must identify the interval
    /// to `second`. Returns whether the guess was correct, and counts the answer
    /// under the actual interval.
    pub fn quiz(&mut self, first: Trit, second: Trit, guess: Interval) -> (r: bool)
        requires
            old(self).wf(),
            old(self).attempts() < u32::MAX,
        ensures
            final(self).wf(),
            r == (guess == interval_between(first, second)),
            forall|i: Interval|
                #[trigger] final(self).correct_count(i) == old(self).correct_count(i) + if r && i
                    == interval_between(first, second) {
                    1nat
                } else {
                    0nat
                },
            forall|i: Interval|
                #[trigger] final(self).incorrect_count(i) == old(self).incorrect_count(i) + if !r
                    && i == interval_between(first, second) {
                    1nat
                } else {
                    0nat
                },
            final(self).attempts() == old(self).attempts() + 1,
    {
        let actual = Interval::between(first, second);
        let k = actual.index();
        if guess == actual {
            let v = self.correct[k];
            assert(v <= table_sum(self.correct@));
            let ghost before = self.correct@;
            self.correct.set(k, v + 1);
            assert(table_sum(self.correct@) == table_sum(before) + 1);
            true
        } else {
            let v = self.incorrect[k];
            assert(v <= table_sum(self.incorrect@));
            let ghost before = self.incorrect@;
            self.incorrect.set(k, v + 1);
            assert(table_sum(self.incorrect@) == table_sum(before) + 1);
            false
        }
    }

    /// Accuracy for a specific interval type: right answers over all answers about
    /// it, or 0 when it was never asked.
    pub fn accuracy_for(&self, interval: Interval) -> (r: Ratio)
        requires
            self.wf(),
        ensures
            r@ == (if self.correct_count(interval) + self.incorrect_count(interval) == 0 {
                (0nat, 1nat)
            } else {
                (
                    self.correct_count(interval),
                    self.correct_count(interval) + self.incorrect_count(interval),
                )
            }),
    {
        let k = interval.index();
        let c: u64 = self.correct[k] as u64;
        let i: u64 = self.incorrect[k] as u64;
        if c + i == 0 {
            Ratio::new(0, 1)
        } else {
            Ratio::new(c, c + i)
        }
    }

    /// Sum of a five-entry table.
    fn sum_table(t: &Vec<u32>) -> (r: u64)
        requires
            t@.len() == 5,
        ensures
            r == table_sum(t@),
    {
        t[0] as u64 + t[1] as u64 + t[2] as u64 + t[3] as u64 + t[4] as u64
    }

    /// Overall accuracy across all interval types: all right answers over all
    /// answers, or 0 before the first answer.
    pub fn overall_accuracy(&self) -> (r: Ratio)
        requires
            self.wf(),
        ensures
            r@ == (if self.attempts() == 0 {
                (0nat, 1nat)
            } else {
                (self.total_correct(), self.attempts())
            }),
    {
        let total_correct = Self::sum_table(&self.correct);
        let total_incorrect = Self::sum_table(&self.incorrect);
        let total = total_correct + total_incorrect;
        if total == 0 {
            Ratio::new(0, 1)
        } else {
            Ratio::new(total_correct, total)
        }
    }

    /// Total number of quiz attempts.
    pub fn total_attempts(&self) -> (r: u32)
        requires
            self.wf(),
        ensures
            r == self.attempts(),
    {
        let total = Self::sum_table(&self.correct) + Self::sum_table(&self.incorrect);
        total as u32
    }

    /// Extract the interval sequence from a ternary sequence: one interval per pair
    /// of neighbouring trits.
    pub fn extract_intervals(sequence: &[Trit]) -> (r: Vec<Interval>)
        ensures
            r@.len() == if sequence@.len() == 0 {
                0
            } else {
                sequence@.len() - 1
            },
            forall|k: int|
                0 <= k < r@.len() ==> #[trigger] r@[k] == interval_between(
                    sequence@[k],
                    sequence@[k + 1],
                ),
    {
        let mut r: Vec<Interval> = Vec::new();
        let mut k: usize = 1;
        while k < sequence.len()
            invariant
                1 <= k,
                sequence@.len() == 0 ==> k == 1,
                sequence@.len() > 0 ==> k <= sequence@.len(),
                r@.len() == k - 1,
                forall|j: int|
                    0 <= j < r@.len() ==> #[trigger] r@[j] == interval_between(
                        sequence@[j],
                        sequence@[j + 1],
                    ),
            decreases sequence@.len() - k,
        {
            r.push(Interval::between(sequence[k - 1], sequence[k]));
            k = k + 1;
        }
        r
    }
}

/// An exact copy of a table of counts.
pub(crate) fn copy_counts(t: &Vec<u32>) -> (r: Vec<u32>)
    ensures
        r@ == t@,
{
    let mut r: Vec<u32> = Vec::new();
    let mut j: usize = 0;
    while j < t.len()
        invariant
            j <= t@.len(),
            r@ =~= t@.take(j as int),
        decreases t@.len() - j,
    {
        r.push(t[j]);
        j = j + 1;
    }
    r
}

impl Clone for IntervalTrainer {
    fn clone(&self) -> (r: IntervalTrainer)
        ensures
            self.wf() ==> r.wf(),
            forall|i: Interval|
                r.correct_count(i) == self.correct_count(i) && r.incorrect_count(i)
                    == self.incorrect_count(i),
    {
        IntervalTrainer { correct: copy_counts(&self.correct), incorrect: copy_counts(&self.incorrect) }
    }
}

impl Default for IntervalTrainer {
    fn default() -> (r: IntervalTrainer)
        ensures
            r.wf(),
            forall|i: Interval| r.correct_count(i) == 0 && r.incorrect_count(i) == 0,
            r.attempts() == 0,
    {
        Self::new()
    }
}

/// The attempts of a trainer are its right answers plus its wrong ones, so
/// neither an interval's accuracy nor the overall accuracy exceeds one.
pub proof fn lemma_accuracy_at_most_one(t: IntervalTrainer, i: Interval)
    ensures
        t.attempts() == t.total_correct() + t.total_incorrect(),
        t.total_correct() <= t.attempts(),
        t.correct_count(i) <= t.correct_count(i) + t.incorrect_count(i),
{
}

} // verus!
