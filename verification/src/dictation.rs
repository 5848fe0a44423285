use vstd::prelude::*;

use crate::chord::copy_trits;
use crate::ratio::{ratio_at_least, Ratio};
use crate::trit::{seq_len_for, trit_value, Difficulty, Trit};

verus! {

/// One xorshift64 step.
pub open spec fn xorshift_step(s: u64) -> u64 {
    let a = s ^ (s << 13u64);
    let b = a ^ (a >> 7u64);
    b ^ (b << 17u64)
}

/// The generator state after `k` steps from `seed`.
pub open spec fn rng_state(seed: u64, k: nat) -> u64
    decreases k,
{
    if k == 0 {
        seed
    } else {
        xorshift_step(rng_state(seed, (k - 1) as nat))
    }
}

/// The trit a random draw stands for: its remainder modulo 3 picks Neg, Zero or Pos.
pub open spec fn trit_of_draw(x: u64) -> Trit {
    if x % 3 == 0 {
        Trit::Neg
    } else if x % 3 == 1 {
        Trit::Zero
    } else {
        Trit::Pos
    }
}

/// The sequence of `len` trits drawn from the generator seeded with `seed`.
pub open spec fn generated_sequence(seed: u64, len: nat) -> Seq<Trit> {
    Seq::new(len, |i: int| trit_of_draw(rng_state(seed, (i + 1) as nat)))
}

/// Number of positions below `n` at which `a` and `b` agree.
pub open spec fn agreements(a: Seq<Trit>, b: Seq<Trit>, n: int) -> nat
    decreases n,
{
    if n <= 0 {
        0
    } else {
        agreements(a, b, n - 1) + if a[n - 1] == b[n - 1] {
            1nat
        } else {
            0nat
        }
    }
}

/// Number of positions at which an attempt reproduces the target; positions
/// past the end of either sequence do not count.
pub open spec fn correct_positions(target: Seq<Trit>, attempt: Seq<Trit>) -> nat {
    agreements(
        target,
        attempt,
        if target.len() <= attempt.len() {
            target.len() as int
        } else {
            attempt.len() as int
        },
    )
}

/// The accuracy of `correct` out of `total`, where an empty target counts as fully reproduced.
pub open spec fn dictation_accuracy(correct: nat, total: nat) -> (nat, nat) {
    if total == 0 {
        (1, 1)
    } else {
        (correct, total)
    }
}

/// Whether `correct` out of `total` reaches the 80% passing threshold.
pub open spec fn dictation_passes(correct: nat, total: nat) -> bool {
    ratio_at_least(dictation_accuracy(correct, total), 4, 5)
}

/// Simple deterministic xorshift64 generator for exercise generation.
struct SimpleRng {
    state: u64,
}

fn simple_rng(_len: usize, seed: u64) -> (r: SimpleRng)
    ensures
        r.state == seed,
{
    SimpleRng { state: seed }
}

impl SimpleRng {
    fn next(&mut self) -> (r: u64)
        ensures
            r == xorshift_step(old(self).state),
            final(self).state == r,
    {
        self.state = self.state ^ (self.state << 13u64);
        self.state = self.state ^ (self.state >> 7u64);
        self.state = self.state ^ (self.state << 17u64);
        self.state
    }
}

/// A dictation exercise: reproduce a heard ternary sequence from memory.
#[derive(Debug)]
pub struct DictationExercise {
    /// The target sequence to reproduce.
    target: Vec<Trit>,
    /// Difficulty level.
    difficulty: Difficulty,
}

impl View for DictationExercise {
    type V = (Seq<Trit>, Difficulty);

    closed spec fn view(&self) -> (Seq<Trit>, Difficulty) {
        (self.target@, self.difficulty)
    }
}

impl DictationExercise {
    /// Create a new dictation exercise with the given target sequence.
    pub fn new(target: Vec<Trit>, difficulty: Difficulty) -> (r: DictationExercise)
        ensures
            r@ == (target@, difficulty),
    {
        DictationExercise { target, difficulty }
    }

    /// Generate a pseudo-random exercise at the given difficulty: a sequence of the
    /// difficulty's default length, drawn from an xorshift64 generator seeded with `seed`.
    pub fn generate(difficulty: Difficulty, seed: u64) -> (r: DictationExercise)
        ensures
            r@ == (generated_sequence(seed, seq_len_for(difficulty)), difficulty),
    {
        let len = difficulty.default_seq_len();
        let mut rng = simple_rng(len, seed);
        let mut target: Vec<Trit> = Vec::new();
        let mut i: usize = 0;
        while i < len
            invariant
                i <= len,
                len == seq_len_for(difficulty),
                rng.state == rng_state(seed, i as nat),
                target@ =~= generated_sequence(seed, i as nat),
            decreases len - i,
        {
            let x = rng.next();
            let t = if x % 3 == 0 {
                Trit::Neg
            } else if x % 3 == 1 {
                Trit::Zero
            } else {
                Trit::Pos
            };
            target.push(t);
            i = i + 1;
        }
        DictationExercise { target, difficulty }
    }

    /// Score a reproduction attempt against the target.
    /// Returns (correct_count, total_count, accuracy); an empty target scores 1/1.
    pub fn score(&self, attempt: &[Trit]) -> (r: (usize, usize, Ratio))
        ensures
            r.0 == correct_positions(self@.0, attempt@),
            r.1 == self@.0.len(),
            r.0 <= r.1,
            r.2@ == dictation_accuracy(r.0 as nat, r.1 as nat),
    {
        let total = self.target.len();
        let n: usize = if total <= attempt.len() {
            total
        } else {
            attempt.len()
        };
        let mut correct: usize = 0;
        let mut k: usize = 0;
        proof {
            lemma_score_bounded(self.target@, attempt@);
        }
        while k < n
            invariant
                n <= total,
                n <= attempt@.len(),
                total == self.target@.len(),
                k <= n,
                correct == agreements(self.target@, attempt@, k as int),
                correct <= k,
            decreases n - k,
        {
            if self.target[k] == attempt[k] {
                correct = correct + 1;
            }
            k = k + 1;
        }
        let accuracy = if total == 0 {
            Ratio::new(1, 1)
        } else {
            Ratio::new(correct as u64, total as u64)
        };
        (correct, total, accuracy)
    }

    /// Grade the attempt as pass/fail (>= 80% = pass).
    pub fn passed(&self, attempt: &[Trit]) -> (r: bool)
        ensures
            r == dictation_passes(correct_positions(self@.0, attempt@), self@.0.len()),
    {
        let (_, _, accuracy) = self.score(attempt);
        accuracy.at_least(4, 5)
    }

    /// The target sequence.
    pub fn target(&self) -> (r: &[Trit])
        ensures
            r@ == self@.0,
    {
        self.target.as_slice()
    }

    /// The difficulty level.
    pub fn difficulty(&self) -> (r: Difficulty)
        ensures
            r == self@.1,
    {
        self.difficulty
    }
}

impl Clone for DictationExercise {
    fn clone(&self) -> (r: DictationExercise)
        ensures
            r@ == self@,
    {
        DictationExercise { target: copy_trits(self.target.as_slice()), difficulty: self.difficulty }
    }
}

proof fn lemma_agreements_bounded(a: Seq<Trit>, b: Seq<Trit>, n: int)
    ensures
        agreements(a, b, n) <= if n < 0 {
            0
        } else {
            n
        },
    decreases n,
{
    if n > 0 {
        lemma_agreements_bounded(a, b, n - 1);
    }
}

/// An attempt never scores more correct positions than the target or the
/// attempt has, so the accuracy never exceeds one.
pub proof fn lemma_score_bounded(target: Seq<Trit>, attempt: Seq<Trit>)
    ensures
        correct_positions(target, attempt) <= target.len(),
        correct_positions(target, attempt) <= attempt.len(),
        dictation_accuracy(correct_positions(target, attempt), target.len()).0
            <= dictation_accuracy(correct_positions(target, attempt), target.len()).1,
{
    let n = if target.len() <= attempt.len() {
        target.len() as int
    } else {
        attempt.len() as int
    };
    lemma_agreements_bounded(target, attempt, n);
}

/// An attempt passes exactly when it gets at least four positions in five right
/// (an empty target is always passed).
pub proof fn lemma_pass_threshold(correct: nat, total: nat)
    ensures
        dictation_passes(correct, total) <==> (total == 0 || 5 * correct >= 4 * total),
{
}

/// Reproducing the target exactly gets every position right, and so passes.
pub proof fn lemma_perfect_recall(target: Seq<Trit>)
    ensures
        correct_positions(target, target) == target.len(),
        dictation_passes(correct_positions(target, target), target.len()),
        dictation_accuracy(correct_positions(target, target), target.len()) == (
            if target.len() == 0 {
                1nat
            } else {
                target.len()
            },
            if target.len() == 0 {
                1nat
            } else {
                target.len()
            },
        ),
{
    lemma_agreements_self(target, target.len() as int);
}

proof fn lemma_agreements_self(a: Seq<Trit>, n: int)
    requires
        0 <= n <= a.len(),
    ensures
        agreements(a, a, n) == n,
    decreases n,
{
    if n > 0 {
        lemma_agreements_self(a, n - 1);
    }
}

/// A generated exercise has exactly the length its difficulty asks for.
pub proof fn lemma_generated_length(seed: u64, d: Difficulty)
    ensures
        generated_sequence(seed, seq_len_for(d)).len() == seq_len_for(d),
{
}

/// An attempt that differs from the target at every compared position scores 0.
pub proof fn lemma_all_wrong_scores_zero(target: Seq<Trit>, attempt: Seq<Trit>)
    requires
        forall|k: int|
            0 <= k < target.len() && k < attempt.len() ==> #[trigger] target[k] != attempt[k],
    ensures
        correct_positions(target, attempt) == 0,
{
    let n = if target.len() <= attempt.len() {
        target.len() as int
    } else {
        attempt.len() as int
    };
    lemma_agreements_all_differ(target, attempt, n);
}

proof fn lemma_agreements_all_differ(a: Seq<Trit>, b: Seq<Trit>, n: int)
    requires
        n <= a.len(),
        n <= b.len(),
        forall|k: int| 0 <= k < a.len() && k < b.len() ==> #[trigger] a[k] != b[k],
    ensures
        agreements(a, b, n) == 0,
    decreases n,
{
    if n > 0 {
        lemma_agreements_all_differ(a, b, n - 1);
    }
}

/// Changing one trit of an attempt changes its score by exactly whether that
/// position matched before and after: a position counts exactly when the
/// attempt's trit equals the target's there.
pub proof fn lemma_score_one_position(
    target: Seq<Trit>,
    attempt: Seq<Trit>,
    k: int,
    x: Trit,
)
    requires
        0 <= k < target.len(),
        0 <= k < attempt.len(),
    ensures
        correct_positions(target, attempt.update(k, x)) + (if target[k] == attempt[k] {
            1nat
        } else {
            0nat
        }) == correct_positions(target, attempt) + (if target[k] == x {
            1nat
        } else {
            0nat
        }),
{
    let n = if target.len() <= attempt.len() {
        target.len() as int
    } else {
        attempt.len() as int
    };
    lemma_agreements_update(target, attempt, n, k, x);
}

proof fn lemma_agreements_update(a: Seq<Trit>, b: Seq<Trit>, n: int, k: int, x: Trit)
    requires
        0 <= k < n,
        n <= a.len(),
        n <= b.len(),
    ensures
        agreements(a, b.update(k, x), n) + (if a[k] == b[k] {
            1nat
        } else {
            0nat
        }) == agreements(a, b, n) + (if a[k] == x {
            1nat
        } else {
            0nat
        }),
    decreases n,
{
    if n - 1 > k {
        lemma_agreements_update(a, b, n - 1, k, x);
    } else {
        lemma_agreements_prefix_same(a, b, b.update(k, x), k);
    }
}

proof fn lemma_agreements_prefix_same(a: Seq<Trit>, b: Seq<Trit>, c: Seq<Trit>, n: int)
    requires
        0 <= n <= b.len(),
        n <= c.len(),
        forall|j: int| 0 <= j < n ==> b[j] == c[j],
    ensures
        agreements(a, b, n) == agreements(a, c, n),
    decreases n,
{
    if n > 0 {
        lemma_agreements_prefix_same(a, b, c, n - 1);
    }
}

/// Each draw picks the trit whose value is its remainder modulo 3, minus one.
pub proof fn lemma_draw_value(x: u64)
    ensures
        trit_value(trit_of_draw(x)) == (x % 3) as int - 1,
{
}

} // verus!
