use vstd::prelude::*;

use crate::interval::{all_intervals, interval_index, Interval};
use crate::ratio::{ratio_at_least, Ratio};
use crate::trainer::copy_counts;
use crate::trit::{difficulty_rank, Difficulty};

verus! {

/// Number of `true` entries in a sequence of flags.
pub open spec fn count_true(s: Seq<bool>) -> nat
    decreases s.len(),
{
    if s.len() == 0 {
        0
    } else {
        count_true(s.drop_last()) + if s.last() {
            1nat
        } else {
            0nat
        }
    }
}

/// No name occurs twice.
pub open spec fn names_distinct(names: Seq<Seq<char>>) -> bool {
    forall|i: int, j: int| 0 <= i < j < names.len() ==> #[trigger] names[i] != #[trigger] names[j]
}

/// The map from each name to the flag at the same position.
pub open spec fn mastery_map(names: Seq<Seq<char>>, flags: Seq<bool>) -> Map<Seq<char>, bool> {
    Map::new(
        |k: Seq<char>| exists|j: int| 0 <= j < names.len() && names[j] == k,
        |k: Seq<char>| flags[choose|j: int| 0 <= j < names.len() && names[j] == k],
    )
}

proof fn lemma_mastery_map_at(names: Seq<Seq<char>>, flags: Seq<bool>, j: int)
    requires
        names_distinct(names),
        0 <= j < names.len(),
    ensures
        mastery_map(names, flags).contains_key(names[j]),
        mastery_map(names, flags)[names[j]] == flags[j],
{
    let k = names[j];
    assert(exists|i: int| 0 <= i < names.len() && names[i] == k);
    let c = choose|i: int| 0 <= i < names.len() && names[i] == k;
    if c < j {
        assert(names[c] != names[j]);
    } else if c > j {
        assert(names[j] != names[c]);
    }
}

proof fn lemma_mastery_map_update(names: Seq<Seq<char>>, flags: Seq<bool>, j: int, b: bool)
    requires
        names_distinct(names),
        0 <= j < names.len(),
        flags.len() == names.len(),
    ensures
        mastery_map(names, flags.update(j, b)) == mastery_map(names, flags).insert(names[j], b),
{
    let m1 = mastery_map(names, flags.update(j, b));
    let m2 = mastery_map(names, flags).insert(names[j], b);
    assert forall|k: Seq<char>| #[trigger] m1.contains_key(k) implies m2.contains_key(k) && m1[k] == m2[k] by {
        let i = choose|i: int| 0 <= i < names.len() && names[i] == k;
        lemma_mastery_map_at(names, flags.update(j, b), i);
        lemma_mastery_map_at(names, flags, i);
    }
    assert forall|k: Seq<char>| #[trigger] m2.contains_key(k) implies m1.contains_key(k) by {
        if k != names[j] {
            let i = choose|i: int| 0 <= i < names.len() && names[i] == k;
            lemma_mastery_map_at(names, flags.update(j, b), i);
        } else {
            lemma_mastery_map_at(names, flags.update(j, b), j);
        }
    }
    assert(m1 =~= m2);
}

proof fn lemma_mastery_map_push(names: Seq<Seq<char>>, flags: Seq<bool>, k: Seq<char>, b: bool)
    requires
        names_distinct(names),
        flags.len() == names.len(),
        !mastery_map(names, flags).contains_key(k),
    ensures
        names_distinct(names.push(k)),
        mastery_map(names.push(k), flags.push(b)) == mastery_map(names, flags).insert(k, b),
{
    let n2 = names.push(k);
    let f2 = flags.push(b);
    assert forall|i: int| 0 <= i < names.len() implies names[i] != k by {
        if names[i] == k {
            assert(mastery_map(names, flags).contains_key(k));
        }
    }
    assert forall|i: int, j: int| 0 <= i < j < n2.len() implies #[trigger] n2[i] != #[trigger] n2[j] by {
        if j == names.len() {
            assert(names[i] != k);
        } else {
            assert(names[i] != names[j]);
        }
    }
    let m1 = mastery_map(n2, f2);
    let m2 = mastery_map(names, flags).insert(k, b);
    assert forall|k2: Seq<char>| #[trigger] m1.contains_key(k2) implies m2.contains_key(k2) && m1[k2] == m2[k2] by {
        let i = choose|i: int| 0 <= i < n2.len() && n2[i] == k2;
        lemma_mastery_map_at(n2, f2, i);
        if i < names.len() {
            assert(n2[i] == names[i]);
            lemma_mastery_map_at(names, flags, i);
        }
    }
    assert forall|k2: Seq<char>| #[trigger] m2.contains_key(k2) implies m1.contains_key(k2) by {
        if k2 != k {
            let i = choose|i: int| 0 <= i < names.len() && names[i] == k2;
            assert(n2[i] == names[i]);
            lemma_mastery_map_at(n2, f2, i);
        } else {
            lemma_mastery_map_at(n2, f2, names.len() as int);
        }
    }
    assert(m1 =~= m2);
}

proof fn lemma_count_true_update(s: Seq<bool>, j: int, b: bool)
    requires
        0 <= j < s.len(),
    ensures
        count_true(s.update(j, b)) + (if s[j] {
            1nat
        } else {
            0nat
        }) == count_true(s) + (if b {
            1nat
        } else {
            0nat
        }),
    decreases s.len(),
{
    let t = s.update(j, b);
    if j == s.len() - 1 {
        assert(t.drop_last() =~= s.drop_last());
    } else {
        lemma_count_true_update(s.drop_last(), j, b);
        assert(t.drop_last() =~= s.drop_last().update(j, b));
    }
}

proof fn lemma_count_true_bounded(s: Seq<bool>)
    ensures
        count_true(s) <= s.len(),
    decreases s.len(),
{
    if s.len() > 0 {
        lemma_count_true_bounded(s.drop_last());
    }
}

/// Whether a recorded accuracy counts as mastery (at least 90%).
pub open spec fn is_mastery(accuracy: (nat, nat)) -> bool {
    ratio_at_least(accuracy, 9, 10)
}

/// Whether a pass rate reaches the 80% needed to move on.
pub open spec fn reaches_pass_mark(rate: (nat, nat)) -> bool {
    ratio_at_least(rate, 4, 5)
}

/// Tracks mastery of ternary patterns across difficulty levels.
#[derive(Debug)]
pub struct ProgressTracker {
    /// Number of exercises completed per difficulty, indexed by difficulty rank.
    completed: Vec<u32>,
    /// Number of exercises passed (>= 80%) per difficulty.
    passed: Vec<u32>,
    /// Mastery flag per interval type, indexed in `Interval::all` order.
    mastered_intervals: Vec<bool>,
    /// Names of the chords whose mastery was recorded, each once.
    chord_names: Vec<String>,
    /// Mastery flag of each recorded chord, parallel to `chord_names`.
    chord_flags: Vec<bool>,
}

impl ProgressTracker {
    /// The tables have one entry per difficulty and per interval type, no level
    /// has more passes than completions, and each recorded chord name has one
    /// flag and occurs once.
    pub closed spec fn wf(self) -> bool {
        &&& self.completed@.len() == 3
        &&& self.passed@.len() == 3
        &&& forall|d: int| 0 <= d < 3 ==> #[trigger] self.passed@[d] <= self.completed@[d]
        &&& self.mastered_intervals@.len() == 5
        &&& self.chord_names@.len() == self.chord_flags@.len()
        &&& names_distinct(self.chord_name_views())
    }

    /// The recorded chord names, as character sequences.
    closed spec fn chord_name_views(self) -> Seq<Seq<char>> {
        self.chord_names@.map_values(|n: String| n@)
    }

    /// Exercises completed at difficulty `d`.
    pub closed spec fn completed_count(self, d: Difficulty) -> nat {
        self.completed@[difficulty_rank(d)] as nat
    }

    /// Exercises passed at difficulty `d`.
    pub closed spec fn passed_count(self, d: Difficulty) -> nat {
        self.passed@[difficulty_rank(d)] as nat
    }

    /// Whether interval `i` is recorded as mastered.
    pub closed spec fn interval_mastered(self, i: Interval) -> bool {
        self.mastered_intervals@[interval_index(i)]
    }

    /// The chords whose mastery was recorded, each with whether it was mastered.
    pub closed spec fn chord_mastery(self) -> Map<Seq<char>, bool> {
        mastery_map(self.chord_name_views(), self.chord_flags@)
    }

    /// Number of chords whose mastery was recorded.
    pub closed spec fn recorded_chords(self) -> nat {
        self.chord_names@.len()
    }

    /// Number of recorded chords that are mastered.
    pub closed spec fn mastered_chords(self) -> nat {
        count_true(self.chord_flags@)
    }

    /// Mastered chords as overall progress counts them: at most the ten standard chords.
    pub open spec fn counted_chords(self) -> nat {
        if self.mastered_chords() <= 10 {
            self.mastered_chords()
        } else {
            10
        }
    }

    /// Whether the chord called `name` is recorded as mastered.
    pub open spec fn chord_mastered(self, name: Seq<char>) -> bool {
        self.chord_mastery().contains_key(name) && self.chord_mastery()[name]
    }

    /// Number of mastered interval types.
    pub open spec fn mastered_intervals_total(self) -> nat {
        (if self.interval_mastered(Interval::Unison) {
            1nat
        } else {
            0nat
        }) + (if self.interval_mastered(Interval::MinorSecond) {
            1nat
        } else {
            0nat
        }) + (if self.interval_mastered(Interval::MajorSecond) {
            1nat
        } else {
            0nat
        }) + (if self.interval_mastered(Interval::MinorSecondDesc) {
            1nat
        } else {
            0nat
        }) + (if self.interval_mastered(Interval::MajorSecondDesc) {
            1nat
        } else {
            0nat
        })
    }

    /// Pass rate at difficulty `d`: passed over completed, or 0 when none was completed.
    pub open spec fn pass_rate_of(self, d: Difficulty) -> (nat, nat) {
        if self.completed_count(d) == 0 {
            (0, 1)
        } else {
            (self.passed_count(d), self.completed_count(d))
        }
    }

    /// The difficulty to practise next: Advanced once Intermediate or Advanced
    /// reach an 80% pass rate, otherwise Intermediate once Beginner does,
    /// otherwise Beginner.
    pub open spec fn recommended(self) -> Difficulty {
        if reaches_pass_mark(self.pass_rate_of(Difficulty::Advanced)) {
            Difficulty::Advanced
        } else if reaches_pass_mark(self.pass_rate_of(Difficulty::Intermediate)) {
            Difficulty::Advanced
        } else if reaches_pass_mark(self.pass_rate_of(Difficulty::Beginner)) {
            Difficulty::Intermediate
        } else {
            Difficulty::Beginner
        }
    }

    /// Everything but the exercise counts is the same in both trackers.
    pub open spec fn same_mastery(self, other: ProgressTracker) -> bool {
        &&& forall|i: Interval| #[trigger] self.interval_mastered(i) == other.interval_mastered(i)
        &&& self.chord_mastery() == other.chord_mastery()
        &&& self.recorded_chords() == other.recorded_chords()
        &&& self.mastered_chords() == other.mastered_chords()
    }

    /// Everything but the mastery records is the same in both trackers.
    pub open spec fn same_exercises(self, other: ProgressTracker) -> bool {
        forall|d: Difficulty|
            #[trigger] self.completed_count(d) == other.completed_count(d) && self.passed_count(d)
                == other.passed_count(d)
    }

    /// A tracker with nothing recorded.
    pub fn new() -> (r: ProgressTracker)
        ensures
            r.wf(),
            forall|d: Difficulty| #[trigger] r.completed_count(d) == 0,
            forall|d: Difficulty| #[trigger] r.passed_count(d) == 0,
            forall|i: Interval| !#[trigger] r.interval_mastered(i),
            r.chord_mastery() == Map::<Seq<char>, bool>::empty(),
            r.recorded_chords() == 0,
            r.mastered_chords() == 0,
    {
        let r = ProgressTracker {
            completed: vec![0, 0, 0],
            passed: vec![0, 0, 0],
            mastered_intervals: vec![false, false, false, false, false],
            chord_names: Vec::new(),
            chord_flags: Vec::new(),
        };
        assert(r.chord_mastery() =~= Map::<Seq<char>, bool>::empty());
        r
    }

    /// Record the result of an exercise.
    pub fn record_exercise(&mut self, difficulty: Difficulty, did_pass: bool)
        requires
            old(self).wf(),
            old(self).completed_count(difficulty) < u32::MAX,
        ensures
            final(self).wf(),
            forall|d: Difficulty|
                #[trigger] final(self).completed_count(d) == old(self).completed_count(d) + if d
                    == difficulty {
                    1nat
                } else {
                    0nat
                },
            forall|d: Difficulty|
                #[trigger] final(self).passed_count(d) == old(self).passed_count(d) + if d
                    == difficulty && did_pass {
                    1nat
                } else {
                    0nat
                },
            final(self).same_mastery(*old(self)),
    {
        let k = difficulty.index();
        let done = self.completed[k];
        let passes = self.passed[k];
        assert(self.passed@[k as int] <= self.completed@[k as int]);
        self.completed.set(k, done + 1);
        if did_pass {
            self.passed.set(k, passes + 1);
        }
        assert(self.chord_mastery() =~= old(self).chord_mastery());
    }

    /// Position of the recorded chord called `key`, if it was recorded.
    fn chord_slot(&self, key: &String) -> (r: Option<usize>)
        requires
            self.wf(),
        ensures
            match r {
                Some(j) => j < self.chord_name_views().len() && self.chord_name_views()[j as int]
                    == key@,
                None => !self.chord_mastery().contains_key(key@),
            },
    {
        let ghost names = self.chord_name_views();
        let mut j: usize = 0;
        while j < self.chord_names.len()
            invariant
                names == self.chord_name_views(),
                names.len() == self.chord_names@.len(),
                j <= names.len(),
                forall|i: int| 0 <= i < j ==> names[i] != key@,
            decreases names.len() - j,
        {
            if self.chord_names[j] == *key {
                return Some(j);
            }
            j = j + 1;
        }
        None
    }

    /// Record chord mastery (an accuracy of at least 90% counts as mastered).
    pub fn record_chord_mastery(&mut self, chord_name: &str, accuracy: Ratio)
        requires
            old(self).wf(),
        ensures
            final(self).wf(),
            final(self).chord_mastery() == old(self).chord_mastery().insert(
                chord_name@,
                is_mastery(accuracy@),
            ),
            final(self).recorded_chords() == old(self).recorded_chords() + if old(
                self,
            ).chord_mastery().contains_key(chord_name@) {
                0nat
            } else {
                1nat
            },
            final(self).mastered_chords() + (if old(self).chord_mastered(chord_name@) {
                1nat
            } else {
                0nat
            }) == old(self).mastered_chords() + (if is_mastery(accuracy@) {
                1nat
            } else {
                0nat
            }),
            forall|i: Interval| #[trigger]
                final(self).interval_mastered(i) == old(self).interval_mastered(i),
            final(self).same_exercises(*old(self)),
    {
        let mastered = accuracy.at_least(9, 10);
        let key: String = chord_name.to_owned();
        let ghost names = self.chord_name_views();
        let ghost flags = self.chord_flags@;
        match self.chord_slot(&key) {
            Some(j) => {
                proof {
                    lemma_mastery_map_update(names, flags, j as int, mastered);
                    lemma_count_true_update(flags, j as int, mastered);
                    lemma_mastery_map_at(names, flags, j as int);
                }
                self.chord_flags.set(j, mastered);
            },
            None => {
                self.chord_flags.push(mastered);
                self.chord_names.push(key);
                proof {
                    lemma_mastery_map_push(names, flags, chord_name@, mastered);
                    assert(self.chord_name_views() =~= names.push(chord_name@));
                    assert(self.chord_flags@.drop_last() =~= flags);
                }
            },
        }
    }

    /// Pass rate for a difficulty level: passed over completed, 0 when none was completed.
    pub fn pass_rate(&self, difficulty: Difficulty) -> (r: Ratio)
        requires
            self.wf(),
        ensures
            r@ == self.pass_rate_of(difficulty),
            self.passed_count(difficulty) <= self.completed_count(difficulty),
            self.completed_count(difficulty) > 0 ==> r@ == (
                self.passed_count(difficulty),
                self.completed_count(difficulty),
            ),
            self.completed_count(difficulty) == 0 ==> r@ == (0nat, 1nat),
    {
        let k = difficulty.index();
        assert(self.passed@[k as int] <= self.completed@[k as int]);
        let c = self.completed[k];
        let p = self.passed[k];
        if c == 0 {
            Ratio::new(0, 1)
        } else {
            Ratio::new(p as u64, c as u64)
        }
    }

    /// Whether a specific interval is mastered.
    pub fn is_interval_mastered(&self, interval: Interval) -> (r: bool)
        requires
            self.wf(),
        ensures
            r == self.interval_mastered(interval),
    {
        self.mastered_intervals[interval.index()]
    }

    /// Whether a specific chord is mastered; a chord never recorded is not.
    pub fn is_chord_mastered(&self, chord_name: &str) -> (r: bool)
        requires
            self.wf(),
        ensures
            r == self.chord_mastered(chord_name@),
    {
        let key: String = chord_name.to_owned();
        match self.chord_slot(&key) {
            Some(j) => {
                proof {
                    lemma_mastery_map_at(self.chord_name_views(), self.chord_flags@, j as int);
                }
                self.chord_flags[j]
            },
            None => false,
        }
    }

    /// Count of mastered intervals.
    pub fn mastered_interval_count(&self) -> (r: usize)
        requires
            self.wf(),
        ensures
            r == self.mastered_intervals_total(),
            r == count_true(Seq::new(5, |k: int| self.interval_mastered(all_intervals()[k]))),
    {
        proof {
            lemma_mastered_intervals_count(*self);
        }
        let flags = &self.mastered_intervals;
        let mut n: usize = 0;
        if flags[0] {
            n = n + 1;
        }
        if flags[1] {
            n = n + 1;
        }
        if flags[2] {
            n = n + 1;
        }
        if flags[3] {
            n = n + 1;
        }
        if flags[4] {
            n = n + 1;
        }
        n
    }

    /// Count of mastered chords.
    pub fn mastered_chord_count(&self) -> (r: usize)
        requires
            self.wf(),
        ensures
            r == self.mastered_chords(),
            r <= self.recorded_chords(),
    {
        let mut n: usize = 0;
        let mut k: usize = 0;
        while k < self.chord_flags.len()
            invariant
                k <= self.chord_flags@.len(),
                n == count_true(self.chord_flags@.take(k as int)),
                n <= k,
            decreases self.chord_flags@.len() - k,
        {
            assert(self.chord_flags@.take(k + 1).drop_last() =~= self.chord_flags@.take(k as int));
            if self.chord_flags[k] {
                n = n + 1;
            }
            k = k + 1;
        }
        assert(self.chord_flags@.take(k as int) =~= self.chord_flags@);
        n
    }

    /// Overall progress summary (0 to 1): the mean of the mastered share of the
    /// five interval types and the mastered share of the ten standard chords,
    /// i.e. (intervals / 5 + min(chords, 10) / 10) / 2.
    pub fn overall_progress(&self) -> (r: Ratio)
        requires
            self.wf(),
        ensures
            r@ == (2 * self.mastered_intervals_total() + self.counted_chords(), 20nat),
            r@.0 <= r@.1,
    {
        let intervals = self.mastered_interval_count();
        let mastered = self.mastered_chord_count();
        let chords: u64 = if mastered <= 10 {
            mastered as u64
        } else {
            10
        };
        Ratio::new(2 * (intervals as u64) + chords, 20)
    }

    /// Recommend the next difficulty level based on performance.
    pub fn recommend_difficulty(&self) -> (r: Difficulty)
        requires
            self.wf(),
        ensures
            r == self.recommended(),
            level_passes(*self, Difficulty::Intermediate) || level_passes(*self, Difficulty::Advanced)
                ==> r == Difficulty::Advanced,
            r == Difficulty::Intermediate <==> (!level_passes(*self, Difficulty::Intermediate)
                && !level_passes(*self, Difficulty::Advanced) && level_passes(
                *self,
                Difficulty::Beginner,
            )),
            r == Difficulty::Beginner <==> (!level_passes(*self, Difficulty::Intermediate)
                && !level_passes(*self, Difficulty::Advanced) && !level_passes(
                *self,
                Difficulty::Beginner,
            )),
    {
        proof {
            lemma_recommendation(*self);
        }
        if self.pass_rate(Difficulty::Advanced).at_least(4, 5) {
            Difficulty::Advanced
        } else if self.pass_rate(Difficulty::Intermediate).at_least(4, 5) {
            Difficulty::Advanced
        } else if self.pass_rate(Difficulty::Beginner).at_least(4, 5) {
            Difficulty::Intermediate
        } else {
            Difficulty::Beginner
        }
    }

    /// Record interval mastery (an accuracy of at least 90% counts as mastered).
    pub fn record_interval_mastery(&mut self, interval: Interval, accuracy: Ratio)
        requires
            old(self).wf(),
        ensures
            final(self).wf(),
            forall|i: Interval|
                #[trigger] final(self).interval_mastered(i) == if i == interval {
                    is_mastery(accuracy@)
                } else {
                    old(self).interval_mastered(i)
                },
            final(self).chord_mastery() == old(self).chord_mastery(),
            final(self).recorded_chords() == old(self).recorded_chords(),
            final(self).mastered_chords() == old(self).mastered_chords(),
            final(self).same_exercises(*old(self)),
    {
        let mastered = accuracy.at_least(9, 10);
        let k = interval.index();
        self.mastered_intervals.set(k, mastered);
        assert(self.chord_mastery() =~= old(self).chord_mastery());
    }
}

/// An exact copy of a list of flags.
fn copy_flags(t: &Vec<bool>) -> (r: Vec<bool>)
    ensures
        r@ == t@,
{
    let mut r: Vec<bool> = Vec::new();
    let mut j: usize = 0;
    while j < t.len()
        invariant
            j <= t@.len(),
            r@ =~= t@.take(j as int),
        decreases t@.len() - j,
    {
        r.push(t[j]);
        j = j + 1;
    }
    r
}

/// An exact copy of a list of names.
fn copy_names(t: &Vec<String>) -> (r: Vec<String>)
    ensures
        r@ == t@,
{
    let mut r: Vec<String> = Vec::new();
    let mut j: usize = 0;
    while j < t.len()
        invariant
            j <= t@.len(),
            r@ =~= t@.take(j as int),
        decreases t@.len() - j,
    {
        r.push(t[j].clone());
        j = j + 1;
    }
    r
}

impl Clone for ProgressTracker {
    fn clone(&self) -> (r: ProgressTracker)
        ensures
            self.wf() ==> r.wf(),
            r.same_exercises(*self),
            r.same_mastery(*self),
    {
        let r = ProgressTracker {
            completed: copy_counts(&self.completed),
            passed: copy_counts(&self.passed),
            mastered_intervals: copy_flags(&self.mastered_intervals),
            chord_names: copy_names(&self.chord_names),
            chord_flags: copy_flags(&self.chord_flags),
        };
        assert(r.chord_name_views() =~= self.chord_name_views());
        r
    }
}

impl Default for ProgressTracker {
    fn default() -> (r: ProgressTracker)
        ensures
            r.wf(),
            forall|d: Difficulty| #[trigger] r.completed_count(d) == 0,
            forall|d: Difficulty| #[trigger] r.passed_count(d) == 0,
            forall|i: Interval| !#[trigger] r.interval_mastered(i),
            r.chord_mastery() == Map::<Seq<char>, bool>::empty(),
            r.recorded_chords() == 0,
            r.mastered_chords() == 0,
    {
        Self::new()
    }
}

/// Mastery means an accuracy of at least nine in ten.
pub proof fn lemma_mastery_threshold(accuracy: (nat, nat))
    ensures
        is_mastery(accuracy) <==> 10 * accuracy.0 >= 9 * accuracy.1,
{
}

/// What `is_chord_mastered` reads back after `record_chord_mastery`: the recorded
/// chord is mastered exactly when its accuracy reached 90%, and every other
/// chord keeps its standing.
pub proof fn lemma_chord_mastery_read_back(
    before: ProgressTracker,
    after: ProgressTracker,
    name: Seq<char>,
    accuracy: (nat, nat),
)
    requires
        after.chord_mastery() == before.chord_mastery().insert(name, is_mastery(accuracy)),
    ensures
        after.chord_mastered(name) == is_mastery(accuracy),
        forall|other: Seq<char>|
            other != name ==> #[trigger] after.chord_mastered(other) == before.chord_mastered(
                other,
            ),
{
}

/// Overall progress counts at most five intervals and at most ten chords, so it
/// never exceeds one.
pub proof fn lemma_overall_progress_bounded(t: ProgressTracker)
    ensures
        t.mastered_intervals_total() <= 5,
        t.counted_chords() <= 10,
        2 * t.mastered_intervals_total() + t.counted_chords() <= 20,
{
}

/// At least one exercise was completed at level `d`, and at least four in five
/// of those completed there were passed.
pub open spec fn level_passes(t: ProgressTracker, d: Difficulty) -> bool {
    t.completed_count(d) > 0 && 5 * t.passed_count(d) >= 4 * t.completed_count(d)
}

/// The pass rate of a level is its own passes over its own completions (0 when
/// none was completed), whatever happened at the other levels.
pub proof fn lemma_pass_rate_per_level(t: ProgressTracker, d: Difficulty)
    ensures
        t.completed_count(d) > 0 ==> t.pass_rate_of(d) == (t.passed_count(d), t.completed_count(d)),
        t.completed_count(d) == 0 ==> t.pass_rate_of(d) == (0nat, 1nat),
        reaches_pass_mark(t.pass_rate_of(d)) <==> level_passes(t, d),
{
}

/// Recording exercises at one level leaves the pass rate of every other level
/// unchanged: two trackers whose counts agree at a level have the same pass
/// rate there.
pub proof fn lemma_pass_rate_other_levels(before: ProgressTracker, after: ProgressTracker, d: Difficulty)
    requires
        after.completed_count(d) == before.completed_count(d),
        after.passed_count(d) == before.passed_count(d),
    ensures
        after.pass_rate_of(d) == before.pass_rate_of(d),
{
}

/// The recommendation: Advanced whenever the Intermediate or the Advanced level
/// reaches an 80% pass rate, whatever the Beginner rate; otherwise Intermediate
/// exactly when the Beginner level does; otherwise Beginner.
pub proof fn lemma_recommendation(t: ProgressTracker)
    ensures
        level_passes(t, Difficulty::Intermediate) || level_passes(t, Difficulty::Advanced)
            ==> t.recommended() == Difficulty::Advanced,
        t.recommended() == Difficulty::Intermediate <==> (!level_passes(t, Difficulty::Intermediate)
            && !level_passes(t, Difficulty::Advanced) && level_passes(t, Difficulty::Beginner)),
        t.recommended() == Difficulty::Beginner <==> (!level_passes(t, Difficulty::Intermediate)
            && !level_passes(t, Difficulty::Advanced) && !level_passes(t, Difficulty::Beginner)),
{
    lemma_pass_rate_per_level(t, Difficulty::Beginner);
    lemma_pass_rate_per_level(t, Difficulty::Intermediate);
    lemma_pass_rate_per_level(t, Difficulty::Advanced);
}

/// The mastered interval count is the number of `true` flags among the five
/// interval types, listed in `Interval::all` order.
pub proof fn lemma_mastered_intervals_count(t: ProgressTracker)
    ensures
        t.mastered_intervals_total() == count_true(
            Seq::new(5, |k: int| t.interval_mastered(all_intervals()[k])),
        ),
        t.mastered_intervals_total() <= 5,
{
    let s = Seq::new(5, |k: int| t.interval_mastered(all_intervals()[k]));
    assert(s.drop_last().drop_last().drop_last().drop_last().drop_last() =~= Seq::<bool>::empty());
    reveal_with_fuel(count_true, 6);
}

/// Mastering one more interval type, all others unchanged, raises the mastered
/// interval count by exactly one.
pub proof fn lemma_mastering_one_more_interval(
    before: ProgressTracker,
    after: ProgressTracker,
    i: Interval,
)
    requires
        !before.interval_mastered(i),
        after.interval_mastered(i),
        forall|j: Interval| j != i ==> #[trigger] after.interval_mastered(j) == before.interval_mastered(j),
    ensures
        after.mastered_intervals_total() == before.mastered_intervals_total() + 1,
{
    assert(after.interval_mastered(Interval::Unison) == before.interval_mastered(Interval::Unison)
        || i == Interval::Unison);
    assert(after.interval_mastered(Interval::MinorSecond) == before.interval_mastered(
        Interval::MinorSecond,
    ) || i == Interval::MinorSecond);
    assert(after.interval_mastered(Interval::MajorSecond) == before.interval_mastered(
        Interval::MajorSecond,
    ) || i == Interval::MajorSecond);
    assert(after.interval_mastered(Interval::MinorSecondDesc) == before.interval_mastered(
        Interval::MinorSecondDesc,
    ) || i == Interval::MinorSecondDesc);
    assert(after.interval_mastered(Interval::MajorSecondDesc) == before.interval_mastered(
        Interval::MajorSecondDesc,
    ) || i == Interval::MajorSecondDesc);
}

/// Overall progress counts every mastered chord up to the ten standard ones:
/// below that cap each mastered chord adds one twentieth, and beyond it chords
/// add nothing; each mastered interval adds two twentieths.
pub proof fn lemma_overall_progress_parts(t: ProgressTracker)
    ensures
        t.mastered_chords() <= 10 ==> t.counted_chords() == t.mastered_chords(),
        t.mastered_chords() > 10 ==> t.counted_chords() == 10,
        t.counted_chords() <= t.mastered_chords(),
{
}

} // verus!
