use ternary_ear_training::{
    Chord, ChordRecognizer, DictationExercise, Difficulty, Interval, IntervalTrainer,
    ProgressTracker, Ratio, Trit,
};
use Trit::{Neg, Pos, Zero};

fn mirror(i: Interval) -> Interval {
    match i {
        Interval::Unison => Interval::Unison,
        Interval::MinorSecond => Interval::MinorSecondDesc,
        Interval::MajorSecond => Interval::MajorSecondDesc,
        Interval::MinorSecondDesc => Interval::MinorSecond,
        Interval::MajorSecondDesc => Interval::MajorSecond,
    }
}

#[test]
fn from_i8_roundtrip_and_rejects() {
    for t in Trit::all() {
        assert_eq!(Trit::from_i8(t.value()), Some(*t));
    }
    assert_eq!(Trit::from_i8(-2), None);
    assert_eq!(Trit::from_i8(127), None);
    assert_eq!(Trit::from_i8(-128), None);
    assert_eq!(Trit::all(), &[Neg, Zero, Pos]);
}

#[test]
fn between_reversed_is_mirror_and_unison_iff_same() {
    for a in Trit::all() {
        for b in Trit::all() {
            let ab = Interval::between(*a, *b);
            assert_eq!(Interval::between(*b, *a), mirror(ab));
            assert_eq!(ab == Interval::Unison, a == b);
        }
    }
    assert_eq!(Interval::between(Zero, Pos), Interval::MinorSecond);
    assert_eq!(Interval::between(Zero, Neg), Interval::MinorSecondDesc);
}

#[test]
fn interval_names_exact() {
    assert_eq!(Interval::Unison.name(), "unison");
    assert_eq!(Interval::MinorSecond.name(), "minor second (up)");
    assert_eq!(Interval::MajorSecond.name(), "major second (up)");
    assert_eq!(Interval::MinorSecondDesc.name(), "minor second (down)");
    assert_eq!(Interval::MajorSecondDesc.name(), "major second (down)");
    assert_eq!(
        Interval::all(),
        &[
            Interval::Unison,
            Interval::MinorSecond,
            Interval::MajorSecond,
            Interval::MinorSecondDesc,
            Interval::MajorSecondDesc
        ]
    );
}

#[test]
fn extract_intervals_short_sequences() {
    assert!(IntervalTrainer::extract_intervals(&[]).is_empty());
    assert!(IntervalTrainer::extract_intervals(&[Pos]).is_empty());
    assert_eq!(IntervalTrainer::extract_intervals(&[Neg, Pos]), vec![Interval::MajorSecond]);
}

#[test]
fn quiz_counts_each_answer_once() {
    let mut trainer = IntervalTrainer::default();
    assert_eq!(trainer.total_attempts(), 0);
    assert!(!trainer.quiz(Zero, Pos, Interval::MajorSecond)); // actual: minor second
    assert!(trainer.quiz(Zero, Pos, Interval::MinorSecond));
    assert!(trainer.quiz(Pos, Zero, Interval::MinorSecondDesc));
    assert_eq!(trainer.total_attempts(), 3);
    let minor = trainer.accuracy_for(Interval::MinorSecond);
    assert_eq!((minor.numerator(), minor.denominator()), (1, 2));
    let guessed = trainer.accuracy_for(Interval::MajorSecond);
    assert_eq!((guessed.numerator(), guessed.denominator()), (0, 1));
    let overall = trainer.overall_accuracy();
    assert_eq!((overall.numerator(), overall.denominator()), (2, 3));
    let copy = trainer.clone();
    assert_eq!(copy.total_attempts(), 3);
}

#[test]
fn ratio_at_least_is_exact() {
    let r = Ratio::new(4, 5);
    assert!(r.at_least(4, 5));
    assert!(r.at_least(8, 10));
    assert!(!r.at_least(9, 10));
    assert!(Ratio::new(u64::MAX, u64::MAX).at_least(1, 1));
    assert!(!Ratio::new(u64::MAX - 1, u64::MAX).at_least(1, 1));
}

#[test]
fn identify_prefers_longest_then_earliest() {
    let mut recognizer = ChordRecognizer::new();
    // rising-fifth (4 trits) beats inverse-power (3 trits) on a common prefix.
    let r = recognizer.identify(&[Neg, Zero, Pos, Zero]);
    assert_eq!(r, Some(("rising-fifth", 4)));
    let r = recognizer.identify(&[Neg, Zero, Pos, Pos]);
    assert_eq!(r, Some(("inverse-power", 3)));
    // A later chord of equal length does not replace an earlier one.
    recognizer.add_chord(Chord::new("power-again", vec![Pos, Zero, Neg]));
    assert_eq!(recognizer.identify(&[Pos, Zero, Neg]), Some(("power", 3)));
    // A longer custom chord wins.
    recognizer.add_chord(Chord::new("long-power", vec![Pos, Zero, Neg, Neg, Neg]));
    assert_eq!(recognizer.identify(&[Pos, Zero, Neg, Neg, Neg, Pos]), Some(("long-power", 5)));
    assert_eq!(recognizer.chord_count(), 12);
}

#[test]
fn identify_all_skips_unrecognized_trits() {
    let recognizer = ChordRecognizer::default();
    let seq = [Pos, Neg, Pos, Pos, Pos, Neg];
    let results = recognizer.identify_all(&seq);
    assert_eq!(results, vec![("augmented", 3)]);
    let covered: usize = results.iter().map(|(_, l)| *l).sum();
    assert!(covered <= seq.len());
    assert!(recognizer.identify_all(&[]).is_empty());
    let all = recognizer.identify_all(&[Zero, Zero, Zero, Neg, Zero, Pos, Zero]);
    assert_eq!(all, vec![("neutral", 3), ("rising-fifth", 4)]);
}

#[test]
fn standard_chords_patterns() {
    let chords = ChordRecognizer::standard_chords();
    assert_eq!(chords[0], Chord::new("power", vec![Pos, Zero, Neg]));
    assert_eq!(chords[9], Chord::new("rising-fifth", vec![Neg, Zero, Pos, Zero]));
    assert_eq!(chords[8].clone(), Chord::new("neutral", vec![Zero, Zero, Zero]));
    assert!(chords.iter().all(|c| !c.pattern.is_empty()));
}

#[test]
fn chord_matches_prefix_edges() {
    let chord = Chord::new("x", vec![Pos, Zero]);
    assert!(chord.matches_prefix(&[Pos, Zero]));
    assert!(!chord.matches_prefix(&[Pos]));
    assert!(Chord::new("empty", vec![]).matches_prefix(&[]));
}

#[test]
fn generate_exact_sequences() {
    let a = DictationExercise::generate(Difficulty::Beginner, 42);
    assert_eq!(a.target(), &[Zero, Zero, Neg, Zero]);
    let b = DictationExercise::generate(Difficulty::Beginner, 1);
    assert_eq!(b.target(), &[Neg, Pos, Neg, Pos]);
    let zero = DictationExercise::generate(Difficulty::Beginner, 0);
    assert_eq!(zero.target(), &[Neg, Neg, Neg, Neg]);
    let c = DictationExercise::generate(Difficulty::Intermediate, 7);
    assert_eq!(c.target(), &[Neg, Neg, Neg, Zero, Zero, Zero, Zero, Neg]);
    assert_eq!(c.clone().target(), c.target());
}

#[test]
fn score_edges() {
    let empty = DictationExercise::new(vec![], Difficulty::Beginner);
    let (c, t, acc) = empty.score(&[Pos]);
    assert_eq!((c, t, acc.numerator(), acc.denominator()), (0, 0, 1, 1));
    assert!(empty.passed(&[]));
    let ex = DictationExercise::new(vec![Pos, Zero, Neg, Pos, Zero], Difficulty::Beginner);
    // A short attempt only counts the positions it has.
    let (c, t, acc) = ex.score(&[Pos, Zero]);
    assert_eq!((c, t, acc.numerator(), acc.denominator()), (2, 5, 2, 5));
    // 4 of 5 is exactly the 80% mark.
    assert!(ex.passed(&[Pos, Zero, Neg, Pos, Pos]));
    assert!(!ex.passed(&[Pos, Zero, Neg, Neg, Pos]));
    // Extra trits beyond the target do not count.
    let (c, _, _) = ex.score(&[Pos, Zero, Neg, Pos, Zero, Pos, Pos]);
    assert_eq!(c, 5);
}

#[test]
fn progress_chord_mastery_overwrites_and_counts() {
    let mut tracker = ProgressTracker::default();
    assert_eq!(tracker.mastered_chord_count(), 0);
    tracker.record_chord_mastery("power", Ratio::new(9, 10));
    tracker.record_chord_mastery("neutral", Ratio::new(1, 1));
    assert_eq!(tracker.mastered_chord_count(), 2);
    tracker.record_chord_mastery("power", Ratio::new(1, 2));
    assert!(!tracker.is_chord_mastered("power"));
    assert!(tracker.is_chord_mastered("neutral"));
    assert_eq!(tracker.mastered_chord_count(), 1);
    let p = tracker.overall_progress();
    assert_eq!((p.numerator(), p.denominator()), (1, 20));
    let copy = tracker.clone();
    assert!(copy.is_chord_mastered("neutral"));
}

#[test]
fn progress_interval_count_and_rates() {
    let mut tracker = ProgressTracker::new();
    tracker.record_interval_mastery(Interval::Unison, Ratio::new(9, 10));
    tracker.record_interval_mastery(Interval::MajorSecond, Ratio::new(899, 1000));
    assert_eq!(tracker.mastered_interval_count(), 1);
    tracker.record_exercise(Difficulty::Advanced, true);
    tracker.record_exercise(Difficulty::Advanced, false);
    let r = tracker.pass_rate(Difficulty::Advanced);
    assert_eq!((r.numerator(), r.denominator()), (1, 2));
    assert_eq!(tracker.recommend_difficulty(), Difficulty::Beginner);
    for _ in 0..8 {
        tracker.record_exercise(Difficulty::Advanced, true);
    }
    // 9 of 10 advanced exercises passed.
    assert_eq!(tracker.recommend_difficulty(), Difficulty::Advanced);
}

#[test]
fn recommend_needs_eighty_percent() {
    let mut tracker = ProgressTracker::new();
    for i in 0..5 {
        tracker.record_exercise(Difficulty::Beginner, i != 0);
    }
    // 4 of 5 = 80% passes the mark.
    assert_eq!(tracker.recommend_difficulty(), Difficulty::Intermediate);
    tracker.record_exercise(Difficulty::Beginner, false);
    // 4 of 6 does not.
    assert_eq!(tracker.recommend_difficulty(), Difficulty::Beginner);
}

#[test]
fn overall_progress_caps_chords_at_ten() {
    let mut tracker = ProgressTracker::new();
    for interval in Interval::all() {
        tracker.record_interval_mastery(*interval, Ratio::new(1, 1));
    }
    for k in 0..21 {
        let name = format!("chord-{}", k);
        tracker.record_chord_mastery(&name, Ratio::new(1, 1));
    }
    assert_eq!(tracker.mastered_chord_count(), 21);
    let p = tracker.overall_progress();
    assert_eq!((p.numerator(), p.denominator()), (20, 20));
}
