use ternary_ear_training::{
    Chord, ChordRecognizer, DictationExercise, Difficulty, Interval, IntervalTrainer,
    ProgressTracker, Ratio, Trit,
};
use Trit::{Neg, Pos, Zero};

fn as_f64(r: Ratio) -> f64 {
    r.numerator() as f64 / r.denominator() as f64
}

#[test]
fn trit_values() {
    assert_eq!(Trit::Neg.value(), -1);
    assert_eq!(Trit::Zero.value(), 0);
    assert_eq!(Trit::Pos.value(), 1);
}

#[test]
fn trit_from_i8() {
    assert_eq!(Trit::from_i8(-1), Some(Trit::Neg));
    assert_eq!(Trit::from_i8(0), Some(Trit::Zero));
    assert_eq!(Trit::from_i8(1), Some(Trit::Pos));
    assert_eq!(Trit::from_i8(2), None);
}

#[test]
fn trit_all() {
    assert_eq!(Trit::all().len(), 3);
}

#[test]
fn interval_classification() {
    assert_eq!(Interval::between(Trit::Pos, Trit::Pos), Interval::Unison);
    assert_eq!(Interval::between(Trit::Neg, Trit::Zero), Interval::MinorSecond);
    assert_eq!(Interval::between(Trit::Neg, Trit::Pos), Interval::MajorSecond);
    assert_eq!(Interval::between(Trit::Pos, Trit::Zero), Interval::MinorSecondDesc);
    assert_eq!(Interval::between(Trit::Pos, Trit::Neg), Interval::MajorSecondDesc);
}

#[test]
fn interval_all_count() {
    assert_eq!(Interval::all().len(), 5);
}

#[test]
fn interval_names() {
    for interval in Interval::all() {
        assert!(!interval.name().is_empty());
    }
}

#[test]
fn extract_intervals_from_sequence() {
    let seq = vec![Pos, Pos, Zero, Neg, Pos];
    let intervals = IntervalTrainer::extract_intervals(&seq);
    assert_eq!(intervals.len(), 4);
    assert_eq!(intervals[0], Interval::Unison);
    assert_eq!(intervals[1], Interval::MinorSecondDesc);
    assert_eq!(intervals[2], Interval::MinorSecondDesc);
    assert_eq!(intervals[3], Interval::MajorSecond);
}

#[test]
fn interval_trainer_correct_quiz() {
    let mut trainer = IntervalTrainer::new();
    assert!(trainer.quiz(Trit::Neg, Trit::Pos, Interval::MajorSecond));
    assert!(trainer.quiz(Trit::Pos, Trit::Pos, Interval::Unison));
    assert_eq!(trainer.total_attempts(), 2);
    assert_eq!(as_f64(trainer.overall_accuracy()), 1.0);
}

#[test]
fn interval_trainer_incorrect_quiz() {
    let mut trainer = IntervalTrainer::new();
    assert!(!trainer.quiz(Trit::Neg, Trit::Pos, Interval::Unison));
    assert_eq!(as_f64(trainer.overall_accuracy()), 0.0);
}

#[test]
fn interval_trainer_mixed_accuracy() {
    let mut trainer = IntervalTrainer::new();
    trainer.quiz(Trit::Pos, Trit::Pos, Interval::Unison); // correct
    trainer.quiz(Trit::Pos, Trit::Pos, Interval::Unison); // correct
    trainer.quiz(Trit::Pos, Trit::Neg, Interval::Unison); // wrong (actual is MajorSecondDesc)
    // Overall: 2 correct out of 3 total
    assert!((as_f64(trainer.overall_accuracy()) - 2.0 / 3.0).abs() < 1e-9);
    // Unison specifically: 2 correct, 0 incorrect
    assert!((as_f64(trainer.accuracy_for(Interval::Unison)) - 1.0).abs() < 1e-9);
}

#[test]
fn interval_trainer_empty_accuracy() {
    let trainer = IntervalTrainer::new();
    assert_eq!(as_f64(trainer.overall_accuracy()), 0.0);
    assert_eq!(as_f64(trainer.accuracy_for(Interval::Unison)), 0.0);
}

#[test]
fn chord_matches_prefix() {
    let chord = Chord::new("test", vec![Pos, Zero, Neg]);
    assert!(chord.matches_prefix(&[Pos, Zero, Neg, Pos]));
    assert!(!chord.matches_prefix(&[Pos, Zero, Pos]));
}

#[test]
fn recognize_power_chord() {
    let recognizer = ChordRecognizer::new();
    let result = recognizer.identify(&[Pos, Zero, Neg]);
    assert_eq!(result.map(|(n, l)| (n.to_string(), l)), Some(("power".to_string(), 3)));
}

#[test]
fn recognize_augmented() {
    let recognizer = ChordRecognizer::new();
    let result = recognizer.identify(&[Pos, Pos, Pos]);
    assert_eq!(result.map(|(n, _)| n.to_string()), Some("augmented".to_string()));
}

#[test]
fn recognize_no_match() {
    let recognizer = ChordRecognizer::new();
    let result = recognizer.identify(&[Neg, Pos]); // too short for any 3-trit chord
    assert!(result.is_none());
}

#[test]
fn identify_all_chords() {
    let recognizer = ChordRecognizer::new();
    let seq = vec![Pos, Zero, Neg, Neg, Neg, Zero]; // power + minor-triad
    let results = recognizer.identify_all(&seq);
    assert_eq!(results.len(), 2);
    assert_eq!(results[0].0, "power");
    assert_eq!(results[1].0, "minor-triad");
}

#[test]
fn add_custom_chord() {
    let mut recognizer = ChordRecognizer::new();
    let initial_count = recognizer.chord_count();
    recognizer.add_chord(Chord::new("custom", vec![Pos, Neg, Pos, Neg]));
    assert_eq!(recognizer.chord_count(), initial_count + 1);
    let result = recognizer.identify(&[Pos, Neg, Pos, Neg]);
    assert_eq!(result.map(|(n, _)| n.to_string()), Some("custom".to_string()));
}

#[test]
fn standard_chords_count() {
    let chords = ChordRecognizer::standard_chords();
    assert_eq!(chords.len(), 10);
}

#[test]
fn dictation_perfect_score() {
    let target = vec![Pos, Zero, Neg, Pos];
    let exercise = DictationExercise::new(target.clone(), Difficulty::Beginner);
    let (correct, total, accuracy) = exercise.score(&target);
    assert_eq!(correct, 4);
    assert_eq!(total, 4);
    assert_eq!(as_f64(accuracy), 1.0);
}

#[test]
fn dictation_partial_score() {
    let exercise = DictationExercise::new(vec![Pos, Zero, Neg, Pos], Difficulty::Beginner);
    let attempt = vec![Pos, Zero, Pos, Pos];
    let (correct, total, accuracy) = exercise.score(&attempt);
    assert_eq!(correct, 3);
    assert_eq!(total, 4);
    assert!((as_f64(accuracy) - 0.75).abs() < 1e-9);
}

#[test]
fn dictation_pass_fail() {
    let exercise = DictationExercise::new(vec![Pos, Zero, Neg, Pos], Difficulty::Beginner);
    assert!(exercise.passed(&[Pos, Zero, Neg, Pos]));
    assert!(!exercise.passed(&[Pos, Zero, Neg, Neg])); // 3/4 = 75% — not passed
    assert!(!exercise.passed(&[Neg, Neg, Neg, Neg])); // 1/4 = 25%
}

#[test]
fn dictation_generate_deterministic() {
    let a = DictationExercise::generate(Difficulty::Beginner, 42);
    let b = DictationExercise::generate(Difficulty::Beginner, 42);
    assert_eq!(a.target(), b.target());
}

#[test]
fn dictation_generate_respects_difficulty() {
    let beginner = DictationExercise::generate(Difficulty::Beginner, 1);
    let intermediate = DictationExercise::generate(Difficulty::Intermediate, 1);
    let advanced = DictationExercise::generate(Difficulty::Advanced, 1);
    assert_eq!(beginner.target().len(), 4);
    assert_eq!(intermediate.target().len(), 8);
    assert_eq!(advanced.target().len(), 16);
}

#[test]
fn dictation_difficulty_accessor() {
    let exercise = DictationExercise::generate(Difficulty::Advanced, 1);
    assert_eq!(exercise.difficulty(), Difficulty::Advanced);
}

#[test]
fn progress_tracker_exercises() {
    let mut tracker = ProgressTracker::new();
    tracker.record_exercise(Difficulty::Beginner, true);
    tracker.record_exercise(Difficulty::Beginner, true);
    tracker.record_exercise(Difficulty::Beginner, false);
    assert!((as_f64(tracker.pass_rate(Difficulty::Beginner)) - 2.0 / 3.0).abs() < 1e-9);
}

#[test]
fn progress_tracker_empty_pass_rate() {
    let tracker = ProgressTracker::new();
    assert_eq!(as_f64(tracker.pass_rate(Difficulty::Beginner)), 0.0);
}

#[test]
fn progress_tracker_interval_mastery() {
    let mut tracker = ProgressTracker::new();
    assert!(!tracker.is_interval_mastered(Interval::Unison));
    tracker.record_interval_mastery(Interval::Unison, Ratio::new(95, 100));
    assert!(tracker.is_interval_mastered(Interval::Unison));
    tracker.record_interval_mastery(Interval::MinorSecond, Ratio::new(85, 100));
    assert!(!tracker.is_interval_mastered(Interval::MinorSecond));
}

#[test]
fn progress_tracker_chord_mastery() {
    let mut tracker = ProgressTracker::new();
    assert!(!tracker.is_chord_mastered("power"));
    tracker.record_chord_mastery("power", Ratio::new(92, 100));
    assert!(tracker.is_chord_mastered("power"));
    tracker.record_chord_mastery("augmented", Ratio::new(89, 100));
    assert!(!tracker.is_chord_mastered("augmented"));
}

#[test]
fn progress_tracker_overall_progress() {
    let mut tracker = ProgressTracker::new();
    assert_eq!(as_f64(tracker.overall_progress()), 0.0);
    // Master all intervals
    for interval in Interval::all() {
        tracker.record_interval_mastery(*interval, Ratio::new(1, 1));
    }
    // Progress should be 0.5 (intervals done, chords not)
    assert!((as_f64(tracker.overall_progress()) - 0.5).abs() < 1e-9);
}

#[test]
fn progress_tracker_recommend_difficulty() {
    let mut tracker = ProgressTracker::new();
    assert_eq!(tracker.recommend_difficulty(), Difficulty::Beginner);
    // Pass enough beginner exercises
    for _ in 0..10 {
        tracker.record_exercise(Difficulty::Beginner, true);
    }
    assert_eq!(tracker.recommend_difficulty(), Difficulty::Intermediate);
}

#[test]
fn progress_tracker_recommend_advanced() {
    let mut tracker = ProgressTracker::new();
    for _ in 0..10 {
        tracker.record_exercise(Difficulty::Intermediate, true);
    }
    assert_eq!(tracker.recommend_difficulty(), Difficulty::Advanced);
}

#[test]
fn difficulty_ordering() {
    assert!(Difficulty::Beginner < Difficulty::Intermediate);
    assert!(Difficulty::Intermediate < Difficulty::Advanced);
}

#[test]
fn difficulty_default_seq_lengths() {
    assert_eq!(Difficulty::Beginner.default_seq_len(), 4);
    assert_eq!(Difficulty::Intermediate.default_seq_len(), 8);
    assert_eq!(Difficulty::Advanced.default_seq_len(), 16);
}

#[test]
fn difficulty_chord_counts() {
    assert_eq!(Difficulty::Beginner.chord_count(), 3);
    assert_eq!(Difficulty::Intermediate.chord_count(), 6);
    assert_eq!(Difficulty::Advanced.chord_count(), 10);
}
