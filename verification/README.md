# ternary_ear_training

Pattern recognition training for ternary agents (trits −1, 0, +1), written in
Verus: every function of the library carries a contract that Verus proves.

- `src/trit.rs` — `Trit`, `Difficulty` and their per-level parameters.
- `src/interval.rs` — `Interval` and the classification of trit pairs.
- `src/trainer.rs` — `IntervalTrainer`: quizzes and per-interval counts.
- `src/chord.rs` — `Chord`, `ChordRecognizer`: greedy longest-match recognition.
- `src/dictation.rs` — `DictationExercise`: xorshift64 generation and scoring.
- `src/progress.rs` — `ProgressTracker`: pass rates, mastery, recommendations.
- `src/ratio.rs` — `Ratio`, the exact fraction in which accuracies are reported.
- `app/lib.rs` — `f64` views of those fractions, outside the verified part.
