//! Pattern recognition training for ternary agents: intervals between trits,
//! named chord patterns, dictation exercises and progress tracking.

pub mod chord;
pub mod dictation;
pub mod interval;
pub mod progress;
pub mod ratio;
pub mod trainer;
pub mod trit;

pub use chord::{Chord, ChordRecognizer};
pub use dictation::DictationExercise;
pub use interval::Interval;
pub use progress::ProgressTracker;
pub use ratio::Ratio;
pub use trainer::IntervalTrainer;
pub use trit::{Difficulty, Trit};
