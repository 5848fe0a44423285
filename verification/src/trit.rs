use vstd::prelude::*;

verus! {

/// A single ternary digit.
#[derive(Debug, Clone, Copy, PartialEq, Eq, Hash, Structural)]
pub enum Trit {
    Neg,
    Zero,
    Pos,
}

/// The integer a trit stands for: -1, 0 or +1.
pub open spec fn trit_value(t: Trit) -> int {
    match t {
        Trit::Neg => -1,
        Trit::Zero => 0,
        Trit::Pos => 1,
    }
}

impl Trit {
    /// Numeric value: -1, 0, or +1.
    pub fn value(&self) -> (v: i8)
        ensures
            v == trit_value(*self),
    {
        match self {
            Trit::Neg => -1,
            Trit::Zero => 0,
            Trit::Pos => 1,
        }
    }

    /// All possible trit values.
    pub fn all() -> (r: &'static [Trit; 3])
        ensures
            r@ == seq![Trit::Neg, Trit::Zero, Trit::Pos],
    {
        &[Trit::Neg, Trit::Zero, Trit::Pos]
    }

    /// Create from an `i8` value; `None` unless the value is -1, 0 or 1.
    pub fn from_i8(v: i8) -> (r: Option<Trit>)
        ensures
            r == trit_of_int(v as int),
            r matches Some(t) ==> trit_value(t) == v,
            r is None <==> !(-1 <= v <= 1),
    {
        match v {
            -1 => Some(Trit::Neg),
            0 => Some(Trit::Zero),
            1 => Some(Trit::Pos),
            _ => None,
        }
    }
}

/// The trit that stands for an integer, if any.
pub open spec fn trit_of_int(v: int) -> Option<Trit> {
    if v == -1 {
        Some(Trit::Neg)
    } else if v == 0 {
        Some(Trit::Zero)
    } else if v == 1 {
        Some(Trit::Pos)
    } else {
        None
    }
}

/// Reading a trit's value back gives the same trit, and every value that reads
/// back as a trit is that trit's value.
pub proof fn lemma_trit_value_roundtrip(t: Trit, v: int)
    ensures
        trit_of_int(trit_value(t)) == Some(t),
        trit_of_int(v) == Some(t) ==> trit_value(t) == v,
        -1 <= trit_value(t) <= 1,
{
}

/// `Trit::all` lists every trit exactly once.
pub proof fn lemma_all_trits_complete(t: Trit)
    ensures
        seq![Trit::Neg, Trit::Zero, Trit::Pos][trit_value(t) + 1] == t,
{
}

/// Difficulty level for exercises.
#[derive(Debug, Clone, Copy, PartialEq, Eq, PartialOrd, Ord, Hash, Structural)]
pub enum Difficulty {
    Beginner,
    Intermediate,
    Advanced,
}

/// Default sequence length for a difficulty.
pub open spec fn seq_len_for(d: Difficulty) -> nat {
    match d {
        Difficulty::Beginner => 4,
        Difficulty::Intermediate => 8,
        Difficulty::Advanced => 16,
    }
}

/// Number of chord types tested at a difficulty.
pub open spec fn chord_count_for(d: Difficulty) -> nat {
    match d {
        Difficulty::Beginner => 3,
        Difficulty::Intermediate => 6,
        Difficulty::Advanced => 10,
    }
}

/// Rank of a difficulty, in the order the levels are declared.
pub open spec fn difficulty_rank(d: Difficulty) -> int {
    match d {
        Difficulty::Beginner => 0,
        Difficulty::Intermediate => 1,
        Difficulty::Advanced => 2,
    }
}

impl Difficulty {
    /// Default sequence length for this difficulty.
    pub fn default_seq_len(&self) -> (r: usize)
        ensures
            r == seq_len_for(*self),
    {
        match self {
            Difficulty::Beginner => 4,
            Difficulty::Intermediate => 8,
            Difficulty::Advanced => 16,
        }
    }

    /// Number of unique chord types to test at this level.
    pub fn chord_count(&self) -> (r: usize)
        ensures
            r == chord_count_for(*self),
    {
        match self {
            Difficulty::Beginner => 3,
            Difficulty::Intermediate => 6,
            Difficulty::Advanced => 10,
        }
    }

    /// Position of this difficulty in per-difficulty tables.
    pub(crate) fn index(&self) -> (r: usize)
        ensures
            r == difficulty_rank(*self),
    {
        match self {
            Difficulty::Beginner => 0,
            Difficulty::Intermediate => 1,
            Difficulty::Advanced => 2,
        }
    }
}

/// Harder levels ask for longer sequences and more chord types.
pub proof fn lemma_difficulty_scales(a: Difficulty, b: Difficulty)
    requires
        difficulty_rank(a) < difficulty_rank(b),
    ensures
        seq_len_for(a) < seq_len_for(b),
        chord_count_for(a) < chord_count_for(b),
{
}

} // verus!
