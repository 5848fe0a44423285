use vstd::prelude::*;

use crate::trit::{trit_value, Trit};

verus! {

/// The interval between two consecutive trits.
#[derive(Debug, Clone, Copy, PartialEq, Eq, Hash, Structural)]
pub enum Interval {
    /// Same trit repeated (e.g., Pos → Pos).
    Unison,
    /// Step up by one (Neg→Zero, Zero→Pos).
    MinorSecond,
    /// Step up by two (Neg→Pos).
    MajorSecond,
    /// Step down by one (Pos→Zero, Zero→Neg).
    MinorSecondDesc,
    /// Step down by two (Pos→Neg).
    MajorSecondDesc,
}

/// The signed step, in trit values, that an interval stands for.
pub open spec fn interval_step(i: Interval) -> int {
    match i {
        Interval::Unison => 0,
        Interval::MinorSecond => 1,
        Interval::MajorSecond => 2,
        Interval::MinorSecondDesc => -1,
        Interval::MajorSecondDesc => -2,
    }
}

/// The interval whose step is the difference of the two trits' values.
pub open spec fn interval_between(a: Trit, b: Trit) -> Interval {
    let diff = trit_value(b) - trit_value(a);
    if diff == 0 {
        Interval::Unison
    } else if diff == 1 {
        Interval::MinorSecond
    } else if diff == 2 {
        Interval::MajorSecond
    } else if diff == -1 {
        Interval::MinorSecondDesc
    } else {
        Interval::MajorSecondDesc
    }
}

/// The interval that steps the same distance in the other direction.
pub open spec fn interval_mirror(i: Interval) -> Interval {
    match i {
        Interval::Unison => Interval::Unison,
        Interval::MinorSecond => Interval::MinorSecondDesc,
        Interval::MajorSecond => Interval::MajorSecondDesc,
        Interval::MinorSecondDesc => Interval::MinorSecond,
        Interval::MajorSecondDesc => Interval::MajorSecond,
    }
}

/// The position of an interval in the order of `Interval::all`.
pub open spec fn interval_index(i: Interval) -> int {
    match i {
        Interval::Unison => 0,
        Interval::MinorSecond => 1,
        Interval::MajorSecond => 2,
        Interval::MinorSecondDesc => 3,
        Interval::MajorSecondDesc => 4,
    }
}

/// The five intervals, in the order `Interval::all` lists them.
pub open spec fn all_intervals() -> Seq<Interval> {
    seq![
        Interval::Unison,
        Interval::MinorSecond,
        Interval::MajorSecond,
        Interval::MinorSecondDesc,
        Interval::MajorSecondDesc,
    ]
}

impl Interval {
    /// Classify the interval between two trits.
    pub fn between(a: Trit, b: Trit) -> (r: Interval)
        ensures
            r == interval_between(a, b),
            interval_step(r) == trit_value(b) - trit_value(a),
    {
        let diff: i8 = b.value() - a.value();
        match diff {
            0 => Interval::Unison,
            1 => Interval::MinorSecond,
            2 => Interval::MajorSecond,
            -1 => Interval::MinorSecondDesc,
            _ => Interval::MajorSecondDesc,
        }
    }

    /// All interval types.
    pub fn all() -> (r: &'static [Interval; 5])
        ensures
            r@ == all_intervals(),
    {
        &[
            Interval::Unison,
            Interval::MinorSecond,
            Interval::MajorSecond,
            Interval::MinorSecondDesc,
            Interval::MajorSecondDesc,
        ]
    }

    /// Human-readable name.
    pub fn name(&self) -> (r: &'static str)
        ensures
            r@ == interval_name(*self)@,
    {
        match self {
            Interval::Unison => "unison",
            Interval::MinorSecond => "minor second (up)",
            Interval::MajorSecond => "major second (up)",
            Interval::MinorSecondDesc => "minor second (down)",
            Interval::MajorSecondDesc => "major second (down)",
        }
    }

    /// Position of this interval in `Interval::all`, used to index per-interval tables.
    pub(crate) fn index(&self) -> (r: usize)
        ensures
            r == interval_index(*self),
    {
        match self {
            Interval::Unison => 0,
            Interval::MinorSecond => 1,
            Interval::MajorSecond => 2,
            Interval::MinorSecondDesc => 3,
            Interval::MajorSecondDesc => 4,
        }
    }
}

/// The name each interval is shown under.
pub open spec fn interval_name(i: Interval) -> &'static str {
    match i {
        Interval::Unison => "unison",
        Interval::MinorSecond => "minor second (up)",
        Interval::MajorSecond => "major second (up)",
        Interval::MinorSecondDesc => "minor second (down)",
        Interval::MajorSecondDesc => "major second (down)",
    }
}

/// Two trits are a unison exactly when they are the same trit.
pub proof fn lemma_unison_iff_same(a: Trit, b: Trit)
    ensures
        (interval_between(a, b) == Interval::Unison) <==> (a == b),
{
}

/// Reading a pair of trits backwards gives the mirrored interval.
pub proof fn lemma_between_reversed(a: Trit, b: Trit)
    ensures
        interval_between(b, a) == interval_mirror(interval_between(a, b)),
{
}

/// The interval between two trits always steps by their value difference,
/// which lies in [-2, 2].
pub proof fn lemma_between_step(a: Trit, b: Trit)
    ensures
        interval_step(interval_between(a, b)) == trit_value(b) - trit_value(a),
        -2 <= trit_value(b) - trit_value(a) <= 2,
{
}

/// `Interval::all` lists every interval exactly once, at its index.
pub proof fn lemma_all_intervals_complete(i: Interval)
    ensures
        0 <= interval_index(i) < 5,
        all_intervals()[interval_index(i)] == i,
        all_intervals().len() == 5,
        forall|j: int, k: int| 0 <= j < k < 5 ==> all_intervals()[j] != all_intervals()[k],
{
}

/// Every interval has a nonempty name.
pub proof fn lemma_interval_name_nonempty(i: Interval)
    ensures
        interval_name(i)@.len() > 0,
{
    reveal_strlit("unison");
    reveal_strlit("minor second (up)");
    reveal_strlit("major second (up)");
    reveal_strlit("minor second (down)");
    reveal_strlit("major second (down)");
}

} // verus!
