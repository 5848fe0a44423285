use vstd::prelude::*;

use crate::trit::Trit;

verus! {

/// A chord as the specifications see it: its name and its trit pattern.
pub type ChordView = (Seq<char>, Seq<Trit>);

/// `p` is a prefix of `s`.
pub open spec fn starts_with(s: Seq<Trit>, p: Seq<Trit>) -> bool {
    p.len() <= s.len() && s.take(p.len() as int) == p
}

/// Among the first `n` chords, the one `identify` settles on for `s`: the longest
/// chord whose pattern starts `s`, the earliest one among chords of equal length.
pub open spec fn best_chord_upto(chords: Seq<ChordView>, s: Seq<Trit>, n: int) -> Option<int>
    decreases n,
{
    if n <= 0 {
        None
    } else {
        let b = best_chord_upto(chords, s, n - 1);
        if starts_with(s, chords[n - 1].1) && (match b {
            None => true,
            Some(k) => chords[n - 1].1.len() > chords[k].1.len(),
        }) {
            Some(n - 1)
        } else {
            b
        }
    }
}

/// The index of the chord that `identify` reports for `s`, if any.
pub open spec fn best_chord(chords: Seq<ChordView>, s: Seq<Trit>) -> Option<int> {
    best_chord_upto(chords, s, chords.len() as int)
}

/// The chords that a greedy scan of `s` from `pos` reports, each with its length:
/// at each position the best chord is taken and skipped over, and a position
/// where no chord fits is skipped by one.
pub open spec fn chord_scan(chords: Seq<ChordView>, s: Seq<Trit>, pos: int) -> Seq<(Seq<char>, nat)>
    decreases s.len() - pos,
{
    if pos < 0 || pos >= s.len() {
        seq![]
    } else {
        match best_chord(chords, s.skip(pos)) {
            Some(i) => {
                let len = chords[i].1.len();
                if 0 < len && pos + len <= s.len() {
                    seq![(chords[i].0, len)] + chord_scan(chords, s, pos + len)
                } else {
                    seq![]
                }
            },
            None => chord_scan(chords, s, pos + 1),
        }
    }
}

/// The greedy scan of `s` from `pos` never settles on a chord with an empty
/// pattern (on which it would stay in place for ever).
pub open spec fn scan_terminates(chords: Seq<ChordView>, s: Seq<Trit>, pos: int) -> bool
    decreases s.len() - pos,
{
    if pos < 0 || pos >= s.len() {
        true
    } else {
        match best_chord(chords, s.skip(pos)) {
            Some(i) => {
                let len = chords[i].1.len();
                if 0 < len && pos + len <= s.len() {
                    scan_terminates(chords, s, pos + len)
                } else {
                    false
                }
            },
            None => scan_terminates(chords, s, pos + 1),
        }
    }
}

/// Every chord has a nonempty pattern.
pub open spec fn all_patterns_nonempty(chords: Seq<ChordView>) -> bool {
    forall|i: int| 0 <= i < chords.len() ==> #[trigger] chords[i].1.len() > 0
}

/// Total number of trits covered by the chords of a scan.
pub open spec fn covered_len(r: Seq<(Seq<char>, nat)>) -> nat
    decreases r.len(),
{
    if r.len() == 0 {
        0
    } else {
        r[0].1 + covered_len(r.drop_first())
    }
}

/// The standard ternary chord vocabulary.
pub open spec fn standard_chord_table() -> Seq<ChordView> {
    seq![
        ("power"@, seq![Trit::Pos, Trit::Zero, Trit::Neg]),
        ("inverse-power"@, seq![Trit::Neg, Trit::Zero, Trit::Pos]),
        ("major-triad"@, seq![Trit::Pos, Trit::Pos, Trit::Zero]),
        ("minor-triad"@, seq![Trit::Neg, Trit::Neg, Trit::Zero]),
        ("suspended"@, seq![Trit::Zero, Trit::Pos, Trit::Zero]),
        ("suspended-neg"@, seq![Trit::Zero, Trit::Neg, Trit::Zero]),
        ("augmented"@, seq![Trit::Pos, Trit::Pos, Trit::Pos]),
        ("diminished"@, seq![Trit::Neg, Trit::Neg, Trit::Neg]),
        ("neutral"@, seq![Trit::Zero, Trit::Zero, Trit::Zero]),
        ("rising-fifth"@, seq![Trit::Neg, Trit::Zero, Trit::Pos, Trit::Zero]),
    ]
}

/// A named ternary chord pattern.
#[derive(Debug, PartialEq, Eq, Hash)]
pub struct Chord {
    pub name: String,
    pub pattern: Vec<Trit>,
}

impl View for Chord {
    type V = ChordView;

    open spec fn view(&self) -> ChordView {
        (self.name@, self.pattern@)
    }
}

/// Whether `pattern` occurs in `seq` starting at `pos`.
fn pattern_fits_at(pattern: &Vec<Trit>, seq: &[Trit], pos: usize) -> (r: bool)
    requires
        pos <= seq@.len(),
    ensures
        r == starts_with(seq@.skip(pos as int), pattern@),
{
    let rest: usize = seq.len() - pos;
    if pattern.len() > rest {
        return false;
    }
    let ghost tail = seq@.skip(pos as int);
    let mut k: usize = 0;
    while k < pattern.len()
        invariant
            pos + pattern@.len() <= seq@.len(),
            rest == seq.len() - pos,
            pattern.len() <= rest,
            tail == seq@.skip(pos as int),
            k <= pattern@.len(),
            forall|j: int| 0 <= j < k ==> tail[j] == pattern@[j],
        decreases pattern@.len() - k,
    {
        if seq[pos + k] != pattern[k] {
            assert(tail.take(pattern@.len() as int)[k as int] != pattern@[k as int]);
            return false;
        }
        k = k + 1;
    }
    assert(tail.take(pattern@.len() as int) =~= pattern@);
    true
}

impl Chord {
    /// A chord with the given name and pattern.
    pub fn new(name: &str, pattern: Vec<Trit>) -> (r: Chord)
        ensures
            r@ == (name@, pattern@),
    {
        Chord { name: name.to_owned(), pattern }
    }

    /// Match this chord against the start of a sequence.
    pub fn matches_prefix(&self, seq: &[Trit]) -> (r: bool)
        ensures
            r == starts_with(seq@, self.pattern@),
    {
        assert(seq@.skip(0) =~= seq@);
        pattern_fits_at(&self.pattern, seq, 0)
    }
}

/// An exact copy of a trit pattern.
pub(crate) fn copy_trits(t: &[Trit]) -> (r: Vec<Trit>)
    ensures
        r@ == t@,
{
    let mut r: Vec<Trit> = Vec::new();
    let mut j: usize = 0;
    while j < t.len()
        invariant
            j <= t@.len(),
            r@ =~= t@.take(j as int),
        decreases t@.len() - j,
    {
        r.push(t[j]);
        j = j + 1;
    }
    r
}

impl Clone for Chord {
    fn clone(&self) -> (r: Chord)
        ensures
            r@ == self@,
    {
        Chord { name: self.name.clone(), pattern: copy_trits(self.pattern.as_slice()) }
    }
}

/// Recognizes chord patterns in ternary sequences.
#[derive(Debug)]
pub struct ChordRecognizer {
    known_chords: Vec<Chord>,
}

impl View for ChordRecognizer {
    type V = Seq<ChordView>;

    closed spec fn view(&self) -> Seq<ChordView> {
        self.known_chords@.map_values(|c: Chord| c@)
    }
}

impl ChordRecognizer {
    /// A recognizer that knows the standard chord vocabulary.
    pub fn new() -> (r: ChordRecognizer)
        ensures
            r@ == standard_chord_table(),
    {
        let known_chords = Self::standard_chords();
        let r = ChordRecognizer { known_chords };
        assert(r@ =~= standard_chord_table());
        r
    }

    /// Standard ternary chord vocabulary.
    pub fn standard_chords() -> (r: Vec<Chord>)
        ensures
            r@.len() == 10,
            forall|i: int| 0 <= i < 10 ==> #[trigger] r@[i]@ == standard_chord_table()[i],
    {
        let r = vec![
            Chord::new("power", vec![Trit::Pos, Trit::Zero, Trit::Neg]),
            Chord::new("inverse-power", vec![Trit::Neg, Trit::Zero, Trit::Pos]),
            Chord::new("major-triad", vec![Trit::Pos, Trit::Pos, Trit::Zero]),
            Chord::new("minor-triad", vec![Trit::Neg, Trit::Neg, Trit::Zero]),
            Chord::new("suspended", vec![Trit::Zero, Trit::Pos, Trit::Zero]),
            Chord::new("suspended-neg", vec![Trit::Zero, Trit::Neg, Trit::Zero]),
            Chord::new("augmented", vec![Trit::Pos, Trit::Pos, Trit::Pos]),
            Chord::new("diminished", vec![Trit::Neg, Trit::Neg, Trit::Neg]),
            Chord::new("neutral", vec![Trit::Zero, Trit::Zero, Trit::Zero]),
            Chord::new("rising-fifth", vec![Trit::Neg, Trit::Zero, Trit::Pos, Trit::Zero]),
        ];
        r
    }

    /// Index of the chord that `identify` reports for the part of `seq` from `pos` on.
    fn best_index(&self, seq: &[Trit], pos: usize) -> (r: Option<usize>)
        requires
            pos <= seq@.len(),
        ensures
            match r {
                None => best_chord(self@, seq@.skip(pos as int)) is None,
                Some(i) => best_chord(self@, seq@.skip(pos as int)) == Some(i as int),
            },
    {
        let ghost chords = self@;
        let ghost s = seq@.skip(pos as int);
        let mut best: Option<usize> = None;
        let mut best_len: usize = 0;
        let mut i: usize = 0;
        while i < self.known_chords.len()
            invariant
                chords == self@,
                chords.len() == self.known_chords@.len(),
                s == seq@.skip(pos as int),
                pos <= seq@.len(),
                i <= self.known_chords@.len(),
                match best {
                    None => best_chord_upto(chords, s, i as int) is None,
                    Some(b) => best_chord_upto(chords, s, i as int) == Some(b as int) && b < i
                        && best_len == chords[b as int].1.len(),
                },
            decreases self.known_chords@.len() - i,
        {
            let chord = &self.known_chords[i];
            assert(chords[i as int] == chord@);
            if pattern_fits_at(&chord.pattern, seq, pos) {
                let len = chord.pattern.len();
                match best {
                    None => {
                        best = Some(i);
                        best_len = len;
                    },
                    Some(_) => {
                        if len > best_len {
                            best = Some(i);
                            best_len = len;
                        }
                    },
                }
            }
            i = i + 1;
        }
        best
    }

    /// Identify the first chord in a sequence. Returns the matched chord name and its length.
    /// Longer chords win; among chords of equal length the earlier one wins.
    pub fn identify<'a>(&'a self, seq: &[Trit]) -> (r: Option<(&'a str, usize)>)
        ensures
            r is None <==> best_chord(self@, seq@) is None,
            best_chord(self@, seq@) matches Some(i) ==> (r matches Some((n, l)) && n@
                == self@[i].0 && l == self@[i].1.len()),
    {
        assert(seq@.skip(0) =~= seq@);
        match self.best_index(seq, 0) {
            None => None,
            Some(i) => {
                proof {
                    lemma_best_chord(self@, seq@);
                }
                let chord = &self.known_chords[i];
                assert(self@[i as int] == chord@);
                Some((chord.name.as_str(), chord.pattern.len()))
            },
        }
    }

    /// Identify all chords in a sequence, greedily: at each position the best chord
    /// is reported and skipped; a position where no chord fits is skipped by one.
    pub fn identify_all<'a>(&'a self, seq: &[Trit]) -> (r: Vec<(&'a str, usize)>)
        requires
            scan_terminates(self@, seq@, 0),
        ensures
            r@.map_values(|p: (&'a str, usize)| (p.0@, p.1 as nat)) == chord_scan(self@, seq@, 0),
    {
        let mut results: Vec<(&'a str, usize)> = Vec::new();
        let mut pos: usize = 0;
        while pos < seq.len()
            invariant
                pos <= seq@.len(),
                scan_terminates(self@, seq@, pos as int),
                chord_scan(self@, seq@, 0) == results@.map_values(
                    |p: (&'a str, usize)| (p.0@, p.1 as nat),
                ) + chord_scan(self@, seq@, pos as int),
            decreases seq@.len() - pos,
        {
            let ghost before = results@.map_values(|p: (&'a str, usize)| (p.0@, p.1 as nat));
            match self.best_index(seq, pos) {
                Some(i) => {
                    proof {
                        lemma_best_chord(self@, seq@.skip(pos as int));
                    }
                    let chord = &self.known_chords[i];
                    assert(self@[i as int] == chord@);
                    let len = chord.pattern.len();
                    results.push((chord.name.as_str(), len));
                    assert(results@.map_values(|p: (&'a str, usize)| (p.0@, p.1 as nat))
                        =~= before.push((self@[i as int].0, len as nat)));
                    pos = pos + len;
                },
                None => {
                    pos = pos + 1;
                },
            }
        }
        assert(chord_scan(self@, seq@, pos as int) =~= Seq::<(Seq<char>, nat)>::empty());
        results
    }

    /// Add a custom chord to the vocabulary.
    pub fn add_chord(&mut self, chord: Chord)
        ensures
            final(self)@ == old(self)@.push(chord@),
    {
        self.known_chords.push(chord);
        assert(self@ =~= old(self)@.push(chord@));
    }

    /// Number of known chords.
    pub fn chord_count(&self) -> (r: usize)
        ensures
            r == self@.len(),
    {
        self.known_chords.len()
    }
}

impl Clone for ChordRecognizer {
    fn clone(&self) -> (r: ChordRecognizer)
        ensures
            r@ == self@,
    {
        let mut known_chords: Vec<Chord> = Vec::new();
        let mut j: usize = 0;
        while j < self.known_chords.len()
            invariant
                j <= self.known_chords@.len(),
                known_chords@.map_values(|c: Chord| c@) =~= self@.take(j as int),
            decreases self.known_chords@.len() - j,
        {
            let c = self.known_chords[j].clone();
            assert(c@ == self@[j as int]);
            let ghost before = known_chords@.map_values(|c: Chord| c@);
            known_chords.push(c);
            assert(known_chords@.map_values(|c: Chord| c@) =~= before.push(self@[j as int]));
            assert(self@.take(j + 1) =~= self@.take(j as int).push(self@[j as int]));
            j = j + 1;
        }
        let r = ChordRecognizer { known_chords };
        assert(self@.take(j as int) =~= self@);
        r
    }
}

impl Default for ChordRecognizer {
    fn default() -> (r: ChordRecognizer)
        ensures
            r@ == standard_chord_table(),
    {
        Self::new()
    }
}

/// The chord `identify` picks fits the sequence, is at least as long as every
/// chord that fits, and is longer than every chord before it that fits; when
/// none is picked, no chord fits.
pub proof fn lemma_best_chord_upto(chords: Seq<ChordView>, s: Seq<Trit>, n: int)
    requires
        0 <= n <= chords.len(),
    ensures
        best_chord_upto(chords, s, n) is None <==> (forall|j: int|
            0 <= j < n ==> !starts_with(s, #[trigger] chords[j].1)),
        best_chord_upto(chords, s, n) matches Some(i) ==> {
            &&& 0 <= i < n
            &&& starts_with(s, chords[i].1)
            &&& forall|j: int|
                0 <= j < n && starts_with(s, #[trigger] chords[j].1) ==> chords[j].1.len()
                    <= chords[i].1.len()
            &&& forall|j: int|
                0 <= j < i && starts_with(s, #[trigger] chords[j].1) ==> chords[j].1.len()
                    < chords[i].1.len()
        },
    decreases n,
{
    if n > 0 {
        lemma_best_chord_upto(chords, s, n - 1);
    }
}

/// Greedy longest match: `identify` reports the longest chord whose pattern
/// starts the sequence, the first such chord among those of equal length, and
/// reports nothing exactly when no chord's pattern starts the sequence.
pub proof fn lemma_best_chord(chords: Seq<ChordView>, s: Seq<Trit>)
    ensures
        best_chord(chords, s) is None <==> (forall|j: int|
            0 <= j < chords.len() ==> !starts_with(s, #[trigger] chords[j].1)),
        best_chord(chords, s) matches Some(i) ==> {
            &&& 0 <= i < chords.len()
            &&& starts_with(s, chords[i].1)
            &&& forall|j: int|
                0 <= j < chords.len() && starts_with(s, #[trigger] chords[j].1)
                    ==> chords[j].1.len() <= chords[i].1.len()
            &&& forall|j: int|
                0 <= j < i && starts_with(s, #[trigger] chords[j].1) ==> chords[j].1.len()
                    < chords[i].1.len()
        },
{
    lemma_best_chord_upto(chords, s, chords.len() as int);
}

/// With no empty pattern among the chords, a greedy scan always finishes.
pub proof fn lemma_nonempty_scan_terminates(chords: Seq<ChordView>, s: Seq<Trit>, pos: int)
    requires
        all_patterns_nonempty(chords),
    ensures
        scan_terminates(chords, s, pos),
    decreases s.len() - pos,
{
    if 0 <= pos < s.len() {
        lemma_best_chord(chords, s.skip(pos));
        match best_chord(chords, s.skip(pos)) {
            Some(i) => {
                assert(chords[i].1.len() > 0);
                lemma_nonempty_scan_terminates(chords, s, pos + chords[i].1.len());
            },
            None => {
                lemma_nonempty_scan_terminates(chords, s, pos + 1);
            },
        }
    }
}

/// The chords a greedy scan reports never cover more trits than remain, and
/// each is one of the known chords, reported with its pattern's length.
pub proof fn lemma_scan_fits(chords: Seq<ChordView>, s: Seq<Trit>, pos: int)
    requires
        0 <= pos <= s.len(),
    ensures
        covered_len(chord_scan(chords, s, pos)) <= s.len() - pos,
        forall|k: int|
            0 <= k < chord_scan(chords, s, pos).len() ==> exists|i: int|
                0 <= i < chords.len() && #[trigger] chord_scan(chords, s, pos)[k] == (
                    chords[i].0,
                    chords[i].1.len(),
                ),
    decreases s.len() - pos,
{
    if pos < s.len() {
        lemma_best_chord(chords, s.skip(pos));
        match best_chord(chords, s.skip(pos)) {
            Some(i) => {
                let len = chords[i].1.len();
                if 0 < len && pos + len <= s.len() {
                    lemma_scan_fits(chords, s, pos + len);
                    let rest = chord_scan(chords, s, pos + len);
                    let r = seq![(chords[i].0, len)] + rest;
                    assert(r.drop_first() =~= rest);
                    assert forall|k: int| 0 <= k < r.len() implies exists|i2: int|
                        0 <= i2 < chords.len() && #[trigger] r[k] == (
                            chords[i2].0,
                            chords[i2].1.len(),
                        ) by {
                        if k > 0 {
                            assert(r[k] == rest[k - 1]);
                        } else {
                            assert(r[0] == (chords[i].0, chords[i].1.len()));
                        }
                    }
                }
            },
            None => {
                lemma_scan_fits(chords, s, pos + 1);
            },
        }
    }
}

/// Where no chord's pattern starts the rest of the sequence, the scan skips
/// exactly one trit: what it reports from `pos` is what it reports from `pos + 1`.
pub proof fn lemma_scan_skips_one_unrecognized(chords: Seq<ChordView>, s: Seq<Trit>, pos: int)
    requires
        0 <= pos < s.len(),
        forall|j: int| 0 <= j < chords.len() ==> !starts_with(s.skip(pos), #[trigger] chords[j].1),
    ensures
        chord_scan(chords, s, pos) == chord_scan(chords, s, pos + 1),
{
    lemma_best_chord(chords, s.skip(pos));
}

/// Where some chord's pattern starts the rest of the sequence, the scan reports
/// the chord `identify` picks there (the longest, earliest among equals) and
/// continues right after it.
pub proof fn lemma_scan_reports_best(chords: Seq<ChordView>, s: Seq<Trit>, pos: int, j: int)
    requires
        0 <= pos < s.len(),
        0 <= j < chords.len(),
        starts_with(s.skip(pos), chords[j].1),
        all_patterns_nonempty(chords),
    ensures
        best_chord(chords, s.skip(pos)) matches Some(i) && {
            &&& chords[j].1.len() <= chords[i].1.len()
            &&& starts_with(s.skip(pos), chords[i].1)
            &&& chord_scan(chords, s, pos) == seq![(chords[i].0, chords[i].1.len())] + chord_scan(
                chords,
                s,
                pos + chords[i].1.len(),
            )
        },
{
    lemma_best_chord(chords, s.skip(pos));
}

/// A scan from the end of the sequence, or from an empty rest, reports nothing.
pub proof fn lemma_scan_at_end(chords: Seq<ChordView>, s: Seq<Trit>)
    ensures
        chord_scan(chords, s, s.len() as int) == Seq::<(Seq<char>, nat)>::empty(),
{
}

} // verus!
