//! Differences between two syllables, or two words, along the four feature axes.
use vstd::prelude::*;
use vstd::string::*;

use crate::entry::{word_syllables, Entry};
use crate::syllable::{final_of, initial_of, nucleus, Syllable};
use crate::text::{opt_text, text_eq};
use crate::vowels::{cluster_tone, strip, tone_name};

verus! {

/// The four feature axes, in the order in which deltas are reported.
#[derive(Debug, PartialEq, Eq, Structural, Clone, Copy)]
pub enum DeltaKind {
    InitialConsonant,
    Tone,
    Vowel,
    FinalConsonant,
}

pub open spec fn kind_name(k: DeltaKind) -> Seq<char> {
    match k {
        DeltaKind::InitialConsonant => "initial_consonant"@,
        DeltaKind::Tone => "tone"@,
        DeltaKind::Vowel => "vowel"@,
        DeltaKind::FinalConsonant => "final_consonant"@,
    }
}

impl DeltaKind {
    /// The name under which the kind is written.
    pub fn name(self) -> (r: &'static str)
        ensures
            r@ == kind_name(self),
    {
        match self {
            DeltaKind::InitialConsonant => "initial_consonant",
            DeltaKind::Tone => "tone",
            DeltaKind::Vowel => "vowel",
            DeltaKind::FinalConsonant => "final_consonant",
        }
    }
}

/// The kind whose name is `s`, if any.
pub open spec fn kind_named(s: Seq<char>) -> Option<DeltaKind> {
    if s == "initial_consonant"@ {
        Some(DeltaKind::InitialConsonant)
    } else if s == "tone"@ {
        Some(DeltaKind::Tone)
    } else if s == "vowel"@ {
        Some(DeltaKind::Vowel)
    } else if s == "final_consonant"@ {
        Some(DeltaKind::FinalConsonant)
    } else {
        None
    }
}

/// Reads a kind from its name.
pub fn parse_kind(s: &str) -> (r: Option<DeltaKind>)
    ensures
        r == kind_named(s@),
        r matches Some(k) ==> kind_name(k) == s@,
        r is None ==> forall|k: DeltaKind| kind_name(k) != s@,
{
    proof {
        reveal_strlit("initial_consonant");
        reveal_strlit("tone");
        reveal_strlit("vowel");
        reveal_strlit("final_consonant");
    }
    if text_eq(s, "initial_consonant") {
        Some(DeltaKind::InitialConsonant)
    } else if text_eq(s, "tone") {
        Some(DeltaKind::Tone)
    } else if text_eq(s, "vowel") {
        Some(DeltaKind::Vowel)
    } else if text_eq(s, "final_consonant") {
        Some(DeltaKind::FinalConsonant)
    } else {
        proof {
            assert forall|k: DeltaKind| kind_name(k) != s@ by {
                match k {
                    DeltaKind::InitialConsonant => {},
                    DeltaKind::Tone => {},
                    DeltaKind::Vowel => {},
                    DeltaKind::FinalConsonant => {},
                }
            }
        }
        None
    }
}

impl Default for DeltaKind {
    fn default() -> (r: DeltaKind)
        ensures
            r == DeltaKind::Tone,
    {
        DeltaKind::Tone
    }
}

impl std::str::FromStr for DeltaKind {
    type Err = String;

    fn from_str(input: &str) -> (r: Result<DeltaKind, String>)
        ensures
            r is Ok <==> kind_named(input@) is Some,
            r matches Ok(k) ==> kind_named(input@) == Some(k),
    {
        match parse_kind(input) {
            Some(k) => Ok(k),
            None => Err(<String as StringExecFns>::from_str(
                "Invalid delta kind. Available kinds: initial_consonant, tone, vowel, final_consonant",
            )),
        }
    }
}

/// The value of a syllable on one axis: the consonant text (empty where
/// absent), the tone's name, or the canonical vowel identity.
pub open spec fn feature(t: Seq<char>, k: DeltaKind) -> Seq<char> {
    match k {
        DeltaKind::InitialConsonant => opt_text(initial_of(t)),
        DeltaKind::Tone => tone_name(cluster_tone(nucleus(t))),
        DeltaKind::Vowel => strip(nucleus(t)),
        DeltaKind::FinalConsonant => opt_text(final_of(t)),
    }
}

pub ghost struct DeltaView {
    pub kind: DeltaKind,
    pub isolated_left: Seq<char>,
    pub isolated_right: Seq<char>,
    pub left: Seq<char>,
    pub right: Seq<char>,
}

/// One disagreement on one axis between two syllables, with the two words
/// they belong to.
#[derive(Debug, PartialEq, Eq)]
pub struct Delta {
    pub kind: DeltaKind,
    pub isolated_left: String,
    pub isolated_right: String,
    pub left: String,
    pub right: String,
}

impl View for Delta {
    type V = DeltaView;

    open spec fn view(&self) -> DeltaView {
        DeltaView {
            kind: self.kind,
            isolated_left: self.isolated_left@,
            isolated_right: self.isolated_right@,
            left: self.left@,
            right: self.right@,
        }
    }
}

/// The delta on axis `k`, if the two syllables differ there.
pub open spec fn delta_on(
    k: DeltaKind,
    lw: Seq<char>,
    rw: Seq<char>,
    l: Seq<char>,
    r: Seq<char>,
) -> Seq<DeltaView> {
    if feature(l, k) != feature(r, k) {
        seq![
            DeltaView {
                kind: k,
                isolated_left: feature(l, k),
                isolated_right: feature(r, k),
                left: lw,
                right: rw,
            },
        ]
    } else {
        Seq::empty()
    }
}

/// All deltas between two syllables, in the order of the axes.
pub open spec fn syllable_deltas(lw: Seq<char>, rw: Seq<char>, l: Seq<char>, r: Seq<char>) -> Seq<
    DeltaView,
> {
    delta_on(DeltaKind::InitialConsonant, lw, rw, l, r) + delta_on(DeltaKind::Tone, lw, rw, l, r)
        + delta_on(DeltaKind::Vowel, lw, rw, l, r) + delta_on(
        DeltaKind::FinalConsonant,
        lw,
        rw,
        l,
        r,
    )
}

/// The deltas of syllable `i` of two words, each tagged with `i`.
pub open spec fn tagged(lw: Seq<char>, rw: Seq<char>, i: int) -> Seq<(int, DeltaView)> {
    syllable_deltas(lw, rw, word_syllables(lw)[i], word_syllables(rw)[i]).map_values(
        |d: DeltaView| (i, d),
    )
}

/// The tagged deltas of the first `n` syllables of two words.
pub open spec fn word_deltas_upto(lw: Seq<char>, rw: Seq<char>, n: int) -> Seq<(int, DeltaView)>
    decreases n,
{
    if n <= 0 {
        Seq::empty()
    } else {
        word_deltas_upto(lw, rw, n - 1) + tagged(lw, rw, n - 1)
    }
}

pub open spec fn same_length(lw: Seq<char>, rw: Seq<char>) -> bool {
    word_syllables(lw).len() == word_syllables(rw).len()
}

/// All deltas of two words of the same length, syllable by syllable.
pub open spec fn word_deltas(lw: Seq<char>, rw: Seq<char>) -> Seq<(int, DeltaView)> {
    word_deltas_upto(lw, rw, word_syllables(lw).len() as int)
}

/// A delta seen from the other side: the same kind, sides exchanged.
pub open spec fn swapped(d: DeltaView) -> DeltaView {
    DeltaView {
        kind: d.kind,
        isolated_left: d.isolated_right,
        isolated_right: d.isolated_left,
        left: d.right,
        right: d.left,
    }
}

/// Tagged deltas seen from the other side: same indices, sides exchanged.
pub open spec fn swap_tagged(ds: Seq<(int, DeltaView)>) -> Seq<(int, DeltaView)> {
    ds.map_values(|p: (int, DeltaView)| (p.0, swapped(p.1)))
}

proof fn lemma_syllable_deltas_swap(lw: Seq<char>, rw: Seq<char>, l: Seq<char>, r: Seq<char>)
    ensures
        syllable_deltas(rw, lw, r, l) == syllable_deltas(lw, rw, l, r).map_values(
            |d: DeltaView| swapped(d),
        ),
{
    let a = delta_on(DeltaKind::InitialConsonant, lw, rw, l, r);
    let b = delta_on(DeltaKind::Tone, lw, rw, l, r);
    let c = delta_on(DeltaKind::Vowel, lw, rw, l, r);
    let d = delta_on(DeltaKind::FinalConsonant, lw, rw, l, r);
    let f = |x: DeltaView| swapped(x);
    assert(delta_on(DeltaKind::InitialConsonant, rw, lw, r, l) =~= a.map_values(f));
    assert(delta_on(DeltaKind::Tone, rw, lw, r, l) =~= b.map_values(f));
    assert(delta_on(DeltaKind::Vowel, rw, lw, r, l) =~= c.map_values(f));
    assert(delta_on(DeltaKind::FinalConsonant, rw, lw, r, l) =~= d.map_values(f));
    assert((a + b + c + d).map_values(f) =~= a.map_values(f) + b.map_values(f) + c.map_values(f)
        + d.map_values(f));
}

proof fn lemma_word_deltas_upto_swap(lw: Seq<char>, rw: Seq<char>, n: int)
    requires
        same_length(lw, rw),
        0 <= n <= word_syllables(lw).len(),
    ensures
        word_deltas_upto(rw, lw, n) == swap_tagged(word_deltas_upto(lw, rw, n)),
    decreases n,
{
    if n > 0 {
        lemma_word_deltas_upto_swap(lw, rw, n - 1);
        let i = n - 1;
        let l = word_syllables(lw)[i];
        let r = word_syllables(rw)[i];
        lemma_syllable_deltas_swap(lw, rw, l, r);
        let prev = word_deltas_upto(lw, rw, n - 1);
        let t = tagged(lw, rw, i);
        assert(tagged(rw, lw, i) =~= swap_tagged(t));
        assert(swap_tagged(prev + t) =~= swap_tagged(prev) + swap_tagged(t));
    }
}

/// Exchanging the two words of a pair of the same length exchanges the
/// sides of every delta, and keeps each delta's kind and syllable index.
pub proof fn lemma_word_delta_symmetric(lw: Seq<char>, rw: Seq<char>)
    requires
        same_length(lw, rw),
    ensures
        word_deltas(rw, lw) == swap_tagged(word_deltas(lw, rw)),
        word_deltas(rw, lw).len() == word_deltas(lw, rw).len(),
        forall|i: int|
            0 <= i < word_deltas(lw, rw).len() ==> (#[trigger] word_deltas(rw, lw)[i]).0
                == word_deltas(lw, rw)[i].0 && word_deltas(rw, lw)[i].1.kind == word_deltas(
                lw,
                rw,
            )[i].1.kind && word_deltas(rw, lw)[i].1.isolated_left == word_deltas(
                lw,
                rw,
            )[i].1.isolated_right && word_deltas(rw, lw)[i].1.isolated_right == word_deltas(
                lw,
                rw,
            )[i].1.isolated_left && word_deltas(rw, lw)[i].1.left == word_deltas(lw, rw)[i].1.right
                && word_deltas(rw, lw)[i].1.right == word_deltas(lw, rw)[i].1.left,
{
    lemma_word_deltas_upto_swap(lw, rw, word_syllables(lw).len() as int);
}

/// Two words of the same length whose syllables agree, position by
/// position, on every axis.
pub open spec fn same_features(lw: Seq<char>, rw: Seq<char>) -> bool {
    same_length(lw, rw) && forall|i: int, k: DeltaKind|
        0 <= i < word_syllables(lw).len() ==> #[trigger] feature(word_syllables(lw)[i], k)
            == feature(word_syllables(rw)[i], k)
}

proof fn lemma_no_deltas_upto(lw: Seq<char>, rw: Seq<char>, n: int)
    requires
        same_features(lw, rw),
        0 <= n <= word_syllables(lw).len(),
    ensures
        word_deltas_upto(lw, rw, n).len() == 0,
    decreases n,
{
    if n > 0 {
        lemma_no_deltas_upto(lw, rw, n - 1);
        let i = n - 1;
        let l = word_syllables(lw)[i];
        assert(feature(l, DeltaKind::InitialConsonant) == feature(word_syllables(rw)[i], DeltaKind::InitialConsonant));
        assert(feature(l, DeltaKind::Tone) == feature(word_syllables(rw)[i], DeltaKind::Tone));
        assert(feature(l, DeltaKind::Vowel) == feature(word_syllables(rw)[i], DeltaKind::Vowel));
        assert(feature(l, DeltaKind::FinalConsonant) == feature(word_syllables(rw)[i], DeltaKind::FinalConsonant));
    }
}

/// Two words that agree in every syllable on every axis have no delta.
pub proof fn lemma_identical_words_no_deltas(lw: Seq<char>, rw: Seq<char>)
    requires
        same_features(lw, rw),
    ensures
        word_deltas(lw, rw).len() == 0,
{
    lemma_no_deltas_upto(lw, rw, word_syllables(lw).len() as int);
}

/// The deltas of two words, or the note that their lengths differ.
pub enum WordDelta {
    LengthMismatch,
    Deltas(Vec<(usize, Delta)>),
}

/// The value of a syllable on one axis.
fn feature_of(s: &Syllable, k: DeltaKind) -> (r: String)
    ensures
        r@ == feature(s@, k),
{
    match k {
        DeltaKind::InitialConsonant => match s.initial_consonant() {
            Some(c) => <String as StringExecFns>::from_str(c),
            None => String::new(),
        },
        DeltaKind::Tone => <String as StringExecFns>::from_str(s.vowel().tone().name()),
        DeltaKind::Vowel => s.vowel().normal(),
        DeltaKind::FinalConsonant => match s.final_consonant() {
            Some(c) => <String as StringExecFns>::from_str(c),
            None => String::new(),
        },
    }
}

impl Delta {
    /// Pushes the delta on axis `k` of two syllables, if they differ there.
    fn push_on(
        out: &mut Vec<Delta>,
        k: DeltaKind,
        left_word: &str,
        right_word: &str,
        left: &Syllable,
        right: &Syllable,
    )
        ensures
            final(out)@.len() == old(out)@.len() + delta_on(
                k,
                left_word@,
                right_word@,
                left@,
                right@,
            ).len(),
            forall|i: int| 0 <= i < old(out)@.len() ==> #[trigger] final(out)@[i] == old(out)@[i],
            forall|i: int|
                old(out)@.len() <= i < final(out)@.len() ==> (#[trigger] final(out)@[i])@ == delta_on(
                    k,
                    left_word@,
                    right_word@,
                    left@,
                    right@,
                )[i - old(out)@.len()],
    {
        let l = feature_of(left, k);
        let r = feature_of(right, k);
        if !text_eq(l.as_str(), r.as_str()) {
            out.push(
                Delta {
                    kind: k,
                    isolated_left: l,
                    isolated_right: r,
                    left: <String as StringExecFns>::from_str(left_word),
                    right: <String as StringExecFns>::from_str(right_word),
                },
            );
        }
    }

    /// The deltas between two syllables, in the order of the axes.
    pub fn from_syllable_pair(
        left_word: &str,
        right_word: &str,
        left: &Syllable,
        right: &Syllable,
    ) -> (r: Vec<Delta>)
        ensures
            r@.len() == syllable_deltas(left_word@, right_word@, left@, right@).len(),
            forall|i: int|
                0 <= i < r@.len() ==> (#[trigger] r@[i])@ == syllable_deltas(
                    left_word@,
                    right_word@,
                    left@,
                    right@,
                )[i],
    {
        let ghost lw = left_word@;
        let ghost rw = right_word@;
        let mut out: Vec<Delta> = Vec::new();
        Delta::push_on(&mut out, DeltaKind::InitialConsonant, left_word, right_word, left, right);
        Delta::push_on(&mut out, DeltaKind::Tone, left_word, right_word, left, right);
        Delta::push_on(&mut out, DeltaKind::Vowel, left_word, right_word, left, right);
        Delta::push_on(&mut out, DeltaKind::FinalConsonant, left_word, right_word, left, right);
        let ghost a = delta_on(DeltaKind::InitialConsonant, lw, rw, left@, right@);
        let ghost b = delta_on(DeltaKind::Tone, lw, rw, left@, right@);
        let ghost c = delta_on(DeltaKind::Vowel, lw, rw, left@, right@);
        let ghost d = delta_on(DeltaKind::FinalConsonant, lw, rw, left@, right@);
        assert forall|i: int| 0 <= i < out@.len() implies (#[trigger] out@[i])@ == (a + b + c
            + d)[i] by {
            if i < a.len() {
            } else if i < a.len() + b.len() {
            } else if i < a.len() + b.len() + c.len() {
            } else {
            }
        }
        out
    }

    /// The deltas between two words, each tagged with its syllable's index,
    /// or `LengthMismatch` where their syllable counts differ.
    pub fn from_word_pair(left: &Entry, right: &Entry) -> (r: WordDelta)
        ensures
            r is LengthMismatch <==> !same_length(left@, right@),
            r matches WordDelta::Deltas(v) ==> v@.len() == word_deltas(left@, right@).len() && (
            forall|i: int|
                0 <= i < v@.len() ==> (#[trigger] v@[i]).0 as int == word_deltas(left@, right@)[i].0
                    && v@[i].1@ == word_deltas(left@, right@)[i].1),
    {
        let ls = left.syllables();
        let rs = right.syllables();
        if ls.len() != rs.len() {
            return WordDelta::LengthMismatch;
        }
        let ghost lw = left@;
        let ghost rw = right@;
        let mut out: Vec<(usize, Delta)> = Vec::new();
        let mut i: usize = 0;
        while i < ls.len()
            invariant
                lw == left@,
                rw == right@,
                ls@.len() == rs@.len(),
                ls@.len() == word_syllables(lw).len(),
                rs@.len() == word_syllables(rw).len(),
                forall|j: int| 0 <= j < ls@.len() ==> (#[trigger] ls@[j])@ == word_syllables(lw)[j],
                forall|j: int| 0 <= j < rs@.len() ==> (#[trigger] rs@[j])@ == word_syllables(rw)[j],
                i <= ls@.len(),
                out@.len() == word_deltas_upto(lw, rw, i as int).len(),
                forall|j: int|
                    0 <= j < out@.len() ==> (#[trigger] out@[j]).0 as int == word_deltas_upto(
                        lw,
                        rw,
                        i as int,
                    )[j].0 && out@[j].1@ == word_deltas_upto(lw, rw, i as int)[j].1,
            decreases ls@.len() - i,
        {
            let ds = Delta::from_syllable_pair(left.raw(), right.raw(), &ls[i], &rs[i]);
            let ghost before = out@;
            let ghost t = tagged(lw, rw, i as int);
            assert(ls@[i as int]@ == word_syllables(lw)[i as int]);
            assert(rs@[i as int]@ == word_syllables(rw)[i as int]);
            let mut ds = ds;
            let ghost dsv = ds@;
            let ghost mut m: int = 0;
            while ds.len() > 0
                invariant
                    out@.len() == before.len() + m,
                    0 <= m <= dsv.len(),
                    ds@ == dsv.subrange(m, dsv.len() as int),
                    forall|j: int| 0 <= j < before.len() ==> #[trigger] out@[j] == before[j],
                    forall|j: int|
                        0 <= j < m ==> (#[trigger] out@[before.len() + j]).0 == i && out@[before.len()
                            + j].1 == dsv[j],
                decreases ds@.len(),
            {
                let d = ds.remove(0);
                out.push((i, d));
                proof { m = m + 1; }
            }
            proof {
                let next = word_deltas_upto(lw, rw, i + 1);
                assert(next == word_deltas_upto(lw, rw, i as int) + t);
                assert forall|j: int| 0 <= j < out@.len() implies (#[trigger] out@[j]).0 as int
                    == next[j].0 && out@[j].1@ == next[j].1 by {
                    if j >= before.len() {
                        let q = j - before.len();
                        assert(out@[before.len() + q] == out@[j]);
                    }
                }
            }
            i = i + 1;
        }
        WordDelta::Deltas(out)
    }
}

} // verus!
