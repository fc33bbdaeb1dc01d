//! Minimal pairs: two entries that differ on exactly one axis, at the
//! syllable where each of them meets the configuration.
use vstd::prelude::*;

use crate::delta::{
    lemma_identical_words_no_deltas, same_features, same_length, word_deltas, Delta, DeltaKind,
    DeltaView, WordDelta,
};
use crate::entry::{word_syllables, Entry};
use crate::filter::{
    filter, filter_words, first_match_from, passes, satisfies_exec, Options, OptionsView,
};
use crate::syllable::Syllable;

verus! {

/// Whether a single syllable, taken as a word of its own, passes.
pub open spec fn syllable_passes(o: OptionsView, t: Seq<char>) -> bool {
    passes(o, seq![t])
}

/// The first position at or after `i` whose syllable passes on its own.
pub open spec fn pass_index_from(o: OptionsView, ts: Seq<Seq<char>>, i: int) -> Option<int>
    decreases ts.len() - i,
{
    if i < 0 || i >= ts.len() {
        None
    } else if syllable_passes(o, ts[i]) {
        Some(i)
    } else {
        pass_index_from(o, ts, i + 1)
    }
}

/// The first syllable of a word that passes on its own.
pub open spec fn pass_index(o: OptionsView, w: Seq<char>) -> Option<int> {
    pass_index_from(o, word_syllables(w), 0)
}

/// The delta that makes `(a, b)` a minimal pair, if it is one: the words
/// have the same length, exactly one delta, on the wanted axis, at the
/// syllable where each word passes on its own.
pub open spec fn pair_result(o: OptionsView, a: Seq<char>, b: Seq<char>) -> Option<DeltaView> {
    if !same_length(a, b) {
        None
    } else {
        let ds = word_deltas(a, b);
        if ds.len() != 1 {
            None
        } else if ds[0].1.kind != o.kind {
            None
        } else if pass_index(o, a) == Some(ds[0].0) && pass_index(o, b) == Some(ds[0].0) {
            Some(ds[0].1)
        } else {
            None
        }
    }
}

/// The results of the pairs `(ws[i], ws[j])` for `j < m`, `j != i`.
pub open spec fn pair_row(o: OptionsView, ws: Seq<Seq<char>>, i: int, m: int) -> Seq<DeltaView>
    decreases m,
{
    if m <= 0 {
        Seq::empty()
    } else {
        pair_row(o, ws, i, m - 1) + (if i != m - 1 && pair_result(o, ws[i], ws[m - 1]) is Some {
            seq![pair_result(o, ws[i], ws[m - 1])->Some_0]
        } else {
            Seq::empty()
        })
    }
}

/// The results of all ordered pairs whose first word is one of the first `n`.
pub open spec fn pair_rows(o: OptionsView, ws: Seq<Seq<char>>, n: int) -> Seq<DeltaView>
    decreases n,
{
    if n <= 0 {
        Seq::empty()
    } else {
        pair_rows(o, ws, n - 1) + pair_row(o, ws, n - 1, ws.len() as int)
    }
}

/// The minimal pairs among `ws`, over all ordered pairs of distinct
/// positions in lexicographic order.
pub open spec fn minimal_pairs_of(o: OptionsView, ws: Seq<Seq<char>>) -> Seq<DeltaView> {
    pair_rows(o, ws, ws.len() as int)
}

/// A pair of words with different syllable counts is never a minimal pair.
pub proof fn lemma_length_mismatch_not_minimal(o: OptionsView, a: Seq<char>, b: Seq<char>)
    requires
        word_syllables(a).len() != word_syllables(b).len(),
    ensures
        !same_length(a, b),
        pair_result(o, a, b) is None,
{
}

/// A pair of words that agree in every syllable on every axis has no
/// delta, and is not a minimal pair.
pub proof fn lemma_identical_pair_excluded(o: OptionsView, a: Seq<char>, b: Seq<char>)
    requires
        same_features(a, b),
    ensures
        word_deltas(a, b).len() == 0,
        pair_result(o, a, b) is None,
{
    lemma_identical_words_no_deltas(a, b);
}

/// Whether a single syllable passes on its own.
fn syllable_passes_exec(o: &Options, s: &Syllable) -> (r: bool)
    ensures
        r == syllable_passes(o@, s@),
{
    let ghost ts = seq![s@];
    proof {
        assert(ts[0] == s@);
        assert(first_match_from(o@, DeltaKind::Vowel, ts, 1) is None);
        assert(first_match_from(o@, DeltaKind::InitialConsonant, ts, 1) is None);
        assert(first_match_from(o@, DeltaKind::FinalConsonant, ts, 1) is None);
        assert(first_match_from(o@, DeltaKind::Tone, ts, 1) is None);
    }
    let v = o.vowels.len() == 0 || satisfies_exec(o, DeltaKind::Vowel, s);
    let i = o.initial_consonants.len() == 0 || satisfies_exec(
        o,
        DeltaKind::InitialConsonant,
        s,
    );
    let f = o.final_consonants.len() == 0 || satisfies_exec(
        o,
        DeltaKind::FinalConsonant,
        s,
    );
    let t = o.tones.len() == 0 || satisfies_exec(o, DeltaKind::Tone, s);
    v && i && f && t
}

/// The first syllable of an entry that passes on its own.
pub fn pass_index_exec(o: &Options, e: &Entry) -> (r: Option<usize>)
    ensures
        r matches Some(i) ==> pass_index(o@, e@) == Some(i as int),
        r is None ==> pass_index(o@, e@) is None,
{
    let ss = e.syllables();
    let ghost ts = word_syllables(e@);
    let mut i: usize = 0;
    while i < ss.len()
        invariant
            ts == word_syllables(e@),
            ss@.len() == ts.len(),
            forall|j: int| 0 <= j < ss@.len() ==> (#[trigger] ss@[j])@ == ts[j],
            i <= ss@.len(),
            pass_index(o@, e@) == pass_index_from(o@, ts, i as int),
        decreases ss@.len() - i,
    {
        if syllable_passes_exec(o, &ss[i]) {
            return Some(i);
        }
        i = i + 1;
    }
    None
}

/// The delta that makes `(a, b)` a minimal pair, if it is one.
pub fn pair_delta(o: &Options, a: &Entry, b: &Entry) -> (r: Option<Delta>)
    ensures
        r matches Some(d) ==> pair_result(o@, a@, b@) == Some(d@),
        r is None ==> pair_result(o@, a@, b@) is None,
{
    match Delta::from_word_pair(a, b) {
        WordDelta::LengthMismatch => None,
        WordDelta::Deltas(v) => {
            let mut v = v;
            if v.len() != 1 {
                return None;
            }
            let (i, d) = v.remove(0);
            if d.kind != o.kind {
                return None;
            }
            let pa = pass_index_exec(o, a);
            let pb = pass_index_exec(o, b);
            match (pa, pb) {
                (Some(x), Some(y)) => {
                    if x == i && y == i {
                        Some(d)
                    } else {
                        None
                    }
                },
                _ => None,
            }
        },
    }
}

/// The minimal pairs among `words`, over all ordered pairs of distinct
/// positions in lexicographic order.
pub fn minimal_pairs(options: &Options, words: &Vec<Entry>) -> (r: Vec<Delta>)
    ensures
        r@.len() == minimal_pairs_of(options@, words@.map_values(|e: Entry| e@)).len(),
        forall|i: int|
            0 <= i < r@.len() ==> (#[trigger] r@[i])@ == minimal_pairs_of(
                options@,
                words@.map_values(|e: Entry| e@),
            )[i],
{
    let ghost ws = words@.map_values(|e: Entry| e@);
    let n = words.len();
    let mut out: Vec<Delta> = Vec::new();
    let mut i: usize = 0;
    while i < n
        invariant
            n == words@.len(),
            ws == words@.map_values(|e: Entry| e@),
            i <= n,
            out@.len() == pair_rows(options@, ws, i as int).len(),
            forall|q: int|
                0 <= q < out@.len() ==> (#[trigger] out@[q])@ == pair_rows(options@, ws, i as int)[q],
        decreases n - i,
    {
        let ghost before = out@;
        let mut j: usize = 0;
        while j < n
            invariant
                n == words@.len(),
                ws == words@.map_values(|e: Entry| e@),
                i < n,
                j <= n,
                before.len() == pair_rows(options@, ws, i as int).len(),
                forall|q: int|
                    0 <= q < before.len() ==> (#[trigger] before[q])@ == pair_rows(
                        options@,
                        ws,
                        i as int,
                    )[q],
                out@.len() == before.len() + pair_row(options@, ws, i as int, j as int).len(),
                forall|q: int| 0 <= q < before.len() ==> #[trigger] out@[q] == before[q],
                forall|q: int|
                    0 <= q < pair_row(options@, ws, i as int, j as int).len() ==> (
                    #[trigger] out@[before.len() + q])@ == pair_row(
                        options@,
                        ws,
                        i as int,
                        j as int,
                    )[q],
            decreases n - j,
        {
            assert(ws[i as int] == words@[i as int]@);
            assert(ws[j as int] == words@[j as int]@);
            if i != j {
                match pair_delta(options, &words[i], &words[j]) {
                    Some(d) => {
                        out.push(d);
                    },
                    None => {},
                }
            }
            j = j + 1;
        }
        proof {
            let rows = pair_rows(options@, ws, i + 1);
            let row = pair_row(options@, ws, i as int, n as int);
            assert(rows == pair_rows(options@, ws, i as int) + row);
            assert forall|q: int| 0 <= q < out@.len() implies (#[trigger] out@[q])@ == rows[q] by {
                if q >= before.len() {
                    let p = q - before.len();
                    assert(out@[before.len() + p] == out@[q]);
                }
            }
        }
        i = i + 1;
    }
    out
}

/// The minimal pairs of a corpus: the entries that pass, paired.
pub fn find_minimal_pairs(options: &Options, words: &Vec<Entry>) -> (r: Vec<Delta>)
    ensures
        r@.len() == minimal_pairs_of(
            options@,
            filter_words(options@, words@.map_values(|e: Entry| e@)),
        ).len(),
        forall|i: int|
            0 <= i < r@.len() ==> (#[trigger] r@[i])@ == minimal_pairs_of(
                options@,
                filter_words(options@, words@.map_values(|e: Entry| e@)),
            )[i],
{
    let kept = filter(options, words);
    assert(kept@.map_values(|e: Entry| e@) =~= filter_words(
        options@,
        words@.map_values(|e: Entry| e@),
    ));
    minimal_pairs(options, &kept)
}

} // verus!
