//! Selecting the entries that meet a configuration, and finding the
//! minimal pairs among them.
use vstd::prelude::*;

use crate::delta::DeltaKind;
use crate::entry::{word_syllables, Entry};
use crate::syllable::{final_of, initial_of, nucleus, Syllable};
use crate::text::text_eq;
use crate::vowels::{cluster_tone, strip, Tone};

verus! {

/// What to look for: the wanted values of each axis (an empty list puts
/// no constraint on that axis) and the axis on which pairs must differ.
pub struct Options {
    pub vowels: Vec<String>,
    pub initial_consonants: Vec<String>,
    pub final_consonants: Vec<String>,
    pub tones: Vec<Tone>,
    pub kind: DeltaKind,
}

pub ghost struct OptionsView {
    pub vowels: Seq<Seq<char>>,
    pub initial_consonants: Seq<Seq<char>>,
    pub final_consonants: Seq<Seq<char>>,
    pub tones: Seq<Tone>,
    pub kind: DeltaKind,
}

impl View for Options {
    type V = OptionsView;

    open spec fn view(&self) -> OptionsView {
        OptionsView {
            vowels: self.vowels@.map_values(|s: String| s@),
            initial_consonants: self.initial_consonants@.map_values(|s: String| s@),
            final_consonants: self.final_consonants@.map_values(|s: String| s@),
            tones: self.tones@,
            kind: self.kind,
        }
    }
}

impl Default for Options {
    fn default() -> (r: Options)
        ensures
            r.vowels@.len() == 0,
            r.initial_consonants@.len() == 0,
            r.final_consonants@.len() == 0,
            r.tones@.len() == 0,
            r.kind == DeltaKind::Tone,
    {
        Options {
            vowels: Vec::new(),
            initial_consonants: Vec::new(),
            final_consonants: Vec::new(),
            tones: Vec::new(),
            kind: DeltaKind::Tone,
        }
    }
}

/// Whether the configuration constrains axis `k`.
pub open spec fn constrained(o: OptionsView, k: DeltaKind) -> bool {
    match k {
        DeltaKind::Vowel => o.vowels.len() > 0,
        DeltaKind::InitialConsonant => o.initial_consonants.len() > 0,
        DeltaKind::FinalConsonant => o.final_consonants.len() > 0,
        DeltaKind::Tone => o.tones.len() > 0,
    }
}

/// Whether syllable `t` has one of the wanted values on axis `k`.
pub open spec fn satisfies(o: OptionsView, k: DeltaKind, t: Seq<char>) -> bool {
    match k {
        DeltaKind::Vowel => exists|j: int|
            0 <= j < o.vowels.len() && #[trigger] o.vowels[j] == strip(nucleus(t)),
        DeltaKind::InitialConsonant => exists|j: int|
            0 <= j < o.initial_consonants.len() && initial_of(t) == Some(
                #[trigger] o.initial_consonants[j],
            ),
        DeltaKind::FinalConsonant => exists|j: int|
            0 <= j < o.final_consonants.len() && final_of(t) == Some(
                #[trigger] o.final_consonants[j],
            ),
        DeltaKind::Tone => exists|j: int|
            0 <= j < o.tones.len() && #[trigger] o.tones[j] == cluster_tone(nucleus(t)),
    }
}

/// The first position at or after `i` whose syllable satisfies axis `k`.
pub open spec fn first_match_from(o: OptionsView, k: DeltaKind, ts: Seq<Seq<char>>, i: int) -> Option<
    int,
>
    decreases ts.len() - i,
{
    if i < 0 || i >= ts.len() {
        None
    } else if satisfies(o, k, ts[i]) {
        Some(i)
    } else {
        first_match_from(o, k, ts, i + 1)
    }
}

pub open spec fn first_match(o: OptionsView, k: DeltaKind, ts: Seq<Seq<char>>) -> Option<int> {
    first_match_from(o, k, ts, 0)
}

/// Two first positions do not contradict each other.
pub open spec fn agree(a: Option<int>, b: Option<int>) -> bool {
    a is None || b is None || a == b
}

/// A word (as its syllables) passes when every constrained axis has a
/// matching syllable, and the first matching positions of all of them
/// are one and the same.
pub open spec fn passes(o: OptionsView, ts: Seq<Seq<char>>) -> bool {
    let fv = first_match(o, DeltaKind::Vowel, ts);
    let fi = first_match(o, DeltaKind::InitialConsonant, ts);
    let ff = first_match(o, DeltaKind::FinalConsonant, ts);
    let ft = first_match(o, DeltaKind::Tone, ts);
    &&& (constrained(o, DeltaKind::Vowel) ==> fv is Some)
    &&& (constrained(o, DeltaKind::InitialConsonant) ==> fi is Some)
    &&& (constrained(o, DeltaKind::FinalConsonant) ==> ff is Some)
    &&& (constrained(o, DeltaKind::Tone) ==> ft is Some)
    &&& agree(ft, fv) && agree(ft, fi) && agree(ft, ff)
    &&& agree(fv, fi) && agree(fv, ff) && agree(fi, ff)
}

pub open spec fn entry_passes(o: OptionsView, w: Seq<char>) -> bool {
    passes(o, word_syllables(w))
}

/// The words that pass, in their order.
pub open spec fn filter_words(o: OptionsView, ws: Seq<Seq<char>>) -> Seq<Seq<char>>
    decreases ws.len(),
{
    if ws.len() == 0 {
        Seq::empty()
    } else if entry_passes(o, ws.last()) {
        filter_words(o, ws.drop_last()).push(ws.last())
    } else {
        filter_words(o, ws.drop_last())
    }
}

proof fn lemma_filter_words_pass(o: OptionsView, ws: Seq<Seq<char>>)
    ensures
        forall|i: int|
            0 <= i < filter_words(o, ws).len() ==> entry_passes(o, #[trigger] filter_words(o, ws)[i]),
    decreases ws.len(),
{
    if ws.len() > 0 {
        let pre = ws.drop_last();
        lemma_filter_words_pass(o, pre);
        let prev = filter_words(o, pre);
        if entry_passes(o, ws.last()) {
            assert forall|i: int| 0 <= i < prev.len() + 1 implies entry_passes(
                o,
                #[trigger] prev.push(ws.last())[i],
            ) by {
                if i < prev.len() {
                    assert(prev.push(ws.last())[i] == prev[i]);
                }
            }
        }
    }
}

proof fn lemma_filter_words_keeps_passing(o: OptionsView, ws: Seq<Seq<char>>)
    requires
        forall|i: int| 0 <= i < ws.len() ==> entry_passes(o, #[trigger] ws[i]),
    ensures
        filter_words(o, ws) == ws,
    decreases ws.len(),
{
    if ws.len() > 0 {
        let pre = ws.drop_last();
        assert forall|i: int| 0 <= i < pre.len() implies entry_passes(o, #[trigger] pre[i]) by {
            assert(pre[i] == ws[i]);
        }
        lemma_filter_words_keeps_passing(o, pre);
        assert(ws.last() == ws[ws.len() - 1]);
        assert(pre.push(ws.last()) =~= ws);
    }
}

/// Filtering what the filter kept, with the same configuration, keeps all
/// of it: the filter is idempotent.
pub proof fn lemma_filter_idempotent(o: OptionsView, ws: Seq<Seq<char>>)
    ensures
        filter_words(o, filter_words(o, ws)) == filter_words(o, ws),
{
    lemma_filter_words_pass(o, ws);
    lemma_filter_words_keeps_passing(o, filter_words(o, ws));
}

/// Whether one of `vals` holds the characters of `x`.
fn contains_text(vals: &Vec<String>, x: &str) -> (r: bool)
    ensures
        r == exists|j: int| 0 <= j < vals@.len() && (#[trigger] vals@[j])@ == x@,
{
    let mut j: usize = 0;
    while j < vals.len()
        invariant
            j <= vals@.len(),
            forall|q: int| 0 <= q < j ==> (#[trigger] vals@[q])@ != x@,
        decreases vals@.len() - j,
    {
        if text_eq(vals[j].as_str(), x) {
            return true;
        }
        j = j + 1;
    }
    false
}

/// Whether the syllable has one of the wanted values on axis `k`.
pub(crate) fn satisfies_exec(o: &Options, k: DeltaKind, s: &Syllable) -> (r: bool)
    ensures
        r == satisfies(o@, k, s@),
{
    let ghost ov = o@;
    match k {
        DeltaKind::Vowel => {
            let n = s.vowel().normal();
            let r = contains_text(&o.vowels, n.as_str());
            assert(r == exists|j: int| 0 <= j < ov.vowels.len() && #[trigger] ov.vowels[j] == strip(nucleus(s@))) by {
                if r {
                    let j = choose|j: int| 0 <= j < o.vowels@.len() && (#[trigger] o.vowels@[j])@ == n@;
                    assert(ov.vowels[j] == o.vowels@[j]@);
                }
            }
            r
        },
        DeltaKind::InitialConsonant => match s.initial_consonant() {
            Some(c) => {
                let r = contains_text(&o.initial_consonants, c);
                assert(r == exists|j: int| 0 <= j < ov.initial_consonants.len() && initial_of(s@) == Some(#[trigger] ov.initial_consonants[j])) by {
                    if r {
                        let j = choose|j: int| 0 <= j < o.initial_consonants@.len() && (#[trigger] o.initial_consonants@[j])@ == c@;
                        assert(ov.initial_consonants[j] == o.initial_consonants@[j]@);
                    }
                }
                r
            },
            None => false,
        },
        DeltaKind::FinalConsonant => match s.final_consonant() {
            Some(c) => {
                let r = contains_text(&o.final_consonants, c);
                assert(r == exists|j: int| 0 <= j < ov.final_consonants.len() && final_of(s@) == Some(#[trigger] ov.final_consonants[j])) by {
                    if r {
                        let j = choose|j: int| 0 <= j < o.final_consonants@.len() && (#[trigger] o.final_consonants@[j])@ == c@;
                        assert(ov.final_consonants[j] == o.final_consonants@[j]@);
                    }
                }
                r
            },
            None => false,
        },
        DeltaKind::Tone => {
            let t = s.vowel().tone();
            let mut j: usize = 0;
            while j < o.tones.len()
                invariant
                    j <= o.tones@.len(),
                    t == cluster_tone(nucleus(s@)),
                    k == DeltaKind::Tone,
                    forall|q: int| 0 <= q < j ==> #[trigger] o.tones@[q] != t,
                decreases o.tones@.len() - j,
            {
                let here = o.tones[j];
                if here == t {
                    assert(o@.tones[j as int] == cluster_tone(nucleus(s@)));
                    assert(satisfies(o@, k, s@));
                    return true;
                }
                j = j + 1;
            }
            false
        },
    }
}

/// The views of a list of syllables.
pub open spec fn syllable_views(ss: Seq<Syllable>) -> Seq<Seq<char>> {
    ss.map_values(|s: Syllable| s@)
}

/// The first syllable that satisfies axis `k`.
fn first_match_exec(o: &Options, k: DeltaKind, ss: &Vec<Syllable>) -> (r: Option<usize>)
    ensures
        r matches Some(i) ==> first_match(o@, k, syllable_views(ss@)) == Some(i as int),
        r is None ==> first_match(o@, k, syllable_views(ss@)) is None,
{
    let ghost ts = syllable_views(ss@);
    let mut i: usize = 0;
    while i < ss.len()
        invariant
            ts == syllable_views(ss@),
            i <= ss@.len(),
            first_match(o@, k, ts) == first_match_from(o@, k, ts, i as int),
        decreases ss@.len() - i,
    {
        assert(ts[i as int] == ss@[i as int]@);
        if satisfies_exec(o, k, &ss[i]) {
            return Some(i);
        }
        i = i + 1;
    }
    None
}

/// Whether a word, given as its syllables, passes.
pub fn syllables_pass(o: &Options, ss: &Vec<Syllable>) -> (r: bool)
    ensures
        r == passes(o@, syllable_views(ss@)),
{
    let fv = first_match_exec(o, DeltaKind::Vowel, ss);
    let fi = first_match_exec(o, DeltaKind::InitialConsonant, ss);
    let ff = first_match_exec(o, DeltaKind::FinalConsonant, ss);
    let ft = first_match_exec(o, DeltaKind::Tone, ss);
    if ft.is_none() && o.tones.len() > 0 {
        return false;
    }
    if fv.is_none() && o.vowels.len() > 0 {
        return false;
    }
    if fi.is_none() && o.initial_consonants.len() > 0 {
        return false;
    }
    if ff.is_none() && o.final_consonants.len() > 0 {
        return false;
    }
    opt_agree(ft, fv) && opt_agree(ft, fi) && opt_agree(ft, ff) && opt_agree(fv, fi) && opt_agree(
        fv,
        ff,
    ) && opt_agree(fi, ff)
}

fn opt_agree(a: Option<usize>, b: Option<usize>) -> (r: bool)
    ensures
        r == agree(
            match a {
                Some(x) => Some(x as int),
                None => None,
            },
            match b {
                Some(x) => Some(x as int),
                None => None,
            },
        ),
{
    match (a, b) {
        (Some(x), Some(y)) => x == y,
        _ => true,
    }
}

/// Whether an entry passes.
pub fn entry_passes_exec(o: &Options, e: &Entry) -> (r: bool)
    ensures
        r == entry_passes(o@, e@),
{
    let ss = e.syllables();
    assert(syllable_views(ss@) =~= word_syllables(e@));
    syllables_pass(o, &ss)
}

/// The entries that pass, in their order.
pub fn filter(options: &Options, words: &Vec<Entry>) -> (r: Vec<Entry>)
    ensures
        r@.len() == filter_words(options@, words@.map_values(|e: Entry| e@)).len(),
        forall|i: int|
            0 <= i < r@.len() ==> (#[trigger] r@[i])@ == filter_words(
                options@,
                words@.map_values(|e: Entry| e@),
            )[i],
{
    let ghost ws = words@.map_values(|e: Entry| e@);
    let mut out: Vec<Entry> = Vec::new();
    let mut k: usize = 0;
    while k < words.len()
        invariant
            ws == words@.map_values(|e: Entry| e@),
            k <= words@.len(),
            out@.len() == filter_words(options@, ws.subrange(0, k as int)).len(),
            forall|i: int|
                0 <= i < out@.len() ==> (#[trigger] out@[i])@ == filter_words(
                    options@,
                    ws.subrange(0, k as int),
                )[i],
        decreases words@.len() - k,
    {
        let ghost pre = ws.subrange(0, k as int);
        let ghost next = ws.subrange(0, k + 1);
        assert(next.drop_last() == pre);
        assert(next.last() == words@[k as int]@);
        if entry_passes_exec(options, &words[k]) {
            out.push(words[k].duplicate());
        }
        k = k + 1;
    }
    assert(ws.subrange(0, ws.len() as int) == ws);
    out
}

} // verus!
