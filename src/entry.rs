//! Dictionary entries: a headword of whitespace-separated syllables.
use vstd::prelude::*;
use vstd::string::*;

use crate::runs::{find_runs, lemma_runs_shape, run_texts, runs, CharClass};
use crate::syllable::{is_syllable, nucleus, nucleus_fits, Syllable};
use crate::text::copy_range;

verus! {

/// The separator between headword and gloss, `" : "`, starts at `i`.
pub open spec fn sep_at(line: Seq<char>, i: int) -> bool {
    0 <= i && i + 3 <= line.len() && line[i] == ' ' && line[i + 1] == ':' && line[i + 2] == ' '
}

pub open spec fn has_separator(line: Seq<char>) -> bool {
    exists|i: int| sep_at(line, i)
}

/// Where the first separator at or after `i` starts (the length of the
/// line where there is none).
pub open spec fn sep_from(line: Seq<char>, i: int) -> int
    decreases line.len() - i,
{
    if i < 0 || i + 3 > line.len() {
        line.len() as int
    } else if sep_at(line, i) {
        i
    } else {
        sep_from(line, i + 1)
    }
}

/// Where the first separator starts.
pub open spec fn first_sep(line: Seq<char>) -> int {
    sep_from(line, 0)
}

/// The headword of a line: what stands before its first separator.
pub open spec fn headword(line: Seq<char>) -> Seq<char> {
    line.subrange(0, first_sep(line))
}

/// The whitespace-separated tokens of a text.
pub open spec fn tokens(w: Seq<char>) -> Seq<Seq<char>> {
    run_texts(w, CharClass::NonSpace)
}

/// The tokens that are syllables, in order.
pub open spec fn keep_syllables(ts: Seq<Seq<char>>) -> Seq<Seq<char>>
    decreases ts.len(),
{
    if ts.len() == 0 {
        Seq::empty()
    } else if is_syllable(ts.last()) {
        keep_syllables(ts.drop_last()).push(ts.last())
    } else {
        keep_syllables(ts.drop_last())
    }
}

/// The syllables of a word, as tokens.
pub open spec fn word_syllables(w: Seq<char>) -> Seq<Seq<char>> {
    keep_syllables(tokens(w))
}

/// Every token of the text has a nucleus of at most three letters.
pub open spec fn tokens_fit(w: Seq<char>) -> bool {
    forall|i: int| 0 <= i < tokens(w).len() ==> nucleus_fits(#[trigger] tokens(w)[i])
}

/// A headword that can be an entry: at least one syllable, every nucleus a cluster.
pub open spec fn is_entry(w: Seq<char>) -> bool {
    tokens_fit(w) && word_syllables(w).len() > 0
}

/// Why a dictionary line is refused.
#[derive(Debug, PartialEq, Eq, Structural, Clone, Copy)]
pub enum LineError {
    /// The line has no `" : "` between headword and gloss.
    MissingSeparator,
    /// A token's vowel nucleus is longer than any vowel cluster.
    MalformedCluster,
}

/// Finds the first separator of a line.
pub fn find_separator(line: &str) -> (r: Option<usize>)
    ensures
        r is None <==> !has_separator(line@),
        r matches Some(i) ==> i as int == first_sep(line@) && sep_at(line@, i as int),
{
    let n = line.unicode_len();
    if n < 3 {
        assert(!has_separator(line@));
        return None;
    }
    let mut i: usize = 0;
    while i <= n - 3
        invariant
            n >= 3,
            n == line@.len(),
            first_sep(line@) == sep_from(line@, i as int),
            forall|j: int| 0 <= j < i ==> !sep_at(line@, j),
        decreases n - i,
    {
        if line.get_char(i) == ' ' && line.get_char(i + 1) == ':' && line.get_char(i + 2) == ' ' {
            assert(sep_at(line@, i as int));
            return Some(i);
        }
        i = i + 1;
    }
    assert forall|j: int| !sep_at(line@, j) by {
        if 0 <= j < i {
        }
    }
    None
}

/// Segments every token of a text and keeps the syllables.
pub fn syllables_of(w: &str) -> (r: Vec<Syllable>)
    requires
        tokens_fit(w@),
    ensures
        r@.len() == word_syllables(w@).len(),
        forall|i: int| 0 <= i < r@.len() ==> (#[trigger] r@[i])@ == word_syllables(w@)[i],
{
    let spans = find_runs(w, CharClass::NonSpace);
    proof { lemma_runs_shape(w@, CharClass::NonSpace); }
    let ghost ts = tokens(w@);
    let mut out: Vec<Syllable> = Vec::new();
    let mut k: usize = 0;
    while k < spans.len()
        invariant
            ts == tokens(w@),
            ts.len() == spans@.len(),
            tokens_fit(w@),
            forall|j: int|
                0 <= j < spans@.len() ==> (#[trigger] spans@[j]).0 as int == runs(
                    w@,
                    CharClass::NonSpace,
                )[j].0 && spans@[j].1 as int == runs(w@, CharClass::NonSpace)[j].1,
            forall|j: int|
                0 <= j < runs(w@, CharClass::NonSpace).len() ==> 0 <= (#[trigger] runs(
                    w@,
                    CharClass::NonSpace,
                )[j]).0 < runs(w@, CharClass::NonSpace)[j].1 <= w@.len(),
            k <= spans@.len(),
            out@.len() == keep_syllables(ts.subrange(0, k as int)).len(),
            forall|i: int|
                0 <= i < out@.len() ==> (#[trigger] out@[i])@ == keep_syllables(
                    ts.subrange(0, k as int),
                )[i],
        decreases spans@.len() - k,
    {
        let (a, b) = spans[k];
        let tok = copy_range(w, a, b);
        assert(tok@ == ts[k as int]);
        assert(nucleus_fits(ts[k as int]));
        let ghost pre = ts.subrange(0, k as int);
        let ghost next = ts.subrange(0, k + 1);
        assert(next.drop_last() == pre);
        assert(next.last() == tok@);
        match Syllable::new(tok.as_str()) {
            Some(s) => {
                out.push(s);
            },
            None => {},
        }
        k = k + 1;
    }
    assert(ts.subrange(0, ts.len() as int) == ts);
    out
}

/// Checks a dictionary line before it is made an entry.
pub fn check_line(line: &str) -> (r: Result<(), LineError>)
    ensures
        r == Err::<(), LineError>(LineError::MissingSeparator) <==> !has_separator(line@),
        r == Err::<(), LineError>(LineError::MalformedCluster) <==> has_separator(line@)
            && !tokens_fit(headword(line@)),
        r is Ok <==> has_separator(line@) && tokens_fit(headword(line@)),
{
    let i = match find_separator(line) {
        Some(i) => i,
        None => return Err(LineError::MissingSeparator),
    };
    let word = line.substring_char(0, i);
    let spans = find_runs(word, CharClass::NonSpace);
    proof { lemma_runs_shape(word@, CharClass::NonSpace); }
    let ghost ts = tokens(word@);
    let mut k: usize = 0;
    while k < spans.len()
        invariant
            has_separator(line@),
            word@ == headword(line@),
            ts == tokens(word@),
            ts.len() == spans@.len(),
            forall|j: int|
                0 <= j < spans@.len() ==> (#[trigger] spans@[j]).0 as int == runs(
                    word@,
                    CharClass::NonSpace,
                )[j].0 && spans@[j].1 as int == runs(word@, CharClass::NonSpace)[j].1,
            forall|j: int|
                0 <= j < runs(word@, CharClass::NonSpace).len() ==> 0 <= (#[trigger] runs(
                    word@,
                    CharClass::NonSpace,
                )[j]).0 < runs(word@, CharClass::NonSpace)[j].1 <= word@.len(),
            k <= spans@.len(),
            forall|j: int| 0 <= j < k ==> nucleus_fits(#[trigger] ts[j]),
        decreases spans@.len() - k,
    {
        let (a, b) = spans[k];
        let tok = word.substring_char(a, b);
        assert(tok@ == ts[k as int]);
        let vr = find_runs(tok, CharClass::VowelLetter);
        proof { lemma_runs_shape(tok@, CharClass::VowelLetter); }
        if vr.len() > 0 && vr[0].1 - vr[0].0 > 3 {
            assert(!nucleus_fits(ts[k as int]));
            assert(!tokens_fit(word@));
            return Err(LineError::MalformedCluster);
        }
        k = k + 1;
    }
    Ok(())
}

/// A dictionary entry: the headword of one line.
#[derive(Debug, PartialEq, Eq)]
pub struct Entry {
    raw: String,
}

impl View for Entry {
    type V = Seq<char>;

    closed spec fn view(&self) -> Seq<char> {
        self.raw@
    }
}

impl Entry {
    #[verifier::type_invariant]
    closed spec fn well_formed(self) -> bool {
        is_entry(self.raw@)
    }

    /// The entry of a dictionary line; `None` where its headword holds no syllable.
    pub fn new(line: &str) -> (r: Option<Entry>)
        requires
            has_separator(line@),
            tokens_fit(headword(line@)),
        ensures
            r is Some <==> word_syllables(headword(line@)).len() > 0,
            r matches Some(e) ==> e@ == headword(line@),
    {
        let i = match find_separator(line) {
            Some(i) => i,
            None => return None,
        };
        let word = copy_range(line, 0, i);
        let count = syllables_of(word.as_str()).len();
        if count == 0 {
            None
        } else {
            Some(Entry { raw: word })
        }
    }

    pub fn raw(&self) -> (r: &str)
        ensures
            r@ == self@,
            is_entry(r@),
    {
        proof { use_type_invariant(self); }
        self.raw.as_str()
    }

    /// The syllables of the entry, in order.
    pub fn syllables(&self) -> (r: Vec<Syllable>)
        ensures
            r@.len() == word_syllables(self@).len(),
            r@.len() > 0,
            forall|i: int| 0 <= i < r@.len() ==> (#[trigger] r@[i])@ == word_syllables(self@)[i],
    {
        proof { use_type_invariant(self); }
        syllables_of(self.raw.as_str())
    }

    /// A copy of the entry.
    pub fn duplicate(&self) -> (r: Entry)
        ensures
            r@ == self@,
    {
        proof { use_type_invariant(self); }
        Entry { raw: self.raw.clone() }
    }
}

/// Why a line is refused, if it is.
pub open spec fn line_error(line: Seq<char>) -> Option<LineError> {
    if !has_separator(line) {
        Some(LineError::MissingSeparator)
    } else if !tokens_fit(headword(line)) {
        Some(LineError::MalformedCluster)
    } else {
        None
    }
}

/// The reason of the first refused line at or after `i`.
pub open spec fn first_error_from(ls: Seq<Seq<char>>, i: int) -> Option<LineError>
    decreases ls.len() - i,
{
    if i < 0 || i >= ls.len() {
        None
    } else if line_error(ls[i]) is Some {
        line_error(ls[i])
    } else {
        first_error_from(ls, i + 1)
    }
}

/// The headwords of the lines whose headword holds a syllable, in order.
pub open spec fn kept_headwords(ls: Seq<Seq<char>>) -> Seq<Seq<char>>
    decreases ls.len(),
{
    if ls.len() == 0 {
        Seq::empty()
    } else if word_syllables(headword(ls.last())).len() > 0 {
        kept_headwords(ls.drop_last()).push(headword(ls.last()))
    } else {
        kept_headwords(ls.drop_last())
    }
}

/// Turns dictionary lines into entries, dropping those whose headword
/// holds no syllable; the first refused line stops the load with its reason.
pub fn load_entries(lines: &Vec<String>) -> (r: Result<Vec<Entry>, LineError>)
    ensures
        r is Ok <==> forall|i: int|
            0 <= i < lines@.len() ==> has_separator(#[trigger] lines@[i]@) && tokens_fit(
                headword(lines@[i]@),
            ),
        r matches Ok(v) ==> v@.map_values(|e: Entry| e@) == kept_headwords(
            lines@.map_values(|s: String| s@),
        ),
        r matches Err(e) ==> first_error_from(lines@.map_values(|s: String| s@), 0) == Some(e),
{
    let ghost ls = lines@.map_values(|s: String| s@);
    let mut out: Vec<Entry> = Vec::new();
    let mut k: usize = 0;
    while k < lines.len()
        invariant
            ls == lines@.map_values(|s: String| s@),
            k <= lines@.len(),
            forall|i: int|
                0 <= i < k ==> has_separator(#[trigger] lines@[i]@) && tokens_fit(
                    headword(lines@[i]@),
                ),
            first_error_from(ls, 0) == first_error_from(ls, k as int),
            out@.map_values(|e: Entry| e@) == kept_headwords(ls.subrange(0, k as int)),
        decreases lines@.len() - k,
    {
        let line = lines[k].as_str();
        assert(ls[k as int] == line@);
        let ghost pre = ls.subrange(0, k as int);
        let ghost next = ls.subrange(0, k + 1);
        assert(next.drop_last() == pre);
        assert(next.last() == line@);
        match check_line(line) {
            Ok(()) => {},
            Err(e) => return Err(e),
        }
        let ghost before = out@;
        match Entry::new(line) {
            Some(e) => {
                out.push(e);
                assert(out@.map_values(|e: Entry| e@) =~= before.map_values(|e: Entry| e@).push(
                    headword(line@),
                ));
            },
            None => {},
        }
        k = k + 1;
    }
    assert(ls.subrange(0, ls.len() as int) == ls);
    Ok(out)
}

} // verus!
