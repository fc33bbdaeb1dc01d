//! Maximal runs of characters of one class: vowel letters, other
//! characters, or characters that are not white space.
use vstd::prelude::*;
use vstd::string::*;

use crate::vowels::{is_vowel, is_vowel_letter};

verus! {

/// The classes of characters that a text is split by.
#[derive(Debug, PartialEq, Eq, Structural, Clone, Copy)]
pub enum CharClass {
    VowelLetter,
    NonVowel,
    NonSpace,
}

/// White space as Unicode defines it (the property `White_Space`).
pub open spec fn is_space(c: char) -> bool {
    ('\u{9}' <= c <= '\u{d}') || c == ' ' || c == '\u{85}' || c == '\u{a0}' || c == '\u{1680}'
        || ('\u{2000}' <= c <= '\u{200a}') || c == '\u{2028}' || c == '\u{2029}' || c
        == '\u{202f}' || c == '\u{205f}' || c == '\u{3000}'
}

pub fn is_space_char(c: char) -> (r: bool)
    ensures
        r == is_space(c),
{
    ('\u{9}' <= c && c <= '\u{d}') || c == ' ' || c == '\u{85}' || c == '\u{a0}' || c
        == '\u{1680}' || ('\u{2000}' <= c && c <= '\u{200a}') || c == '\u{2028}' || c
        == '\u{2029}' || c == '\u{202f}' || c == '\u{205f}' || c == '\u{3000}'
}

pub open spec fn in_class(c: char, k: CharClass) -> bool {
    match k {
        CharClass::VowelLetter => is_vowel_letter(c),
        CharClass::NonVowel => !is_vowel_letter(c),
        CharClass::NonSpace => !is_space(c),
    }
}

pub fn in_class_exec(c: char, k: CharClass) -> (r: bool)
    ensures
        r == in_class(c, k),
{
    match k {
        CharClass::VowelLetter => is_vowel(c),
        CharClass::NonVowel => !is_vowel(c),
        CharClass::NonSpace => !is_space_char(c),
    }
}

/// The maximal runs of characters of class `k` in `s`, in order, each as
/// the half-open range of its positions.
pub open spec fn runs(s: Seq<char>, k: CharClass) -> Seq<(int, int)>
    decreases s.len(),
{
    if s.len() == 0 {
        Seq::empty()
    } else {
        let prev = runs(s.drop_last(), k);
        let n = s.len() - 1;
        if !in_class(s[n], k) {
            prev
        } else if n > 0 && in_class(s[n - 1], k) {
            prev.update(prev.len() - 1, (prev.last().0, n + 1))
        } else {
            prev.push((n, n + 1))
        }
    }
}

/// The text of a run.
pub open spec fn run_text(s: Seq<char>, r: (int, int)) -> Seq<char> {
    s.subrange(r.0, r.1)
}

/// The texts of all runs of class `k`, in order.
pub open spec fn run_texts(s: Seq<char>, k: CharClass) -> Seq<Seq<char>> {
    runs(s, k).map_values(|r: (int, int)| run_text(s, r))
}

/// Each run is a non-empty range inside the text, made of characters of
/// its class; a text that ends in its class ends with its last run.
pub proof fn lemma_runs_shape(s: Seq<char>, k: CharClass)
    ensures
        forall|j: int|
            0 <= j < runs(s, k).len() ==> 0 <= (#[trigger] runs(s, k)[j]).0 < runs(s, k)[j].1
                <= s.len(),
        forall|j: int, p: int|
            #![trigger runs(s, k)[j], s[p]]
            0 <= j < runs(s, k).len() && runs(s, k)[j].0 <= p < runs(s, k)[j].1 ==> in_class(
                s[p],
                k,
            ),
        s.len() > 0 && in_class(s.last(), k) ==> runs(s, k).len() > 0 && runs(s, k).last().1
            == s.len(),
    decreases s.len(),
{
    if s.len() > 0 {
        let t = s.drop_last();
        let n = s.len() - 1;
        lemma_runs_shape(t, k);
        let prev = runs(t, k);
        let cur = runs(s, k);
        assert forall|p: int| 0 <= p < t.len() implies t[p] == s[p] by {}
        if !in_class(s[n], k) {
            assert(cur == prev);
            assert forall|j: int, p: int|
                #![trigger cur[j], s[p]]
                0 <= j < cur.len() && cur[j].0 <= p < cur[j].1 implies in_class(s[p], k) by {
                assert(prev[j] == cur[j]);
                assert(t[p] == s[p]);
            }
        } else if n > 0 && in_class(s[n - 1], k) {
            assert(t.last() == s[n - 1]);
            assert(prev.len() > 0);
            assert forall|j: int, p: int|
                #![trigger cur[j], s[p]]
                0 <= j < cur.len() && cur[j].0 <= p < cur[j].1 implies in_class(s[p], k) by {
                if p < n {
                    if j == prev.len() - 1 {
                        assert(prev[j].0 <= p < prev[j].1);
                    } else {
                        assert(prev[j] == cur[j]);
                    }
                    assert(t[p] == s[p]);
                }
            }
        } else {
            assert forall|j: int, p: int|
                #![trigger cur[j], s[p]]
                0 <= j < cur.len() && cur[j].0 <= p < cur[j].1 implies in_class(s[p], k) by {
                if j < prev.len() {
                    assert(prev[j] == cur[j]);
                    assert(t[p] == s[p]);
                }
            }
        }
    }
}

/// Finds the runs of class `k` in `s`.
pub fn find_runs(s: &str, k: CharClass) -> (r: Vec<(usize, usize)>)
    ensures
        r@.len() == runs(s@, k).len(),
        forall|j: int|
            0 <= j < r@.len() ==> (#[trigger] r@[j]).0 as int == runs(s@, k)[j].0 && r@[j].1 as int
                == runs(s@, k)[j].1,
{
    let n = s.unicode_len();
    let mut r: Vec<(usize, usize)> = Vec::new();
    let mut prev_in = false;
    let mut i: usize = 0;
    while i < n
        invariant
            n == s@.len(),
            i <= n,
            r@.len() == runs(s@.subrange(0, i as int), k).len(),
            forall|j: int|
                0 <= j < r@.len() ==> (#[trigger] r@[j]).0 as int == runs(
                    s@.subrange(0, i as int),
                    k,
                )[j].0 && r@[j].1 as int == runs(s@.subrange(0, i as int), k)[j].1,
            prev_in == (i > 0 && in_class(s@[i - 1], k)),
        decreases n - i,
    {
        let c = s.get_char(i);
        let cur = in_class_exec(c, k);
        proof {
            let pre = s@.subrange(0, i as int);
            let next = s@.subrange(0, i + 1);
            assert(next.drop_last() == pre);
            assert(next[i as int] == c);
            if i > 0 {
                assert(next[i - 1] == s@[i - 1]);
                assert(pre.last() == s@[i - 1]);
            }
            lemma_runs_shape(pre, k);
            lemma_runs_shape(next, k);
        }
        if cur {
            if prev_in {
                let last = r.pop().unwrap();
                r.push((last.0, i + 1));
            } else {
                r.push((i, i + 1));
            }
        }
        prev_in = cur;
        i = i + 1;
    }
    assert(s@.subrange(0, n as int) == s@);
    r
}

} // verus!
