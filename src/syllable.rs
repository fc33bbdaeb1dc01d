//! Splitting a token into initial consonant, vowel nucleus and final consonant.
use vstd::prelude::*;

use crate::runs::{find_runs, lemma_runs_shape, run_text, run_texts, runs, CharClass};
use crate::text::{copy_range, opt_text, opt_view, starts_with, text_starts_with};
use crate::vowels::{is_cluster, is_vowel_letter, Vowel};

verus! {

/// A token is a syllable when it holds at least one vowel letter.
pub open spec fn is_syllable(t: Seq<char>) -> bool {
    runs(t, CharClass::VowelLetter).len() > 0
}

/// The nucleus: the first run of vowel letters.
pub open spec fn nucleus(t: Seq<char>) -> Seq<char> {
    run_text(t, runs(t, CharClass::VowelLetter)[0])
}

/// A token whose nucleus, if it has one, is a vowel cluster of at most three letters.
pub open spec fn nucleus_fits(t: Seq<char>) -> bool {
    is_syllable(t) ==> nucleus(t).len() <= 3
}

/// The initial consonant: the first of two consonant runs, or a lone run
/// that the token begins with.
pub open spec fn initial_of(t: Seq<char>) -> Option<Seq<char>> {
    let cs = run_texts(t, CharClass::NonVowel);
    if cs.len() >= 2 {
        Some(cs[0])
    } else if cs.len() == 1 && starts_with(t, cs[0]) {
        Some(cs[0])
    } else {
        None
    }
}

/// The final consonant: the second of two consonant runs, or a lone run
/// that the token does not begin with.
pub open spec fn final_of(t: Seq<char>) -> Option<Seq<char>> {
    let cs = run_texts(t, CharClass::NonVowel);
    if cs.len() >= 2 {
        Some(cs[1])
    } else if cs.len() == 1 && !starts_with(t, cs[0]) {
        Some(cs[0])
    } else {
        None
    }
}

/// Letters that are all consonants (none a vowel letter).
pub open spec fn all_consonants(s: Seq<char>) -> bool {
    forall|i: int| 0 <= i < s.len() ==> !is_vowel_letter(#[trigger] s[i])
}

/// Letters that are all vowel letters.
pub open spec fn all_vowels(s: Seq<char>) -> bool {
    forall|i: int| 0 <= i < s.len() ==> is_vowel_letter(#[trigger] s[i])
}

/// The runs of the first `m` characters of a token made of consonants,
/// then vowel letters, then consonants.
proof fn lemma_runs_of_shape(c1: Seq<char>, v: Seq<char>, c2: Seq<char>, m: int)
    requires
        all_consonants(c1),
        all_vowels(v),
        all_consonants(c2),
        v.len() > 0,
        0 <= m <= c1.len() + v.len() + c2.len(),
    ensures
        ({
            let t = (c1 + v + c2).subrange(0, m);
            let a = c1.len() as int;
            let b = a + v.len();
            &&& runs(t, CharClass::VowelLetter) == (if m <= a {
                Seq::<(int, int)>::empty()
            } else if m <= b {
                seq![(a, m)]
            } else {
                seq![(a, b)]
            })
            &&& runs(t, CharClass::NonVowel) == (if m == 0 {
                Seq::<(int, int)>::empty()
            } else if m <= a {
                seq![(0, m)]
            } else if m <= b {
                if a > 0 {
                    seq![(0, a)]
                } else {
                    Seq::<(int, int)>::empty()
                }
            } else if a > 0 {
                seq![(0, a), (b, m)]
            } else {
                seq![(b, m)]
            })
        }),
    decreases m,
{
    let full = c1 + v + c2;
    let a = c1.len() as int;
    let b = a + v.len();
    let t = full.subrange(0, m);
    if m > 0 {
        lemma_runs_of_shape(c1, v, c2, m - 1);
        assert(t.drop_last() == full.subrange(0, m - 1));
        assert(t[m - 1] == full[m - 1]);
        if m >= 2 {
            assert(t[m - 2] == full[m - 2]);
        }
        if m - 1 < a {
            assert(full[m - 1] == c1[m - 1]);
        } else if m - 1 < b {
            assert(full[m - 1] == v[m - 1 - a]);
        } else {
            assert(full[m - 1] == c2[m - 1 - b]);
        }
        if m >= 2 {
            if m - 2 < a {
                assert(full[m - 2] == c1[m - 2]);
            } else if m - 2 < b {
                assert(full[m - 2] == v[m - 2 - a]);
            } else {
                assert(full[m - 2] == c2[m - 2 - b]);
            }
        }
    }
}

/// Segmenting a token made of consonants, then vowel letters, then
/// consonants, and joining initial consonant, nucleus and final consonant
/// (an absent part as empty text) gives the token back.
pub proof fn lemma_segment_rejoins(c1: Seq<char>, v: Seq<char>, c2: Seq<char>)
    requires
        all_consonants(c1),
        all_vowels(v),
        all_consonants(c2),
        v.len() > 0,
    ensures
        is_syllable(c1 + v + c2),
        opt_text(initial_of(c1 + v + c2)) + nucleus(c1 + v + c2) + opt_text(final_of(c1 + v + c2))
            == c1 + v + c2,
{
    let t = c1 + v + c2;
    let n = t.len() as int;
    lemma_runs_of_shape(c1, v, c2, n);
    assert(t.subrange(0, n) == t);
    let a = c1.len() as int;
    let b = a + v.len();
    assert(nucleus(t) == v);
    let cs = run_texts(t, CharClass::NonVowel);
    if a > 0 && c2.len() > 0 {
        assert(cs[0] == c1);
        assert(cs[1] == c2);
    } else if a > 0 {
        assert(cs[0] == c1);
        assert(t.subrange(0, a) == c1);
    } else if c2.len() > 0 {
        assert(cs[0] == c2);
        assert(t[0] == v[0]);
        assert(t.subrange(0, c2.len() as int)[0] == t[0]);
        assert(!starts_with(t, cs[0]));
    }
    assert(opt_text(initial_of(t)) + nucleus(t) + opt_text(final_of(t)) =~= t);
}

/// One syllable of a word, split into its parts.
#[derive(Debug, PartialEq, Eq)]
pub struct Syllable {
    raw: String,
    initial_consonant: Option<String>,
    vowel: Vowel,
    final_consonant: Option<String>,
}

impl View for Syllable {
    type V = Seq<char>;

    closed spec fn view(&self) -> Seq<char> {
        self.raw@
    }
}

impl Syllable {
    #[verifier::type_invariant]
    closed spec fn well_formed(self) -> bool {
        &&& is_syllable(self.raw@)
        &&& nucleus_fits(self.raw@)
        &&& opt_view(self.initial_consonant) == initial_of(self.raw@)
        &&& self.vowel@.raw == nucleus(self.raw@)
        &&& opt_view(self.final_consonant) == final_of(self.raw@)
    }

    /// Segments a token; `None` where it holds no vowel letter.
    pub fn new(raw: &str) -> (r: Option<Syllable>)
        requires
            nucleus_fits(raw@),
        ensures
            r is Some <==> is_syllable(raw@),
            r matches Some(s) ==> s@ == raw@,
    {
        let vr = find_runs(raw, CharClass::VowelLetter);
        if vr.len() == 0 {
            return None;
        }
        proof {
            lemma_runs_shape(raw@, CharClass::VowelLetter);
            lemma_runs_shape(raw@, CharClass::NonVowel);
        }
        let (a, b) = vr[0];
        let vtext = raw.substring_char(a, b);
        proof {
            let r0 = runs(raw@, CharClass::VowelLetter)[0];
            assert forall|i: int| 0 <= i < vtext@.len() implies is_vowel_letter(
                #[trigger] vtext@[i],
            ) by {
                assert(vtext@[i] == raw@[r0.0 + i]);
            }
            assert(is_cluster(vtext@));
        }
        let vowel = Vowel::new(vtext);
        let cr = find_runs(raw, CharClass::NonVowel);
        let ghost cs = run_texts(raw@, CharClass::NonVowel);
        let initial_consonant;
        let final_consonant;
        if cr.len() >= 2 {
            initial_consonant = Some(copy_range(raw, cr[0].0, cr[0].1));
            final_consonant = Some(copy_range(raw, cr[1].0, cr[1].1));
        } else if cr.len() == 1 {
            let c = copy_range(raw, cr[0].0, cr[0].1);
            assert(c@ == cs[0]);
            if text_starts_with(raw, c.as_str()) {
                initial_consonant = Some(c);
                final_consonant = None;
            } else {
                initial_consonant = None;
                final_consonant = Some(c);
            }
        } else {
            initial_consonant = None;
            final_consonant = None;
        }
        let full = copy_range(raw, 0, raw.unicode_len());
        assert(full@ =~= raw@);
        proof {
            if cr.len() >= 2 {
                assert(cs[0] == raw@.subrange(cr@[0].0 as int, cr@[0].1 as int));
                assert(cs[1] == raw@.subrange(cr@[1].0 as int, cr@[1].1 as int));
            }
        }
        Some(Syllable { raw: full, initial_consonant, vowel, final_consonant })
    }

    pub fn raw(&self) -> (r: &str)
        ensures
            r@ == self@,
            is_syllable(r@),
            nucleus_fits(r@),
    {
        proof { use_type_invariant(self); }
        self.raw.as_str()
    }

    pub fn initial_consonant(&self) -> (r: Option<&str>)
        ensures
            r matches Some(c) ==> initial_of(self@) == Some(c@),
            r is None ==> initial_of(self@) is None,
    {
        proof { use_type_invariant(self); }
        match &self.initial_consonant {
            Some(c) => Some(c.as_str()),
            None => None,
        }
    }

    pub fn vowel(&self) -> (r: &Vowel)
        ensures
            r@.raw == nucleus(self@),
    {
        proof { use_type_invariant(self); }
        &self.vowel
    }

    pub fn final_consonant(&self) -> (r: Option<&str>)
        ensures
            r matches Some(c) ==> final_of(self@) == Some(c@),
            r is None ==> final_of(self@) is None,
    {
        proof { use_type_invariant(self); }
        match &self.final_consonant {
            Some(c) => Some(c.as_str()),
            None => None,
        }
    }
}

} // verus!
