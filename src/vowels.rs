//! Vietnamese vowel letters: the diacritic table, tones and vowel clusters.
use vstd::prelude::*;
use vstd::string::*;

use crate::text::text_eq;

verus! {

/// The six tones, ordered by how strongly their diacritic dominates
/// when a cluster carries more than one.
#[derive(Debug, PartialEq, Eq, Structural, PartialOrd, Ord, Clone, Copy, Hash)]
pub enum Tone {
    Flat,
    Rising,
    Falling,
    Question,
    Broken,
    LowBroken,
}

/// Position of a tone in the dominance order.
pub open spec fn tone_rank(t: Tone) -> nat {
    match t {
        Tone::Flat => 0,
        Tone::Rising => 1,
        Tone::Falling => 2,
        Tone::Question => 3,
        Tone::Broken => 4,
        Tone::LowBroken => 5,
    }
}

/// Of two tones, the one that dominates (the first on a tie).
pub open spec fn dominant(a: Tone, b: Tone) -> Tone {
    if tone_rank(b) > tone_rank(a) {
        b
    } else {
        a
    }
}

/// The name under which a tone is written in configurations and reports.
pub open spec fn tone_name(t: Tone) -> Seq<char> {
    match t {
        Tone::Flat => "flat"@,
        Tone::Rising => "rising"@,
        Tone::Falling => "falling"@,
        Tone::Question => "question"@,
        Tone::Broken => "broken"@,
        Tone::LowBroken => "low_broken"@,
    }
}

/// The diacritic table: for each precomposed vowel letter (either case),
/// the tone its diacritic marks and its lower-case base letter.
pub open spec fn letter_info(c: char) -> Option<(Tone, char)> {
    match c {
    'a' | 'A' => Some((Tone::Flat, 'a')),
    'á' | 'Á' => Some((Tone::Rising, 'a')),
    'à' | 'À' => Some((Tone::Falling, 'a')),
    'ả' | 'Ả' => Some((Tone::Question, 'a')),
    'ã' | 'Ã' => Some((Tone::Broken, 'a')),
    'ạ' | 'Ạ' => Some((Tone::LowBroken, 'a')),
    'ă' | 'Ă' => Some((Tone::Flat, 'ă')),
    'ắ' | 'Ắ' => Some((Tone::Rising, 'ă')),
    'ằ' | 'Ằ' => Some((Tone::Falling, 'ă')),
    'ẳ' | 'Ẳ' => Some((Tone::Question, 'ă')),
    'ẵ' | 'Ẵ' => Some((Tone::Broken, 'ă')),
    'ặ' | 'Ặ' => Some((Tone::LowBroken, 'ă')),
    'â' | 'Â' => Some((Tone::Flat, 'â')),
    'ấ' | 'Ấ' => Some((Tone::Rising, 'â')),
    'ầ' | 'Ầ' => Some((Tone::Falling, 'â')),
    'ẩ' | 'Ẩ' => Some((Tone::Question, 'â')),
    'ẫ' | 'Ẫ' => Some((Tone::Broken, 'â')),
    'ậ' | 'Ậ' => Some((Tone::LowBroken, 'â')),
    'e' | 'E' => Some((Tone::Flat, 'e')),
    'é' | 'É' => Some((Tone::Rising, 'e')),
    'è' | 'È' => Some((Tone::Falling, 'e')),
    'ẻ' | 'Ẻ' => Some((Tone::Question, 'e')),
    'ẽ' | 'Ẽ' => Some((Tone::Broken, 'e')),
    'ẹ' | 'Ẹ' => Some((Tone::LowBroken, 'e')),
    'ê' | 'Ê' => Some((Tone::Flat, 'ê')),
    'ế' | 'Ế' => Some((Tone::Rising, 'ê')),
    'ề' | 'Ề' => Some((Tone::Falling, 'ê')),
    'ể' | 'Ể' => Some((Tone::Question, 'ê')),
    'ễ' | 'Ễ' => Some((Tone::Broken, 'ê')),
    'ệ' | 'Ệ' => Some((Tone::LowBroken, 'ê')),
    'i' | 'I' => Some((Tone::Flat, 'i')),
    'í' | 'Í' => Some((Tone::Rising, 'i')),
    'ì' | 'Ì' => Some((Tone::Falling, 'i')),
    'ỉ' | 'Ỉ' => Some((Tone::Question, 'i')),
    'ĩ' | 'Ĩ' => Some((Tone::Broken, 'i')),
    'ị' | 'Ị' => Some((Tone::LowBroken, 'i')),
    'o' | 'O' => Some((Tone::Flat, 'o')),
    'ó' | 'Ó' => Some((Tone::Rising, 'o')),
    'ò' | 'Ò' => Some((Tone::Falling, 'o')),
    'ỏ' | 'Ỏ' => Some((Tone::Question, 'o')),
    'õ' | 'Õ' => Some((Tone::Broken, 'o')),
    'ọ' | 'Ọ' => Some((Tone::LowBroken, 'o')),
    'ô' | 'Ô' => Some((Tone::Flat, 'ô')),
    'ố' | 'Ố' => Some((Tone::Rising, 'ô')),
    'ồ' | 'Ồ' => Some((Tone::Falling, 'ô')),
    'ổ' | 'Ổ' => Some((Tone::Question, 'ô')),
    'ỗ' | 'Ỗ' => Some((Tone::Broken, 'ô')),
    'ộ' | 'Ộ' => Some((Tone::LowBroken, 'ô')),
    'ơ' | 'Ơ' => Some((Tone::Flat, 'ơ')),
    'ớ' | 'Ớ' => Some((Tone::Rising, 'ơ')),
    'ờ' | 'Ờ' => Some((Tone::Falling, 'ơ')),
    'ở' | 'Ở' => Some((Tone::Question, 'ơ')),
    'ỡ' | 'Ỡ' => Some((Tone::Broken, 'ơ')),
    'ợ' | 'Ợ' => Some((Tone::LowBroken, 'ơ')),
    'u' | 'U' => Some((Tone::Flat, 'u')),
    'ú' | 'Ú' => Some((Tone::Rising, 'u')),
    'ù' | 'Ù' => Some((Tone::Falling, 'u')),
    'ủ' | 'Ủ' => Some((Tone::Question, 'u')),
    'ũ' | 'Ũ' => Some((Tone::Broken, 'u')),
    'ụ' | 'Ụ' => Some((Tone::LowBroken, 'u')),
    'ư' | 'Ư' => Some((Tone::Flat, 'ư')),
    'ứ' | 'Ứ' => Some((Tone::Rising, 'ư')),
    'ừ' | 'Ừ' => Some((Tone::Falling, 'ư')),
    'ử' | 'Ử' => Some((Tone::Question, 'ư')),
    'ữ' | 'Ữ' => Some((Tone::Broken, 'ư')),
    'ự' | 'Ự' => Some((Tone::LowBroken, 'ư')),
    'y' | 'Y' => Some((Tone::Flat, 'y')),
    'ý' | 'Ý' => Some((Tone::Rising, 'y')),
    'ỳ' | 'Ỳ' => Some((Tone::Falling, 'y')),
    'ỷ' | 'Ỷ' => Some((Tone::Question, 'y')),
    'ỹ' | 'Ỹ' => Some((Tone::Broken, 'y')),
    'ỵ' | 'Ỵ' => Some((Tone::LowBroken, 'y')),
        _ => None,
    }
}

pub open spec fn is_vowel_letter(c: char) -> bool {
    letter_info(c) is Some
}

/// The tone marked on a vowel letter.
pub open spec fn letter_tone(c: char) -> Tone {
    letter_info(c)->Some_0.0
}

/// The vowel letter with its diacritic of tone removed, in lower case.
pub open spec fn letter_base(c: char) -> char {
    letter_info(c)->Some_0.1
}

/// A vowel cluster: one to three vowel letters.
pub open spec fn is_cluster(s: Seq<char>) -> bool {
    1 <= s.len() <= 3 && forall|i: int| 0 <= i < s.len() ==> is_vowel_letter(#[trigger] s[i])
}

/// The canonical identity of a cluster: each letter replaced by its base letter.
pub open spec fn strip(s: Seq<char>) -> Seq<char> {
    s.map_values(|c: char| letter_base(c))
}

/// The tone of a cluster: the dominant tone among its letters.
pub open spec fn cluster_tone(s: Seq<char>) -> Tone
    decreases s.len(),
{
    if s.len() == 0 {
        Tone::Flat
    } else {
        dominant(cluster_tone(s.drop_last()), letter_tone(s.last()))
    }
}

/// Two clusters whose letters differ only in the diacritics of tone they
/// carry (letter by letter the same base) have the same canonical identity.
pub proof fn lemma_normal_ignores_tone(s1: Seq<char>, s2: Seq<char>)
    requires
        s1.len() == s2.len(),
        forall|i: int|
            0 <= i < s1.len() ==> is_vowel_letter(#[trigger] s1[i]) && is_vowel_letter(s2[i])
                && letter_base(s1[i]) == letter_base(s2[i]),
    ensures
        strip(s1) == strip(s2),
{
    assert(strip(s1) =~= strip(s2));
}

/// Looks a letter up in the diacritic table.
pub fn tone_and_base(c: char) -> (r: Option<(Tone, char)>)
    ensures
        r == letter_info(c),
{
    match c {
        'a' | 'A' => Some((Tone::Flat, 'a')),
        'á' | 'Á' => Some((Tone::Rising, 'a')),
        'à' | 'À' => Some((Tone::Falling, 'a')),
        'ả' | 'Ả' => Some((Tone::Question, 'a')),
        'ã' | 'Ã' => Some((Tone::Broken, 'a')),
        'ạ' | 'Ạ' => Some((Tone::LowBroken, 'a')),
        'ă' | 'Ă' => Some((Tone::Flat, 'ă')),
        'ắ' | 'Ắ' => Some((Tone::Rising, 'ă')),
        'ằ' | 'Ằ' => Some((Tone::Falling, 'ă')),
        'ẳ' | 'Ẳ' => Some((Tone::Question, 'ă')),
        'ẵ' | 'Ẵ' => Some((Tone::Broken, 'ă')),
        'ặ' | 'Ặ' => Some((Tone::LowBroken, 'ă')),
        'â' | 'Â' => Some((Tone::Flat, 'â')),
        'ấ' | 'Ấ' => Some((Tone::Rising, 'â')),
        'ầ' | 'Ầ' => Some((Tone::Falling, 'â')),
        'ẩ' | 'Ẩ' => Some((Tone::Question, 'â')),
        'ẫ' | 'Ẫ' => Some((Tone::Broken, 'â')),
        'ậ' | 'Ậ' => Some((Tone::LowBroken, 'â')),
        'e' | 'E' => Some((Tone::Flat, 'e')),
        'é' | 'É' => Some((Tone::Rising, 'e')),
        'è' | 'È' => Some((Tone::Falling, 'e')),
        'ẻ' | 'Ẻ' => Some((Tone::Question, 'e')),
        'ẽ' | 'Ẽ' => Some((Tone::Broken, 'e')),
        'ẹ' | 'Ẹ' => Some((Tone::LowBroken, 'e')),
        'ê' | 'Ê' => Some((Tone::Flat, 'ê')),
        'ế' | 'Ế' => Some((Tone::Rising, 'ê')),
        'ề' | 'Ề' => Some((Tone::Falling, 'ê')),
        'ể' | 'Ể' => Some((Tone::Question, 'ê')),
        'ễ' | 'Ễ' => Some((Tone::Broken, 'ê')),
        'ệ' | 'Ệ' => Some((Tone::LowBroken, 'ê')),
        'i' | 'I' => Some((Tone::Flat, 'i')),
        'í' | 'Í' => Some((Tone::Rising, 'i')),
        'ì' | 'Ì' => Some((Tone::Falling, 'i')),
        'ỉ' | 'Ỉ' => Some((Tone::Question, 'i')),
        'ĩ' | 'Ĩ' => Some((Tone::Broken, 'i')),
        'ị' | 'Ị' => Some((Tone::LowBroken, 'i')),
        'o' | 'O' => Some((Tone::Flat, 'o')),
        'ó' | 'Ó' => Some((Tone::Rising, 'o')),
        'ò' | 'Ò' => Some((Tone::Falling, 'o')),
        'ỏ' | 'Ỏ' => Some((Tone::Question, 'o')),
        'õ' | 'Õ' => Some((Tone::Broken, 'o')),
        'ọ' | 'Ọ' => Some((Tone::LowBroken, 'o')),
        'ô' | 'Ô' => Some((Tone::Flat, 'ô')),
        'ố' | 'Ố' => Some((Tone::Rising, 'ô')),
        'ồ' | 'Ồ' => Some((Tone::Falling, 'ô')),
        'ổ' | 'Ổ' => Some((Tone::Question, 'ô')),
        'ỗ' | 'Ỗ' => Some((Tone::Broken, 'ô')),
        'ộ' | 'Ộ' => Some((Tone::LowBroken, 'ô')),
        'ơ' | 'Ơ' => Some((Tone::Flat, 'ơ')),
        'ớ' | 'Ớ' => Some((Tone::Rising, 'ơ')),
        'ờ' | 'Ờ' => Some((Tone::Falling, 'ơ')),
        'ở' | 'Ở' => Some((Tone::Question, 'ơ')),
        'ỡ' | 'Ỡ' => Some((Tone::Broken, 'ơ')),
        'ợ' | 'Ợ' => Some((Tone::LowBroken, 'ơ')),
        'u' | 'U' => Some((Tone::Flat, 'u')),
        'ú' | 'Ú' => Some((Tone::Rising, 'u')),
        'ù' | 'Ù' => Some((Tone::Falling, 'u')),
        'ủ' | 'Ủ' => Some((Tone::Question, 'u')),
        'ũ' | 'Ũ' => Some((Tone::Broken, 'u')),
        'ụ' | 'Ụ' => Some((Tone::LowBroken, 'u')),
        'ư' | 'Ư' => Some((Tone::Flat, 'ư')),
        'ứ' | 'Ứ' => Some((Tone::Rising, 'ư')),
        'ừ' | 'Ừ' => Some((Tone::Falling, 'ư')),
        'ử' | 'Ử' => Some((Tone::Question, 'ư')),
        'ữ' | 'Ữ' => Some((Tone::Broken, 'ư')),
        'ự' | 'Ự' => Some((Tone::LowBroken, 'ư')),
        'y' | 'Y' => Some((Tone::Flat, 'y')),
        'ý' | 'Ý' => Some((Tone::Rising, 'y')),
        'ỳ' | 'Ỳ' => Some((Tone::Falling, 'y')),
        'ỷ' | 'Ỷ' => Some((Tone::Question, 'y')),
        'ỹ' | 'Ỹ' => Some((Tone::Broken, 'y')),
        'ỵ' | 'Ỵ' => Some((Tone::LowBroken, 'y')),
        _ => None,
    }
}

pub fn is_vowel(c: char) -> (r: bool)
    ensures
        r == is_vowel_letter(c),
{
    tone_and_base(c).is_some()
}

/// The base letter of a vowel letter.
pub fn normalize_vowel(c: char) -> (r: char)
    requires
        is_vowel_letter(c),
    ensures
        r == letter_base(c),
{
    match tone_and_base(c) {
        Some(info) => info.1,
        None => c,
    }
}

impl Tone {
    /// Position of the tone in the dominance order.
    pub fn rank(self) -> (r: u8)
        ensures
            r as nat == tone_rank(self),
    {
        match self {
            Tone::Flat => 0,
            Tone::Rising => 1,
            Tone::Falling => 2,
            Tone::Question => 3,
            Tone::Broken => 4,
            Tone::LowBroken => 5,
        }
    }

    pub fn name(self) -> (r: &'static str)
        ensures
            r@ == tone_name(self),
    {
        match self {
            Tone::Flat => "flat",
            Tone::Rising => "rising",
            Tone::Falling => "falling",
            Tone::Question => "question",
            Tone::Broken => "broken",
            Tone::LowBroken => "low_broken",
        }
    }
}

/// The tone whose name is `s`, if any.
pub open spec fn tone_named(s: Seq<char>) -> Option<Tone> {
    if s == "flat"@ {
        Some(Tone::Flat)
    } else if s == "rising"@ {
        Some(Tone::Rising)
    } else if s == "falling"@ {
        Some(Tone::Falling)
    } else if s == "question"@ {
        Some(Tone::Question)
    } else if s == "broken"@ {
        Some(Tone::Broken)
    } else if s == "low_broken"@ {
        Some(Tone::LowBroken)
    } else {
        None
    }
}

/// Reads a tone from its name.
pub fn parse_tone(s: &str) -> (r: Option<Tone>)
    ensures
        r == tone_named(s@),
        r matches Some(t) ==> tone_name(t) == s@,
        r is None ==> forall|t: Tone| tone_name(t) != s@,
{
    proof {
        reveal_strlit("flat");
        reveal_strlit("rising");
        reveal_strlit("falling");
        reveal_strlit("question");
        reveal_strlit("broken");
        reveal_strlit("low_broken");
    }
    if text_eq(s, "flat") {
        Some(Tone::Flat)
    } else if text_eq(s, "rising") {
        Some(Tone::Rising)
    } else if text_eq(s, "falling") {
        Some(Tone::Falling)
    } else if text_eq(s, "question") {
        Some(Tone::Question)
    } else if text_eq(s, "broken") {
        Some(Tone::Broken)
    } else if text_eq(s, "low_broken") {
        Some(Tone::LowBroken)
    } else {
        proof {
            assert forall|t: Tone| tone_name(t) != s@ by {
                match t {
                    Tone::Flat => {},
                    Tone::Rising => {},
                    Tone::Falling => {},
                    Tone::Question => {},
                    Tone::Broken => {},
                    Tone::LowBroken => {},
                }
            }
        }
        None
    }
}

impl std::str::FromStr for Tone {
    type Err = String;

    fn from_str(maybe_tone: &str) -> (r: Result<Tone, String>)
        ensures
            r is Ok <==> tone_named(maybe_tone@) is Some,
            r matches Ok(t) ==> tone_named(maybe_tone@) == Some(t),
    {
        match parse_tone(maybe_tone) {
            Some(t) => Ok(t),
            None => Err(<String as StringExecFns>::from_str(
                "Unrecognized tone; available tones: 'flat' (a), 'rising' (á), 'falling' (à), 'question' (ả), 'broken' (ã), 'low_broken' (ạ)",
            )),
        }
    }
}

/// What a vowel is, abstractly: its letters as written and its tone.
pub ghost struct VowelView {
    pub raw: Seq<char>,
    pub tone: Tone,
}

/// The vowel nucleus of a syllable.
#[derive(Debug, PartialEq, Eq)]
pub struct Vowel {
    raw: String,
    tone: Tone,
}

impl View for Vowel {
    type V = VowelView;

    closed spec fn view(&self) -> VowelView {
        VowelView { raw: self.raw@, tone: self.tone }
    }
}

/// The dominant tone among the letters of a cluster.
fn tone_of_cluster(raw: &str) -> (r: Tone)
    requires
        is_cluster(raw@),
    ensures
        r == cluster_tone(raw@),
{
    let n = raw.unicode_len();
    let mut best = Tone::Flat;
    let mut i: usize = 0;
    while i < n
        invariant
            n == raw@.len(),
            i <= n,
            is_cluster(raw@),
            best == cluster_tone(raw@.subrange(0, i as int)),
        decreases n - i,
    {
        let c = raw.get_char(i);
        let t = match tone_and_base(c) {
            Some(info) => info.0,
            None => Tone::Flat,
        };
        proof {
            let next = raw@.subrange(0, i + 1);
            assert(next.drop_last() == raw@.subrange(0, i as int));
            assert(next.last() == c);
            assert(is_vowel_letter(raw@[i as int]));
        }
        if t.rank() > best.rank() {
            best = t;
        }
        i = i + 1;
    }
    assert(raw@.subrange(0, n as int) == raw@);
    best
}

impl Vowel {
    #[verifier::type_invariant]
    closed spec fn well_formed(self) -> bool {
        is_cluster(self.raw@) && self.tone == cluster_tone(self.raw@)
    }

    pub fn new(raw: &str) -> (r: Vowel)
        requires
            is_cluster(raw@),
        ensures
            r@.raw == raw@,
            r@.tone == cluster_tone(raw@),
    {
        let tone = tone_of_cluster(raw);
        Vowel { raw: <String as StringExecFns>::from_str(raw), tone }
    }

    pub fn raw(&self) -> (r: &str)
        ensures
            r@ == self@.raw,
            is_cluster(r@),
    {
        proof { use_type_invariant(self); }
        self.raw.as_str()
    }

    /// The canonical identity: the cluster with its diacritics of tone removed.
    pub fn normal(&self) -> (r: String)
        ensures
            r@ == strip(self@.raw),
    {
        proof { use_type_invariant(self); }
        let raw = self.raw.as_str();
        let n = raw.unicode_len();
        let mut out = String::new();
        let mut i: usize = 0;
        while i < n
            invariant
                n == raw@.len(),
                raw@ == self.raw@,
                is_cluster(raw@),
                i <= n,
                out@ == strip(raw@.subrange(0, i as int)),
            decreases n - i,
        {
            let c = raw.get_char(i);
            assert(is_vowel_letter(raw@[i as int]));
            out.push(normalize_vowel(c));
            assert(strip(raw@.subrange(0, i + 1)) == strip(raw@.subrange(0, i as int)).push(
                letter_base(c),
            ));
            i = i + 1;
        }
        assert(raw@.subrange(0, n as int) == raw@);
        out
    }

    pub fn tone(&self) -> (r: Tone)
        ensures
            r == self@.tone,
            r == cluster_tone(self@.raw),
    {
        proof { use_type_invariant(self); }
        self.tone
    }
}

} // verus!
