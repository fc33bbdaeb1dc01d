use vphone::{is_vowel, normalize_vowel, parse_tone, Syllable, Tone, Vowel};

fn parts(token: &str) -> (Option<String>, String, Option<String>) {
    let s = Syllable::new(token).unwrap();
    (
        s.initial_consonant().map(|c| c.to_owned()),
        s.vowel().raw().to_owned(),
        s.final_consonant().map(|c| c.to_owned()),
    )
}

#[test]
fn segments_initial_vowel_final() {
    assert_eq!(parts("phức"), (Some("ph".to_owned()), "ứ".to_owned(), Some("c".to_owned())));
    assert_eq!(parts("nghiêng"), (Some("ngh".to_owned()), "iê".to_owned(), Some("ng".to_owned())));
}

#[test]
fn lone_consonant_before_vowel_is_initial() {
    assert_eq!(parts("mẹ"), (Some("m".to_owned()), "ẹ".to_owned(), None));
}

#[test]
fn lone_consonant_after_vowel_is_final() {
    assert_eq!(parts("anh"), (None, "a".to_owned(), Some("nh".to_owned())));
}

#[test]
fn pure_vowel_syllable() {
    assert_eq!(parts("ưa"), (None, "ưa".to_owned(), None));
}

#[test]
fn token_without_vowel_is_no_syllable() {
    assert!(Syllable::new("bcd").is_none());
    assert!(Syllable::new("").is_none());
}

#[test]
fn segment_then_join_gives_token_back() {
    for token in ["phức", "tạp", "anh", "ưa", "mẹ", "nghiêng", "khuỷu", "Đường"] {
        let s = Syllable::new(token).unwrap();
        let joined = format!(
            "{}{}{}",
            s.initial_consonant().unwrap_or(""),
            s.vowel().raw(),
            s.final_consonant().unwrap_or("")
        );
        assert_eq!(joined, token);
    }
}

#[test]
fn vowel_letters() {
    assert!(is_vowel('a'));
    assert!(is_vowel('Ữ'));
    assert!(is_vowel('y'));
    assert!(!is_vowel('đ'));
    assert!(!is_vowel('b'));
    assert!(!is_vowel(' '));
}

#[test]
fn base_letters() {
    assert_eq!(normalize_vowel('ặ'), 'ă');
    assert_eq!(normalize_vowel('Ặ'), 'ă');
    assert_eq!(normalize_vowel('ữ'), 'ư');
    assert_eq!(normalize_vowel('e'), 'e');
}

#[test]
fn normal_ignores_tone() {
    for v in ["a", "á", "à", "ả", "ã", "ạ"] {
        assert_eq!(Vowel::new(v).normal(), "a");
    }
    for v in ["ươ", "ướ", "ườ", "ưở", "ưỡ", "ượ"] {
        assert_eq!(Vowel::new(v).normal(), "ươ");
    }
    assert_eq!(Vowel::new("OÁ").normal(), "oa");
}

#[test]
fn cluster_tone_is_dominant_letter_tone() {
    assert_eq!(Vowel::new("ươ").tone(), Tone::Flat);
    assert_eq!(Vowel::new("ượ").tone(), Tone::LowBroken);
    assert_eq!(Vowel::new("oà").tone(), Tone::Falling);
    assert_eq!(Vowel::new("áạ").tone(), Tone::LowBroken);
    assert_eq!(Vowel::new("ảá").tone(), Tone::Question);
}

#[test]
fn vowel_keeps_raw() {
    assert_eq!(Vowel::new("ướ").raw(), "ướ");
}

#[test]
fn tone_names() {
    assert_eq!(Tone::Flat.name(), "flat");
    assert_eq!(Tone::Rising.name(), "rising");
    assert_eq!(Tone::Falling.name(), "falling");
    assert_eq!(Tone::Question.name(), "question");
    assert_eq!(Tone::Broken.name(), "broken");
    assert_eq!(Tone::LowBroken.name(), "low_broken");
}

#[test]
fn tone_parsing() {
    assert_eq!(parse_tone("low_broken"), Some(Tone::LowBroken));
    assert_eq!(parse_tone("flat"), Some(Tone::Flat));
    assert_eq!(parse_tone("sharp"), None);
    assert_eq!("question".parse::<Tone>(), Ok(Tone::Question));
    assert!("Flat".parse::<Tone>().unwrap_err().contains("available tones"));
}

#[test]
fn tone_order() {
    assert!(Tone::Flat < Tone::Rising);
    assert!(Tone::Broken < Tone::LowBroken);
    assert_eq!(Tone::LowBroken.rank(), 5);
}
