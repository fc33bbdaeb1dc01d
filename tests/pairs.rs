use vphone::{find_minimal_pairs, minimal_pairs, pair_delta, parse_kind, Delta, DeltaKind, Entry, Options, Syllable, WordDelta};

fn entry(line: &str) -> Entry {
    Entry::new(line).unwrap()
}

fn deltas(a: &Entry, b: &Entry) -> Vec<(usize, Delta)> {
    match Delta::from_word_pair(a, b) {
        WordDelta::Deltas(v) => v,
        WordDelta::LengthMismatch => panic!("length mismatch"),
    }
}

#[test]
fn syllable_deltas_in_axis_order() {
    let l = Syllable::new("phức").unwrap();
    let r = Syllable::new("tạp").unwrap();
    let ds = Delta::from_syllable_pair("phức", "tạp", &l, &r);
    let kinds: Vec<DeltaKind> = ds.iter().map(|d| d.kind).collect();
    assert_eq!(
        kinds,
        vec![DeltaKind::InitialConsonant, DeltaKind::Tone, DeltaKind::Vowel, DeltaKind::FinalConsonant]
    );
    assert_eq!(ds[0].isolated_left, "ph");
    assert_eq!(ds[0].isolated_right, "t");
    assert_eq!(ds[1].isolated_left, "rising");
    assert_eq!(ds[1].isolated_right, "low_broken");
    assert_eq!(ds[2].isolated_left, "ư");
    assert_eq!(ds[2].isolated_right, "a");
    assert_eq!(ds[3].isolated_left, "c");
    assert_eq!(ds[3].isolated_right, "p");
    assert_eq!(ds[0].left, "phức");
    assert_eq!(ds[0].right, "tạp");
}

#[test]
fn absent_consonant_compares_as_empty() {
    let l = Syllable::new("anh").unwrap();
    let r = Syllable::new("banh").unwrap();
    let ds = Delta::from_syllable_pair("anh", "banh", &l, &r);
    assert_eq!(ds.len(), 1);
    assert_eq!(ds[0].kind, DeltaKind::InitialConsonant);
    assert_eq!(ds[0].isolated_left, "");
    assert_eq!(ds[0].isolated_right, "b");
}

#[test]
fn word_deltas_are_tagged_with_syllable() {
    let a = entry("phức tạp : complicated");
    let b = entry("phúc tạp : happiness");
    let ds = deltas(&a, &b);
    assert_eq!(ds.len(), 1);
    assert_eq!(ds[0].0, 0);
    assert_eq!(ds[0].1.kind, DeltaKind::Vowel);
    assert_eq!(ds[0].1.isolated_left, "ư");
    assert_eq!(ds[0].1.isolated_right, "u");
}

#[test]
fn swapping_words_swaps_sides() {
    let a = entry("phức tạp : complicated");
    let b = entry("phục tập : restore");
    let ab = deltas(&a, &b);
    let ba = deltas(&b, &a);
    assert_eq!(ab.len(), 3);
    assert_eq!(ab.len(), ba.len());
    for ((i, d), (j, e)) in ab.iter().zip(ba.iter()) {
        assert_eq!(i, j);
        assert_eq!(d.kind, e.kind);
        assert_eq!(d.isolated_left, e.isolated_right);
        assert_eq!(d.isolated_right, e.isolated_left);
        assert_eq!(d.left, e.right);
        assert_eq!(d.right, e.left);
    }
}

#[test]
fn different_lengths_never_pair() {
    let a = entry("phức tạp : complicated");
    let b = entry("phức : complex");
    assert!(matches!(Delta::from_word_pair(&a, &b), WordDelta::LengthMismatch));
    assert!(pair_delta(&Options::default(), &a, &b).is_none());
}

#[test]
fn identical_words_have_no_delta() {
    let a = entry("phức tạp : complicated");
    let b = entry("phức tạp : intricate");
    assert!(deltas(&a, &b).is_empty());
    assert!(pair_delta(&Options::default(), &a, &b).is_none());
}

#[test]
fn tone_pair_on_filtered_syllable() {
    let words = vec![entry("má : mother"), entry("mà : but"), entry("mẹ : mom")];
    let options = Options {
        vowels: vec!["a".to_owned()],
        kind: DeltaKind::Tone,
        ..Default::default()
    };
    let pairs = find_minimal_pairs(&options, &words);
    let rows: Vec<(String, String)> = pairs.iter().map(|d| (d.left.clone(), d.right.clone())).collect();
    assert_eq!(
        rows,
        vec![("má".to_owned(), "mà".to_owned()), ("mà".to_owned(), "má".to_owned())]
    );
    assert_eq!(pairs[0].isolated_left, "rising");
    assert_eq!(pairs[0].isolated_right, "falling");
}

#[test]
fn pair_off_the_filtered_syllable_is_dropped() {
    // the only delta is the vowel of the first syllable, while the vowel
    // filter is met at the second one
    let words = vec![entry("phức tạp : complicated"), entry("phúc tạp : happiness")];
    let tone = Options {
        vowels: vec!["a".to_owned()],
        kind: DeltaKind::Tone,
        ..Default::default()
    };
    assert!(find_minimal_pairs(&tone, &words).is_empty());
    let vowel = Options {
        vowels: vec!["a".to_owned()],
        kind: DeltaKind::Vowel,
        ..Default::default()
    };
    assert!(find_minimal_pairs(&vowel, &words).is_empty());
}

#[test]
fn pair_on_first_syllable_without_filter() {
    let words = vec![entry("phức tạp : complicated"), entry("phúc tạp : happiness")];
    let vowel = Options {
        kind: DeltaKind::Vowel,
        ..Default::default()
    };
    let pairs = minimal_pairs(&vowel, &words);
    assert_eq!(pairs.len(), 2);
    assert_eq!(pairs[0].left, "phức tạp");
    assert_eq!(pairs[0].right, "phúc tạp");
    assert_eq!(pairs[1].left, "phúc tạp");
    assert_eq!(pairs[1].right, "phức tạp");
}

#[test]
fn wrong_kind_is_dropped() {
    let words = vec![entry("má : mother"), entry("mà : but")];
    let options = Options {
        kind: DeltaKind::Vowel,
        ..Default::default()
    };
    assert!(find_minimal_pairs(&options, &words).is_empty());
}

#[test]
fn two_differences_are_not_minimal() {
    let a = entry("má : mother");
    let b = entry("mờ : blurred");
    assert_eq!(deltas(&a, &b).len(), 2);
    assert!(pair_delta(&Options::default(), &a, &b).is_none());
}

#[test]
fn kind_names_and_parsing() {
    assert_eq!(DeltaKind::InitialConsonant.name(), "initial_consonant");
    assert_eq!(DeltaKind::FinalConsonant.name(), "final_consonant");
    assert_eq!(parse_kind("vowel"), Some(DeltaKind::Vowel));
    assert_eq!(parse_kind("tone"), Some(DeltaKind::Tone));
    assert_eq!(parse_kind("nasal"), None);
    assert_eq!("initial_consonant".parse::<DeltaKind>(), Ok(DeltaKind::InitialConsonant));
    assert!("x".parse::<DeltaKind>().is_err());
    assert_eq!(DeltaKind::default(), DeltaKind::Tone);
}
