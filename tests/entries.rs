use vphone::{check_line, filter, load_entries, Entry, LineError, Options, Syllable};

fn entry(line: &str) -> Entry {
    Entry::new(line).unwrap()
}

#[test]
fn build_entry() {
    let entry = Entry::new("phức tạp : complicated").unwrap();
    let syllables: Vec<Syllable> = entry.syllables();

    assert_eq!(entry.raw(), "phức tạp");
    assert_eq!(syllables[0].raw(), "phức");
    assert_eq!(syllables[1].raw(), "tạp");
}

#[test]
fn filter_works() {
    let entry = Entry::new("phức tạp : complicated").unwrap();
    let words = vec![entry];

    assert_eq!(
        filter(
            &Options {
                vowels: vec!["e".to_owned()],
                ..Default::default()
            },
            &words
        ),
        vec![]
    );
}

#[test]
fn filter_preserves() {
    let entry = Entry::new("phức tạp : complicated").unwrap();
    let words = vec![entry];

    let kept = filter(
        &Options {
            vowels: vec!["a".to_owned()],
            ..Default::default()
        },
        &words,
    );
    assert_eq!(kept.len(), 1);
    assert_eq!(kept[0].raw(), "phức tạp");
}

#[test]
fn entry_without_syllable_is_dropped() {
    assert!(Entry::new("bcd : no vowel here").is_none());
}

#[test]
fn headword_stops_at_first_separator() {
    let e = entry("má : mother : also mom");
    assert_eq!(e.raw(), "má");
}

#[test]
fn tokens_split_on_any_white_space() {
    let e = entry("  phức \t tạp  : complicated");
    let raws: Vec<String> = e.syllables().iter().map(|s| s.raw().to_owned()).collect();
    assert_eq!(raws, vec!["phức".to_owned(), "tạp".to_owned()]);
}

#[test]
fn tokens_without_vowel_are_skipped() {
    let e = entry("x phở : soup");
    let syllables = e.syllables();
    assert_eq!(syllables.len(), 1);
    assert_eq!(syllables[0].raw(), "phở");
}

#[test]
fn line_without_separator_is_refused() {
    assert_eq!(check_line("phức tạp complicated"), Err(LineError::MissingSeparator));
    assert_eq!(check_line("phức tạp:complicated"), Err(LineError::MissingSeparator));
}

#[test]
fn overlong_cluster_is_refused() {
    assert_eq!(check_line("baaaa : nonsense"), Err(LineError::MalformedCluster));
    assert_eq!(check_line("phức tạp : complicated"), Ok(()));
    assert_eq!(check_line("khuỷu : elbow"), Ok(()));
}

#[test]
fn load_keeps_only_entries_with_syllables() {
    let lines = vec![
        "phức tạp : complicated".to_owned(),
        "bcd : nothing".to_owned(),
        "má : mother".to_owned(),
    ];
    let entries = load_entries(&lines).unwrap();
    let raws: Vec<&str> = entries.iter().map(|e| e.raw()).collect();
    assert_eq!(raws, vec!["phức tạp", "má"]);
}

#[test]
fn load_stops_at_a_refused_line() {
    let lines = vec!["má : mother".to_owned(), "no separator".to_owned()];
    assert_eq!(load_entries(&lines).err(), Some(LineError::MissingSeparator));
}

#[test]
fn filter_twice_gives_the_same() {
    let words = vec![
        entry("phức tạp : complicated"),
        entry("mẹ : mother"),
        entry("má : mother"),
        entry("tập : practise"),
    ];
    let options = Options {
        vowels: vec!["a".to_owned(), "â".to_owned()],
        ..Default::default()
    };
    let once = filter(&options, &words);
    let again = filter(&options, &words);
    let twice = filter(&options, &once);
    let raws = |v: &Vec<Entry>| v.iter().map(|e| e.raw().to_owned()).collect::<Vec<_>>();
    assert_eq!(raws(&once), vec!["phức tạp", "má", "tập"]);
    assert_eq!(raws(&once), raws(&again));
    assert_eq!(raws(&once), raws(&twice));
}

#[test]
fn filter_wants_agreeing_positions() {
    let words = vec![entry("phức tạp : complicated")];
    // vowel "a" first matches at 1, initial "ph" first matches at 0
    let options = Options {
        vowels: vec!["a".to_owned()],
        initial_consonants: vec!["ph".to_owned()],
        ..Default::default()
    };
    assert!(filter(&options, &words).is_empty());
    let options = Options {
        vowels: vec!["a".to_owned()],
        initial_consonants: vec!["t".to_owned()],
        final_consonants: vec!["p".to_owned()],
        tones: vec![vphone::Tone::LowBroken],
        ..Default::default()
    };
    assert_eq!(filter(&options, &words).len(), 1);
}

#[test]
fn filter_without_constraints_keeps_all() {
    let words = vec![entry("phức tạp : complicated"), entry("má : mother")];
    assert_eq!(filter(&Options::default(), &words).len(), 2);
}

#[test]
fn filter_on_missing_tone_drops() {
    let words = vec![entry("má : mother")];
    let options = Options {
        tones: vec![vphone::Tone::Falling],
        ..Default::default()
    };
    assert!(filter(&options, &words).is_empty());
}

#[test]
fn load_reports_first_refusal_reason() {
    let lines = vec![
        "má : mother".to_owned(),
        "baaaa : nonsense".to_owned(),
        "no separator".to_owned(),
    ];
    assert_eq!(load_entries(&lines).err(), Some(LineError::MalformedCluster));
}
