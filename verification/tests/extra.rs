use spellabet::{
    Alphabet, Cli, OverrideError, PhoneticConverter, SpellingAlphabet, to_relative_paths,
};

#[test]
fn verify_cli() {
    // the command-line surface starts from its documented defaults
    let cli = Cli::default();
    assert!(matches!(cli.alphabet, Alphabet::Nato));
    assert!(cli.overrides.is_none());
    assert!(!cli.dump_alphabet);
    assert!(!cli.nonce_form);
    assert!(!cli.verbose);
    assert!(cli.input.is_empty());
    assert!(cli.generate.is_none());
    assert!(matches!(
        Alphabet::default().to_spelling_alphabet(),
        SpellingAlphabet::Nato
    ));
}

#[test]
fn test_convert_hello() {
    let converter = PhoneticConverter::new(&SpellingAlphabet::Nato);
    assert_eq!(converter.convert("Hello"), "HOTEL echo lima lima oscar");
}

#[test]
fn test_convert_example_sentence() {
    let converter = PhoneticConverter::new(&SpellingAlphabet::Nato);
    assert_eq!(
        converter.convert("Example123!"),
        "ECHO x-ray alfa mike papa lima echo One Two Tree Exclamation"
    );
}

#[test]
fn test_override_then_convert() {
    let converter = PhoneticConverter::new(&SpellingAlphabet::Nato)
        .with_overrides(vec![('a', "Apple".to_string())]);
    assert_eq!(converter.convert("a"), "apple");
}

#[test]
fn test_dump_includes_letters_excludes_digits() {
    let converter = PhoneticConverter::new(&SpellingAlphabet::Nato);
    let output = converter.dump_alphabet(false);
    assert!(output.lines().any(|line| line == "a -> Alfa"));
    assert!(!output.lines().any(|line| line.starts_with('0')));
}

#[test]
fn test_dump_twice_is_identical() {
    let converter = PhoneticConverter::new(&SpellingAlphabet::Lapd);
    let first = converter.dump_alphabet(true);
    let second = converter.dump_alphabet(true);
    assert_eq!(first, second);
    let first_letters = converter.dump_alphabet(false);
    let second_letters = converter.dump_alphabet(false);
    assert_eq!(first_letters, second_letters);
}

#[test]
fn test_convert_never_shortens() {
    let converter = PhoneticConverter::new(&SpellingAlphabet::Nato);
    for text in ["Hello, World!", "aΦb💩c", " ", "~", "x"] {
        let out = converter.convert(text);
        assert!(out.chars().count() >= text.chars().count());
    }
    assert_eq!(converter.convert(""), "");
}

#[test]
fn test_overrides_same_slot_for_both_cases() {
    // an uppercase key and a lowercase key address the same mapping slot
    let base = PhoneticConverter::new(&SpellingAlphabet::Nato);
    let upper = base.with_overrides(vec![('A', "Apple".to_string())]);
    assert_eq!(upper.convert("a"), "apple");
    assert_eq!(upper.convert("A"), "APPLE");
    let lower = PhoneticConverter::new(&SpellingAlphabet::Nato)
        .with_overrides(vec![('a', "Apple".to_string())]);
    assert_eq!(lower.convert("a"), "apple");
    assert_eq!(lower.convert("A"), "APPLE");
}

#[test]
fn test_later_override_wins() {
    let converter = PhoneticConverter::new(&SpellingAlphabet::Nato)
        .with_overrides(vec![('a', "Apple".to_string()), ('A', "Apricot".to_string())]);
    assert_eq!(converter.convert("a"), "apricot");
}

#[test]
fn test_parse_overrides_ok() {
    let parsed = spellabet::parse_overrides("a=apple,b=banana").unwrap();
    assert_eq!(parsed.len(), 2);
    assert_eq!(parsed[0].0, 'a');
    assert_eq!(parsed[0].1, "apple");
    assert_eq!(parsed[1].0, 'b');
    assert_eq!(parsed[1].1, "banana");
}

#[test]
fn test_parse_overrides_missing_equals() {
    let err = spellabet::parse_overrides("apple").unwrap_err();
    assert_eq!(err, OverrideError::MissingEquals("apple".to_string()));
}

#[test]
fn test_parse_overrides_extra_equals() {
    let err = spellabet::parse_overrides("a=b=c").unwrap_err();
    assert_eq!(err, OverrideError::ExtraEquals("a=b=c".to_string()));
}

#[test]
fn test_parse_overrides_key_not_single_char() {
    let err = spellabet::parse_overrides("ab=c").unwrap_err();
    assert_eq!(err, OverrideError::KeyNotSingleChar("ab=c".to_string()));
    let err = spellabet::parse_overrides("=c").unwrap_err();
    assert_eq!(err, OverrideError::KeyNotSingleChar("=c".to_string()));
}

#[test]
fn test_parse_overrides_empty_value() {
    let err = spellabet::parse_overrides("a=").unwrap_err();
    assert_eq!(err, OverrideError::EmptyValue("a=".to_string()));
}

#[test]
fn test_parse_overrides_first_error_wins() {
    let err = spellabet::parse_overrides("a=apple,oops,b=").unwrap_err();
    assert_eq!(err, OverrideError::MissingEquals("oops".to_string()));
}

#[test]
fn test_parse_overrides_empty_input() {
    let err = spellabet::parse_overrides("").unwrap_err();
    assert_eq!(err, OverrideError::MissingEquals(String::new()));
}

fn path(components: &[&str]) -> Vec<String> {
    components.iter().map(|c| c.to_string()).collect()
}

#[test]
fn test_to_relative_paths_strips_base() {
    let base = path(&["home", "docs"]);
    let paths = vec![
        path(&["home", "docs", "notes.md"]),
        path(&["home", "music", "song.md"]),
        path(&["home", "docs", "work", "plan.md"]),
    ];
    let rel = to_relative_paths(paths, &base);
    assert_eq!(rel.len(), 2);
    assert_eq!(rel[0], path(&["notes.md"]));
    assert_eq!(rel[1], path(&["work", "plan.md"]));
}

#[test]
fn test_to_relative_paths_empty_base_keeps_all() {
    let base = path(&[]);
    let paths = vec![path(&["a"]), path(&["b", "c"])];
    let rel = to_relative_paths(paths.clone(), &base);
    assert_eq!(rel, paths);
}
