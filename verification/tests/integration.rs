use spellabet::{PhoneticConverter, SpellingAlphabet};

fn init_converter() -> PhoneticConverter {
    let alphabet = SpellingAlphabet::default();
    PhoneticConverter::new(&alphabet)
}

#[test]
fn test_lowercase_letters() {
    let converter = init_converter();
    assert_eq!(converter.convert("abc"), "alfa bravo charlie");
}

#[test]
fn test_uppercase_letters() {
    let converter = init_converter();
    assert_eq!(converter.convert("ABC"), "ALFA BRAVO CHARLIE");
}

#[test]
fn test_mixed_case_letters() {
    let converter = init_converter();
    assert_eq!(converter.convert("AbC"), "ALFA bravo CHARLIE");
}

#[test]
fn test_digits() {
    let converter = init_converter();
    assert_eq!(converter.convert("123"), "One Two Tree");
}

#[test]
fn test_symbols() {
    let converter = init_converter();
    assert_eq!(
        converter.convert("a.b,c!"),
        "alfa Period bravo Comma charlie Exclamation"
    );
}

#[test]
fn test_space_character() {
    let converter = init_converter();
    assert_eq!(converter.convert(" "), "Space");
}

#[test]
fn test_empty_string() {
    let converter = init_converter();
    assert_eq!(converter.convert(""), "");
}

#[test]
fn test_unknown_characters() {
    let converter = init_converter();
    assert_eq!(converter.convert("aΦb💩c"), "alfa Φ bravo 💩 charlie");
}

#[test]
fn test_mappings() {
    let converter = init_converter();
    let mappings = converter.mappings();

    // Check that mappings contain some expected entries
    assert_eq!(mappings.get('a').unwrap().as_str(), "Alfa");
    assert_eq!(mappings.get('z').unwrap().as_str(), "Zulu");
    assert_eq!(mappings.get('0').unwrap().as_str(), "Zero");
    assert_eq!(mappings.get('9').unwrap().as_str(), "Niner");
    assert_eq!(mappings.get(' ').unwrap().as_str(), "Space");
    assert_eq!(mappings.get('~').unwrap().as_str(), "Tilde");

    // Check that the size of mappings matches the expect size
    assert_eq!(mappings.len(), 69);
}

#[test]
fn test_nonce_form_false() {
    let converter = init_converter().nonce_form(false);
    assert_eq!(converter.convert("abc"), "alfa bravo charlie");
    assert_eq!(converter.convert("ABC"), "ALFA BRAVO CHARLIE");
    assert_eq!(converter.convert("AbC"), "ALFA bravo CHARLIE");
}

#[test]
fn test_nonce_form_true() {
    let converter = init_converter().nonce_form(true);
    assert_eq!(
        converter.convert("abc"),
        "'a' as in alfa, 'b' as in bravo, 'c' as in charlie"
    );
    assert_eq!(
        converter.convert("ABC"),
        "'A' as in ALFA, 'B' as in BRAVO, 'C' as in CHARLIE"
    );
    assert_eq!(
        converter.convert("AbC"),
        "'A' as in ALFA, 'b' as in bravo, 'C' as in CHARLIE"
    );
}

#[test]
fn test_nonce_form_single_char() {
    let converter = init_converter().nonce_form(true);
    assert_eq!(converter.convert("a"), "'a' as in alfa");
    assert_eq!(converter.convert("A"), "'A' as in ALFA");
    assert_eq!(converter.convert("b"), "'b' as in bravo");
    assert_eq!(converter.convert("B"), "'B' as in BRAVO");
    assert_eq!(converter.convert("c"), "'c' as in charlie");
    assert_eq!(converter.convert("C"), "'C' as in CHARLIE");
}

#[test]
fn test_nonce_form_digits() {
    let converter = init_converter().nonce_form(true);
    assert_eq!(converter.convert("123"), "One, Two, Tree");
}

#[test]
fn test_nonce_form_symbols() {
    let converter = init_converter().nonce_form(true);
    assert_eq!(
        converter.convert("a.b,c!"),
        "'a' as in alfa, Period, 'b' as in bravo, Comma, 'c' as in charlie, Exclamation"
    );
}

#[test]
fn test_without_overrides() {
    let converter = init_converter();
    assert_eq!(converter.convert("a"), "alfa");
    assert_eq!(converter.convert("A"), "ALFA");
    assert_eq!(converter.convert("b"), "bravo");
    assert_eq!(converter.convert("B"), "BRAVO");
    assert_eq!(converter.convert("c"), "charlie");
    assert_eq!(converter.convert("C"), "CHARLIE");
    assert_eq!(converter.convert("abc"), "alfa bravo charlie");
}

#[test]
fn test_with_overrides() {
    let mut converter = init_converter();
    let overrides_map = vec![('A', "Able".to_string()), ('B', "Baker".to_string())];

    converter = converter.with_overrides(overrides_map);

    // Check that overrides worked
    assert_eq!(converter.convert("a"), "able");
    assert_eq!(converter.convert("A"), "ABLE");
    assert_eq!(converter.convert("b"), "baker");
    assert_eq!(converter.convert("B"), "BAKER");

    // Check if non-overridden character is still using original conversion
    assert_eq!(converter.convert("c"), "charlie");
    assert_eq!(converter.convert("C"), "CHARLIE");
    assert_eq!(converter.convert("abc"), "able baker charlie");
}

#[test]
fn test_lowercase_key_in_overrides() {
    let mut converter = init_converter();
    let overrides_map = vec![('c', "Cain".to_string())];

    converter = converter.with_overrides(overrides_map);

    // Check that overrides map key was normalized
    assert_eq!(converter.convert("c"), "cain");
    assert_eq!(converter.convert("C"), "CAIN");
    assert_eq!(converter.convert("abc"), "alfa bravo cain");
}

#[test]
fn test_uppercase_key_in_overrides() {
    let mut converter = init_converter();
    let overrides_map = vec![('C', "Cain".to_string())];

    converter = converter.with_overrides(overrides_map);

    // Check that overrides map key was normalized
    assert_eq!(converter.convert("c"), "cain");
    assert_eq!(converter.convert("C"), "CAIN");
    assert_eq!(converter.convert("abc"), "alfa bravo cain");
}

#[test]
fn test_overrides_value_normalization() {
    let mut converter = init_converter();
    let overrides_map = vec![
        ('-', "hyphen".to_string()),
        ('/', "SLANT".to_string()),
        ('(', "brackets on".to_string()),
        (')', "bracketsOff".to_string()),
        ('!', "exclamation-mark".to_string()),
        ('?', "question_mark".to_string()),
    ];

    converter = converter.with_overrides(overrides_map);

    // Check that overrides map value was normalized
    assert_eq!(converter.convert("-"), "Hyphen");
    assert_eq!(converter.convert("/"), "Slant");
    assert_eq!(converter.convert("("), "BracketsOn");
    assert_eq!(converter.convert(")"), "BracketsOff");
    assert_eq!(converter.convert("!"), "ExclamationMark");
    assert_eq!(converter.convert("?"), "QuestionMark");
}

#[test]
fn test_dump_alphabet() {
    let converter = init_converter();
    let verbose = false;
    let output = converter.dump_alphabet(verbose);

    let expected = "a -> Alfa\n\
                    b -> Bravo\n\
                    c -> Charlie\n\
                    d -> Delta\n\
                    e -> Echo\n\
                    f -> Foxtrot\n\
                    g -> Golf\n\
                    h -> Hotel\n\
                    i -> India\n\
                    j -> Juliett\n\
                    k -> Kilo\n\
                    l -> Lima\n\
                    m -> Mike\n\
                    n -> November\n\
                    o -> Oscar\n\
                    p -> Papa\n\
                    q -> Quebec\n\
                    r -> Romeo\n\
                    s -> Sierra\n\
                    t -> Tango\n\
                    u -> Uniform\n\
                    v -> Victor\n\
                    w -> Whiskey\n\
                    x -> X-ray\n\
                    y -> Yankee\n\
                    z -> Zulu\n";
    assert_eq!(output, expected);
}

#[test]
fn test_dump_alphabet_verbose() {
    let converter = init_converter();
    let verbose = true;
    let output = converter.dump_alphabet(verbose);

    let expected = "a -> Alfa\n\
                    b -> Bravo\n\
                    c -> Charlie\n\
                    d -> Delta\n\
                    e -> Echo\n\
                    f -> Foxtrot\n\
                    g -> Golf\n\
                    h -> Hotel\n\
                    i -> India\n\
                    j -> Juliett\n\
                    k -> Kilo\n\
                    l -> Lima\n\
                    m -> Mike\n\
                    n -> November\n\
                    o -> Oscar\n\
                    p -> Papa\n\
                    q -> Quebec\n\
                    r -> Romeo\n\
                    s -> Sierra\n\
                    t -> Tango\n\
                    u -> Uniform\n\
                    v -> Victor\n\
                    w -> Whiskey\n\
                    x -> X-ray\n\
                    y -> Yankee\n\
                    z -> Zulu\n\
                    0 -> Zero\n\
                    1 -> One\n\
                    2 -> Two\n\
                    3 -> Tree\n\
                    4 -> Fower\n\
                    5 -> Fife\n\
                    6 -> Six\n\
                    7 -> Seven\n\
                    8 -> Eight\n\
                    9 -> Niner\n  \
                    -> Space\n\
                    ! -> Exclamation\n\
                    \" -> DoubleQuote\n\
                    # -> Hash\n\
                    $ -> Dollars\n\
                    % -> Percent\n\
                    & -> Ampersand\n\
                    ' -> SingleQuote\n\
                    ( -> LeftParens\n\
                    ) -> RightParens\n\
                    * -> Asterisk\n\
                    + -> Plus\n\
                    , -> Comma\n\
                    - -> Dash\n\
                    . -> Period\n\
                    / -> ForeSlash\n\
                    : -> Colon\n\
                    ; -> SemiColon\n\
                    < -> LessThan\n\
                    = -> Equals\n\
                    > -> GreaterThan\n\
                    ? -> Question\n\
                    @ -> At\n\
                    [ -> LeftBracket\n\
                    \\ -> BackSlash\n\
                    ] -> RightBracket\n\
                    ^ -> Caret\n\
                    _ -> Underscore\n\
                    ` -> Backtick\n\
                    { -> LeftBrace\n\
                    | -> Pipe\n\
                    } -> RightBrace\n\
                    ~ -> Tilde\n";
    assert_eq!(output, expected);
}

#[test]
fn test_jan_alphabet() {
    let alphabet = SpellingAlphabet::Jan;
    let converter = PhoneticConverter::new(&alphabet);

    assert_eq!(
        converter.convert("abc123xyz"),
        "able baker charlie One Two Three x-ray yoke zebra"
    );
}

#[test]
fn test_lapd_alphabet() {
    let alphabet = SpellingAlphabet::Lapd;
    let converter = PhoneticConverter::new(&alphabet);

    assert_eq!(
        converter.convert("abc123xyz"),
        "adam boy charles One Two Three x-ray young zebra"
    );

    // Check non-default digits
    assert_eq!(converter.convert("9"), "Niner");
}

#[test]
fn test_nato_alphabet() {
    let alphabet = SpellingAlphabet::Nato;
    let converter = PhoneticConverter::new(&alphabet);

    assert_eq!(
        converter.convert("abc123xyz"),
        "alfa bravo charlie One Two Tree x-ray yankee zulu"
    );

    // Check non-default digits
    assert_eq!(converter.convert("3"), "Tree");
    assert_eq!(converter.convert("4"), "Fower");
    assert_eq!(converter.convert("5"), "Fife");
    assert_eq!(converter.convert("9"), "Niner");
}

#[test]
fn test_royal_navy_alphabet() {
    let alphabet = SpellingAlphabet::RoyalNavy;
    let converter = PhoneticConverter::new(&alphabet);

    assert_eq!(
        converter.convert("abc123xyz"),
        "apples butter charlie One Two Three xerxes yellow zebra"
    );
}

#[test]
fn test_us_financial_alphabet() {
    let alphabet = SpellingAlphabet::UsFinancial;
    let converter = PhoneticConverter::new(&alphabet);

    assert_eq!(
        converter.convert("abc123xyz"),
        "adam bob carol One Two Three xavier yogi zachary"
    );
}

#[test]
fn test_western_union_alphabet() {
    let alphabet = SpellingAlphabet::WesternUnion;
    let converter = PhoneticConverter::new(&alphabet);

    assert_eq!(
        converter.convert("abc123xyz"),
        "adams boston chicago One Two Three x-ray young zero"
    );
}
