//! The catalog of named spelling alphabets.
//!
//! Every alphabet shares one digit-and-symbol table and overlays its own 26
//! letter code words; a few alphabets also replace some digit code words
//! (for example `3 -> Tree` under the NATO conventions).

use vstd::prelude::*;

use crate::table::CodeWordTable;

verus! {

/// A named spelling alphabet.
pub enum SpellingAlphabet {
    /// The Joint Army/Navy spelling alphabet.
    Jan,
    /// The LAPD (Los Angeles Police Department) spelling alphabet.
    Lapd,
    /// The NATO (North Atlantic Treaty Organization) spelling alphabet.
    /// This is the default.
    Nato,
    /// The Royal Navy spelling alphabet.
    RoyalNavy,
    /// The United States Financial Industry spelling alphabet.
    UsFinancial,
    /// The Western Union spelling alphabet.
    WesternUnion,
}

impl Default for SpellingAlphabet {
    fn default() -> (r: Self)
        ensures
            r == SpellingAlphabet::Nato,
    {
        SpellingAlphabet::Nato
    }
}

/// The shared digit and symbol code words, present in every alphabet.
pub open spec fn with_default_symbols(m: Map<char, Seq<char>>) -> Map<char, Seq<char>> {
    m.insert('0', "Zero"@).insert('1', "One"@).insert('2', "Two"@).insert('3', "Three"@).insert(
        '4',
        "Four"@,
    ).insert('5', "Five"@).insert('6', "Six"@).insert('7', "Seven"@).insert('8', "Eight"@).insert(
        '9',
        "Nine"@,
    ).insert(' ', "Space"@).insert('!', "Exclamation"@).insert('"', "DoubleQuote"@).insert(
        '#',
        "Hash"@,
    ).insert('$', "Dollars"@).insert('%', "Percent"@).insert('&', "Ampersand"@).insert(
        '\'',
        "SingleQuote"@,
    ).insert('(', "LeftParens"@).insert(')', "RightParens"@).insert('*', "Asterisk"@).insert(
        '+',
        "Plus"@,
    ).insert(',', "Comma"@).insert('-', "Dash"@).insert('.', "Period"@).insert(
        '/',
        "ForeSlash"@,
    ).insert(':', "Colon"@).insert(';', "SemiColon"@).insert('<', "LessThan"@).insert(
        '=',
        "Equals"@,
    ).insert('>', "GreaterThan"@).insert('?', "Question"@).insert('@', "At"@).insert(
        '[',
        "LeftBracket"@,
    ).insert('\\', "BackSlash"@).insert(']', "RightBracket"@).insert('^', "Caret"@).insert(
        '_',
        "Underscore"@,
    ).insert('`', "Backtick"@).insert('{', "LeftBrace"@).insert('|', "Pipe"@).insert(
        '}',
        "RightBrace"@,
    ).insert('~', "Tilde"@)
}

/// The Joint Army/Navy letter code words.
pub open spec fn with_jan_letters(m: Map<char, Seq<char>>) -> Map<char, Seq<char>> {
    m.insert('a', "Able"@).insert('b', "Baker"@).insert('c', "Charlie"@).insert(
        'd',
        "Dog"@,
    ).insert('e', "Easy"@).insert('f', "Fox"@).insert('g', "George"@).insert('h', "How"@).insert(
        'i',
        "Item"@,
    ).insert('j', "Jig"@).insert('k', "King"@).insert('l', "Love"@).insert('m', "Mike"@).insert(
        'n',
        "Nan"@,
    ).insert('o', "Oboe"@).insert('p', "Peter"@).insert('q', "Queen"@).insert(
        'r',
        "Roger"@,
    ).insert('s', "Sugar"@).insert('t', "Tare"@).insert('u', "Uncle"@).insert(
        'v',
        "Victor"@,
    ).insert('w', "William"@).insert('x', "X-ray"@).insert('y', "Yoke"@).insert('z', "Zebra"@)
}

/// The LAPD letter code words and its replaced digit.
pub open spec fn with_lapd_letters(m: Map<char, Seq<char>>) -> Map<char, Seq<char>> {
    m.insert('a', "Adam"@).insert('b', "Boy"@).insert('c', "Charles"@).insert(
        'd',
        "David"@,
    ).insert('e', "Edward"@).insert('f', "Frank"@).insert('g', "George"@).insert(
        'h',
        "Henry"@,
    ).insert('i', "Ida"@).insert('j', "John"@).insert('k', "King"@).insert(
        'l',
        "Lincoln"@,
    ).insert('m', "Mary"@).insert('n', "Nora"@).insert('o', "Ocean"@).insert('p', "Paul"@).insert(
        'q',
        "Queen"@,
    ).insert('r', "Robert"@).insert('s', "Sam"@).insert('t', "Tom"@).insert('u', "Union"@).insert(
        'v',
        "Victor"@,
    ).insert('w', "William"@).insert('x', "X-ray"@).insert('y', "Young"@).insert(
        'z',
        "Zebra"@,
    ).insert('9', "Niner"@)
}

/// The NATO letter code words and its replaced digits.
pub open spec fn with_nato_letters(m: Map<char, Seq<char>>) -> Map<char, Seq<char>> {
    m.insert('a', "Alfa"@).insert('b', "Bravo"@).insert('c', "Charlie"@).insert(
        'd',
        "Delta"@,
    ).insert('e', "Echo"@).insert('f', "Foxtrot"@).insert('g', "Golf"@).insert(
        'h',
        "Hotel"@,
    ).insert('i', "India"@).insert('j', "Juliett"@).insert('k', "Kilo"@).insert(
        'l',
        "Lima"@,
    ).insert('m', "Mike"@).insert('n', "November"@).insert('o', "Oscar"@).insert(
        'p',
        "Papa"@,
    ).insert('q', "Quebec"@).insert('r', "Romeo"@).insert('s', "Sierra"@).insert(
        't',
        "Tango"@,
    ).insert('u', "Uniform"@).insert('v', "Victor"@).insert('w', "Whiskey"@).insert(
        'x',
        "X-ray"@,
    ).insert('y', "Yankee"@).insert('z', "Zulu"@).insert('3', "Tree"@).insert(
        '4',
        "Fower"@,
    ).insert('5', "Fife"@).insert('9', "Niner"@)
}

/// The Royal Navy letter code words.
pub open spec fn with_royal_navy_letters(m: Map<char, Seq<char>>) -> Map<char, Seq<char>> {
    m.insert('a', "Apples"@).insert('b', "Butter"@).insert('c', "Charlie"@).insert(
        'd',
        "Duff"@,
    ).insert('e', "Edward"@).insert('f', "Freddy"@).insert('g', "George"@).insert(
        'h',
        "Harry"@,
    ).insert('i', "Ink"@).insert('j', "Johnnie"@).insert('k', "King"@).insert(
        'l',
        "London"@,
    ).insert('m', "Monkey"@).insert('n', "Nuts"@).insert('o', "Orange"@).insert(
        'p',
        "Pudding"@,
    ).insert('q', "Queenie"@).insert('r', "Robert"@).insert('s', "Sugar"@).insert(
        't',
        "Tommy"@,
    ).insert('u', "Uncle"@).insert('v', "Vinegar"@).insert('w', "Willie"@).insert(
        'x',
        "Xerxes"@,
    ).insert('y', "Yellow"@).insert('z', "Zebra"@)
}

/// The United States Financial Industry letter code words.
pub open spec fn with_us_financial_letters(m: Map<char, Seq<char>>) -> Map<char, Seq<char>> {
    m.insert('a', "Adam"@).insert('b', "Bob"@).insert('c', "Carol"@).insert('d', "David"@).insert(
        'e',
        "Eddie"@,
    ).insert('f', "Frank"@).insert('g', "George"@).insert('h', "Harry"@).insert(
        'i',
        "Ike"@,
    ).insert('j', "Jim"@).insert('k', "Kenny"@).insert('l', "Larry"@).insert('m', "Mary"@).insert(
        'n',
        "Nancy"@,
    ).insert('o', "Oliver"@).insert('p', "Peter"@).insert('q', "Quincy"@).insert(
        'r',
        "Roger"@,
    ).insert('s', "Sam"@).insert('t', "Thomas"@).insert('u', "Uncle"@).insert(
        'v',
        "Vincent"@,
    ).insert('w', "William"@).insert('x', "Xavier"@).insert('y', "Yogi"@).insert('z', "Zachary"@)
}

/// The Western Union letter code words.
pub open spec fn with_western_union_letters(m: Map<char, Seq<char>>) -> Map<char, Seq<char>> {
    m.insert('a', "Adams"@).insert('b', "Boston"@).insert('c', "Chicago"@).insert(
        'd',
        "Denver"@,
    ).insert('e', "Easy"@).insert('f', "Frank"@).insert('g', "George"@).insert(
        'h',
        "Henry"@,
    ).insert('i', "Ida"@).insert('j', "John"@).insert('k', "King"@).insert(
        'l',
        "Lincoln"@,
    ).insert('m', "Mary"@).insert('n', "NewYork"@).insert('o', "Ocean"@).insert(
        'p',
        "Peter"@,
    ).insert('q', "Queen"@).insert('r', "Roger"@).insert('s', "Sugar"@).insert(
        't',
        "Thomas"@,
    ).insert('u', "Union"@).insert('v', "Victor"@).insert('w', "William"@).insert(
        'x',
        "X-ray"@,
    ).insert('y', "Young"@).insert('z', "Zero"@)
}

/// The complete mapping an alphabet produces: the shared digit and symbol
/// table overlaid with the alphabet's own code words.
pub open spec fn alphabet_table(a: SpellingAlphabet) -> Map<char, Seq<char>> {
    match a {
        SpellingAlphabet::Jan => with_jan_letters(with_default_symbols(Map::empty())),
        SpellingAlphabet::Lapd => with_lapd_letters(with_default_symbols(Map::empty())),
        SpellingAlphabet::Nato => with_nato_letters(with_default_symbols(Map::empty())),
        SpellingAlphabet::RoyalNavy => with_royal_navy_letters(with_default_symbols(Map::empty())),
        SpellingAlphabet::UsFinancial => with_us_financial_letters(
            with_default_symbols(Map::empty()),
        ),
        SpellingAlphabet::WesternUnion => with_western_union_letters(
            with_default_symbols(Map::empty()),
        ),
    }
}

/// Stores the code word `w` for the character `k`.
fn put(t: &mut CodeWordTable, k: char, w: &str)
    ensures
        final(t)@ == old(t)@.insert(k, w@),
{
    t.insert(k, w.to_owned());
}

#[verifier::rlimit(100)]
fn add_default_symbols(t: &mut CodeWordTable)
    ensures
        final(t)@ == with_default_symbols(old(t)@),
{
    put(t, '0', "Zero");
    put(t, '1', "One");
    put(t, '2', "Two");
    put(t, '3', "Three");
    put(t, '4', "Four");
    put(t, '5', "Five");
    put(t, '6', "Six");
    put(t, '7', "Seven");
    put(t, '8', "Eight");
    put(t, '9', "Nine");
    put(t, ' ', "Space");
    put(t, '!', "Exclamation");
    put(t, '"', "DoubleQuote");
    put(t, '#', "Hash");
    put(t, '$', "Dollars");
    put(t, '%', "Percent");
    put(t, '&', "Ampersand");
    put(t, '\'', "SingleQuote");
    put(t, '(', "LeftParens");
    put(t, ')', "RightParens");
    put(t, '*', "Asterisk");
    put(t, '+', "Plus");
    put(t, ',', "Comma");
    put(t, '-', "Dash");
    put(t, '.', "Period");
    put(t, '/', "ForeSlash");
    put(t, ':', "Colon");
    put(t, ';', "SemiColon");
    put(t, '<', "LessThan");
    put(t, '=', "Equals");
    put(t, '>', "GreaterThan");
    put(t, '?', "Question");
    put(t, '@', "At");
    put(t, '[', "LeftBracket");
    put(t, '\\', "BackSlash");
    put(t, ']', "RightBracket");
    put(t, '^', "Caret");
    put(t, '_', "Underscore");
    put(t, '`', "Backtick");
    put(t, '{', "LeftBrace");
    put(t, '|', "Pipe");
    put(t, '}', "RightBrace");
    put(t, '~', "Tilde");
}

#[verifier::rlimit(100)]
fn add_jan_letters(t: &mut CodeWordTable)
    ensures
        final(t)@ == with_jan_letters(old(t)@),
{
    put(t, 'a', "Able");
    put(t, 'b', "Baker");
    put(t, 'c', "Charlie");
    put(t, 'd', "Dog");
    put(t, 'e', "Easy");
    put(t, 'f', "Fox");
    put(t, 'g', "George");
    put(t, 'h', "How");
    put(t, 'i', "Item");
    put(t, 'j', "Jig");
    put(t, 'k', "King");
    put(t, 'l', "Love");
    put(t, 'm', "Mike");
    put(t, 'n', "Nan");
    put(t, 'o', "Oboe");
    put(t, 'p', "Peter");
    put(t, 'q', "Queen");
    put(t, 'r', "Roger");
    put(t, 's', "Sugar");
    put(t, 't', "Tare");
    put(t, 'u', "Uncle");
    put(t, 'v', "Victor");
    put(t, 'w', "William");
    put(t, 'x', "X-ray");
    put(t, 'y', "Yoke");
    put(t, 'z', "Zebra");
}

#[verifier::rlimit(100)]
fn add_lapd_letters(t: &mut CodeWordTable)
    ensures
        final(t)@ == with_lapd_letters(old(t)@),
{
    put(t, 'a', "Adam");
    put(t, 'b', "Boy");
    put(t, 'c', "Charles");
    put(t, 'd', "David");
    put(t, 'e', "Edward");
    put(t, 'f', "Frank");
    put(t, 'g', "George");
    put(t, 'h', "Henry");
    put(t, 'i', "Ida");
    put(t, 'j', "John");
    put(t, 'k', "King");
    put(t, 'l', "Lincoln");
    put(t, 'm', "Mary");
    put(t, 'n', "Nora");
    put(t, 'o', "Ocean");
    put(t, 'p', "Paul");
    put(t, 'q', "Queen");
    put(t, 'r', "Robert");
    put(t, 's', "Sam");
    put(t, 't', "Tom");
    put(t, 'u', "Union");
    put(t, 'v', "Victor");
    put(t, 'w', "William");
    put(t, 'x', "X-ray");
    put(t, 'y', "Young");
    put(t, 'z', "Zebra");
    put(t, '9', "Niner");
}

#[verifier::rlimit(100)]
fn add_nato_letters(t: &mut CodeWordTable)
    ensures
        final(t)@ == with_nato_letters(old(t)@),
{
    put(t, 'a', "Alfa");
    put(t, 'b', "Bravo");
    put(t, 'c', "Charlie");
    put(t, 'd', "Delta");
    put(t, 'e', "Echo");
    put(t, 'f', "Foxtrot");
    put(t, 'g', "Golf");
    put(t, 'h', "Hotel");
    put(t, 'i', "India");
    put(t, 'j', "Juliett");
    put(t, 'k', "Kilo");
    put(t, 'l', "Lima");
    put(t, 'm', "Mike");
    put(t, 'n', "November");
    put(t, 'o', "Oscar");
    put(t, 'p', "Papa");
    put(t, 'q', "Quebec");
    put(t, 'r', "Romeo");
    put(t, 's', "Sierra");
    put(t, 't', "Tango");
    put(t, 'u', "Uniform");
    put(t, 'v', "Victor");
    put(t, 'w', "Whiskey");
    put(t, 'x', "X-ray");
    put(t, 'y', "Yankee");
    put(t, 'z', "Zulu");
    put(t, '3', "Tree");
    put(t, '4', "Fower");
    put(t, '5', "Fife");
    put(t, '9', "Niner");
}

#[verifier::rlimit(100)]
fn add_royal_navy_letters(t: &mut CodeWordTable)
    ensures
        final(t)@ == with_royal_navy_letters(old(t)@),
{
    put(t, 'a', "Apples");
    put(t, 'b', "Butter");
    put(t, 'c', "Charlie");
    put(t, 'd', "Duff");
    put(t, 'e', "Edward");
    put(t, 'f', "Freddy");
    put(t, 'g', "George");
    put(t, 'h', "Harry");
    put(t, 'i', "Ink");
    put(t, 'j', "Johnnie");
    put(t, 'k', "King");
    put(t, 'l', "London");
    put(t, 'm', "Monkey");
    put(t, 'n', "Nuts");
    put(t, 'o', "Orange");
    put(t, 'p', "Pudding");
    put(t, 'q', "Queenie");
    put(t, 'r', "Robert");
    put(t, 's', "Sugar");
    put(t, 't', "Tommy");
    put(t, 'u', "Uncle");
    put(t, 'v', "Vinegar");
    put(t, 'w', "Willie");
    put(t, 'x', "Xerxes");
    put(t, 'y', "Yellow");
    put(t, 'z', "Zebra");
}

#[verifier::rlimit(100)]
fn add_us_financial_letters(t: &mut CodeWordTable)
    ensures
        final(t)@ == with_us_financial_letters(old(t)@),
{
    put(t, 'a', "Adam");
    put(t, 'b', "Bob");
    put(t, 'c', "Carol");
    put(t, 'd', "David");
    put(t, 'e', "Eddie");
    put(t, 'f', "Frank");
    put(t, 'g', "George");
    put(t, 'h', "Harry");
    put(t, 'i', "Ike");
    put(t, 'j', "Jim");
    put(t, 'k', "Kenny");
    put(t, 'l', "Larry");
    put(t, 'm', "Mary");
    put(t, 'n', "Nancy");
    put(t, 'o', "Oliver");
    put(t, 'p', "Peter");
    put(t, 'q', "Quincy");
    put(t, 'r', "Roger");
    put(t, 's', "Sam");
    put(t, 't', "Thomas");
    put(t, 'u', "Uncle");
    put(t, 'v', "Vincent");
    put(t, 'w', "William");
    put(t, 'x', "Xavier");
    put(t, 'y', "Yogi");
    put(t, 'z', "Zachary");
}

#[verifier::rlimit(100)]
fn add_western_union_letters(t: &mut CodeWordTable)
    ensures
        final(t)@ == with_western_union_letters(old(t)@),
{
    put(t, 'a', "Adams");
    put(t, 'b', "Boston");
    put(t, 'c', "Chicago");
    put(t, 'd', "Denver");
    put(t, 'e', "Easy");
    put(t, 'f', "Frank");
    put(t, 'g', "George");
    put(t, 'h', "Henry");
    put(t, 'i', "Ida");
    put(t, 'j', "John");
    put(t, 'k', "King");
    put(t, 'l', "Lincoln");
    put(t, 'm', "Mary");
    put(t, 'n', "NewYork");
    put(t, 'o', "Ocean");
    put(t, 'p', "Peter");
    put(t, 'q', "Queen");
    put(t, 'r', "Roger");
    put(t, 's', "Sugar");
    put(t, 't', "Thomas");
    put(t, 'u', "Union");
    put(t, 'v', "Victor");
    put(t, 'w', "William");
    put(t, 'x', "X-ray");
    put(t, 'y', "Young");
    put(t, 'z', "Zero");
}

impl SpellingAlphabet {
    /// Generates the character to code word mapping for this alphabet.
    pub fn initialize(&self) -> (r: CodeWordTable)
        ensures
            r@ == alphabet_table(*self),
    {
        let mut t = CodeWordTable::new();
        add_default_symbols(&mut t);
        match self {
            SpellingAlphabet::Jan => add_jan_letters(&mut t),
            SpellingAlphabet::Lapd => add_lapd_letters(&mut t),
            SpellingAlphabet::Nato => add_nato_letters(&mut t),
            SpellingAlphabet::RoyalNavy => add_royal_navy_letters(&mut t),
            SpellingAlphabet::UsFinancial => add_us_financial_letters(&mut t),
            SpellingAlphabet::WesternUnion => add_western_union_letters(&mut t),
        }
        t
    }
}

} // verus!
