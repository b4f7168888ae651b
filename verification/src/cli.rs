//! The command-line surface as plain data, and the parser for override
//! lists given as `key=value` pairs separated by commas.

use vstd::prelude::*;
use vstd::string::{StrSliceExecFns, StringExecFns};

use crate::chars::push_char;
use crate::code_words::SpellingAlphabet;

verus! {

/// Which spelling alphabet a command line selects.
pub enum Alphabet {
    /// Joint Army/Navy
    Jan,
    /// Los Angeles Police Department
    Lapd,
    /// North Atlantic Treaty Organization
    Nato,
    /// Royal Navy
    RoyalNavy,
    /// United States Financial Industry
    UsFinancial,
    /// Western Union
    WesternUnion,
}

/// The spelling alphabet a command-line choice stands for.
pub open spec fn spelling_alphabet_of(a: Alphabet) -> SpellingAlphabet {
    match a {
        Alphabet::Jan => SpellingAlphabet::Jan,
        Alphabet::Lapd => SpellingAlphabet::Lapd,
        Alphabet::Nato => SpellingAlphabet::Nato,
        Alphabet::RoyalNavy => SpellingAlphabet::RoyalNavy,
        Alphabet::UsFinancial => SpellingAlphabet::UsFinancial,
        Alphabet::WesternUnion => SpellingAlphabet::WesternUnion,
    }
}

impl Alphabet {
    /// The spelling alphabet this choice stands for.
    pub fn to_spelling_alphabet(&self) -> (r: SpellingAlphabet)
        ensures
            r == spelling_alphabet_of(*self),
    {
        match self {
            Alphabet::Jan => SpellingAlphabet::Jan,
            Alphabet::Lapd => SpellingAlphabet::Lapd,
            Alphabet::Nato => SpellingAlphabet::Nato,
            Alphabet::RoyalNavy => SpellingAlphabet::RoyalNavy,
            Alphabet::UsFinancial => SpellingAlphabet::UsFinancial,
            Alphabet::WesternUnion => SpellingAlphabet::WesternUnion,
        }
    }
}

impl Default for Alphabet {
    fn default() -> (r: Self)
        ensures
            r == Alphabet::Nato,
    {
        Alphabet::Nato
    }
}

/// An auxiliary asset file the program can generate.
pub enum Asset {
    /// Manual page in ROFF format
    ManPage,
    /// Completions file for Bash shell
    Bash,
    /// Completions file for Elvish shell
    Elvish,
    /// Completions file for Fish shell
    Fish,
    /// Completions file for PowerShell
    Powershell,
    /// Completions file for Z shell
    Zsh,
}

/// The options a command line can carry, as plain values.
pub struct Cli {
    /// Which spelling alphabet to use for the conversion.
    pub alphabet: Alphabet,
    /// A comma-separated list of `character=word` override pairs.
    pub overrides: Option<String>,
    /// Display the spelling alphabet and exit.
    pub dump_alphabet: bool,
    /// Expand output into nonce form like `'A' as in ALFA`.
    pub nonce_form: bool,
    /// Include the input characters along with each line's output.
    pub verbose: bool,
    /// The input character strings to convert into code words.
    pub input: Vec<String>,
    /// Generate an auxiliary asset file instead of converting.
    pub generate: Option<Asset>,
}

impl Default for Cli {
    fn default() -> (r: Self)
        ensures
            r.alphabet == Alphabet::Nato,
            r.overrides is None,
            !r.dump_alphabet,
            !r.nonce_form,
            !r.verbose,
            r.input@.len() == 0,
            r.generate is None,
    {
        Cli {
            alphabet: Alphabet::Nato,
            overrides: None,
            dump_alphabet: false,
            nonce_form: false,
            verbose: false,
            input: Vec::new(),
            generate: None,
        }
    }
}

/// A reason an override list is rejected; each holds the offending
/// `key=value` segment.
#[derive(Debug, PartialEq, Eq)]
pub enum OverrideError {
    /// The segment holds no `=` at all.
    MissingEquals(String),
    /// The segment holds more than one `=`.
    ExtraEquals(String),
    /// What stands before the `=` is not exactly one character.
    KeyNotSingleChar(String),
    /// Nothing stands after the `=`.
    EmptyValue(String),
}

/// The segments of `s` between occurrences of `sep`: always one more
/// segment than separators, so an empty text has one empty segment.
pub open spec fn split_on(s: Seq<char>, sep: char) -> Seq<Seq<char>>
    decreases s.len(),
{
    if s.len() == 0 {
        seq![Seq::<char>::empty()]
    } else if s[0] == sep {
        seq![Seq::<char>::empty()] + split_on(s.drop_first(), sep)
    } else {
        let rest = split_on(s.drop_first(), sep);
        seq![seq![s[0]] + rest[0]] + rest.drop_first()
    }
}

proof fn lemma_split_len(s: Seq<char>, sep: char)
    ensures
        split_on(s, sep).len() >= 1,
    decreases s.len(),
{
    if s.len() > 0 {
        lemma_split_len(s.drop_first(), sep);
    }
}

proof fn lemma_split_push(s: Seq<char>, sep: char, c: char)
    ensures
        c == sep ==> split_on(s.push(c), sep) == split_on(s, sep).push(Seq::<char>::empty()),
        c != sep ==> split_on(s.push(c), sep) == split_on(s, sep).update(
            split_on(s, sep).len() - 1,
            split_on(s, sep).last().push(c),
        ),
    decreases s.len(),
{
    lemma_split_len(s, sep);
    if s.len() == 0 {
        let t = s.push(c);
        assert(t.len() == 1 && t[0] == c);
        assert(t.drop_first() =~= Seq::<char>::empty());
        assert(s =~= Seq::<char>::empty());
        assert(split_on(Seq::<char>::empty(), sep) == seq![Seq::<char>::empty()]);
        if c == sep {
            assert(split_on(t, sep) == seq![Seq::<char>::empty()] + split_on(
                t.drop_first(),
                sep,
            ));
            assert(split_on(t, sep) =~~= split_on(s, sep).push(Seq::<char>::empty()));
        } else {
            let r = split_on(t.drop_first(), sep);
            assert(r == seq![Seq::<char>::empty()]);
            assert(split_on(t, sep) == seq![seq![t[0]] + r[0]] + r.drop_first());
            assert(seq![t[0]] + r[0] =~= seq![c]);
            assert(split_on(s, sep).last() == Seq::<char>::empty());
            assert(split_on(s, sep).last().push(c) =~= seq![c]);
            assert(split_on(t, sep) =~~= split_on(s, sep).update(
                0,
                split_on(s, sep).last().push(c),
            ));
        }
    } else {
        lemma_split_push(s.drop_first(), sep, c);
        lemma_split_len(s.drop_first(), sep);
        let t = s.push(c);
        assert(t[0] == s[0]);
        assert(t.drop_first() =~= s.drop_first().push(c));
        let r = split_on(s.drop_first(), sep);
        let r2 = split_on(s.drop_first().push(c), sep);
        if s[0] == sep {
            assert(split_on(s, sep) == seq![Seq::<char>::empty()] + r);
            assert(split_on(t, sep) == seq![Seq::<char>::empty()] + r2);
            if c == sep {
                assert(seq![Seq::<char>::empty()] + r.push(Seq::<char>::empty()) =~= (
                seq![Seq::<char>::empty()] + r).push(Seq::<char>::empty()));
            } else {
                assert((seq![Seq::<char>::empty()] + r).last() == r.last());
                assert(seq![Seq::<char>::empty()] + r.update(r.len() - 1, r.last().push(c)) =~= (
                seq![Seq::<char>::empty()] + r).update(
                    (seq![Seq::<char>::empty()] + r).len() - 1,
                    r.last().push(c),
                ));
            }
        } else {
            assert(split_on(s, sep) == seq![seq![s[0]] + r[0]] + r.drop_first());
            assert(split_on(t, sep) == seq![seq![t[0]] + r2[0]] + r2.drop_first());
            if c == sep {
                assert(r2 == r.push(Seq::<char>::empty()));
                assert(r2[0] == r[0]);
                assert(r2.drop_first() =~= r.drop_first().push(Seq::<char>::empty()));
                assert(seq![seq![s[0]] + r[0]] + r.drop_first().push(Seq::<char>::empty()) =~= (
                seq![seq![s[0]] + r[0]] + r.drop_first()).push(Seq::<char>::empty()));
            } else {
                assert(r2 == r.update(r.len() - 1, r.last().push(c)));
                if r.len() == 1 {
                    assert(r2[0] == r[0].push(c));
                    assert(r2.drop_first() =~= r.drop_first());
                    assert(r.drop_first() =~= Seq::<Seq<char>>::empty());
                    let lhs = split_on(t, sep);
                    let rhs = split_on(s, sep).update(
                        split_on(s, sep).len() - 1,
                        split_on(s, sep).last().push(c),
                    );
                    assert(split_on(s, sep).len() == 1);
                    assert(split_on(s, sep).last() == seq![s[0]] + r[0]);
                    assert(lhs[0] =~= seq![s[0]] + r[0].push(c));
                    assert((seq![s[0]] + r[0]).push(c) =~= seq![s[0]] + r[0].push(c));
                    assert(lhs =~= rhs);
                } else {
                    assert(r2[0] == r[0]);
                    let lhs = split_on(t, sep);
                    let rhs = split_on(s, sep).update(
                        split_on(s, sep).len() - 1,
                        split_on(s, sep).last().push(c),
                    );
                    assert(split_on(s, sep).last() == r.last());
                    assert(r2.drop_first() =~= r.drop_first().update(
                        r.drop_first().len() - 1,
                        r.last().push(c),
                    ));
                    assert(lhs =~= rhs);
                }
            }
        }
    }
}

/// How many `=` characters a segment holds.
pub open spec fn eq_count(s: Seq<char>) -> int
    decreases s.len(),
{
    if s.len() == 0 {
        0
    } else {
        eq_count(s.drop_last()) + if s.last() == '=' {
            1int
        } else {
            0int
        }
    }
}

/// The position of the first `=` in a segment, or its length when it holds
/// none.
pub open spec fn first_eq(s: Seq<char>) -> int
    decreases s.len(),
{
    if s.len() == 0 {
        0
    } else if eq_count(s.drop_last()) > 0 {
        first_eq(s.drop_last())
    } else if s.last() == '=' {
        s.len() - 1
    } else {
        s.len() as int
    }
}

/// A well-formed override segment: exactly one `=`, exactly one character
/// before it, at least one character after it.
pub open spec fn seg_ok(seg: Seq<char>) -> bool {
    eq_count(seg) == 1 && first_eq(seg) == 1 && seg.len() >= 3
}

/// Whether an error names this segment and gives the reason it is rejected.
pub open spec fn seg_error_matches(e: OverrideError, seg: Seq<char>) -> bool {
    match e {
        OverrideError::MissingEquals(s) => s@ == seg && eq_count(seg) == 0,
        OverrideError::ExtraEquals(s) => s@ == seg && eq_count(seg) >= 2,
        OverrideError::KeyNotSingleChar(s) => s@ == seg && eq_count(seg) == 1 && first_eq(seg)
            != 1,
        OverrideError::EmptyValue(s) => s@ == seg && eq_count(seg) == 1 && first_eq(seg) == 1
            && seg.len() == 2,
    }
}

/// Parses one `key=value` segment.
fn parse_segment(seg: &str) -> (r: Result<(char, String), OverrideError>)
    ensures
        match r {
            Ok(p) => seg_ok(seg@) && p.0 == seg@[0] && p.1@ == seg@.subrange(
                2,
                seg@.len() as int,
            ),
            Err(e) => !seg_ok(seg@) && seg_error_matches(e, seg@),
        },
{
    let n = seg.unicode_len();
    let mut count: usize = 0;
    let mut first: usize = 0;
    let mut i: usize = 0;
    while i < n
        invariant
            i <= n,
            n == seg@.len(),
            count <= i,
            first <= i,
            count as int == eq_count(seg@.take(i as int)),
            first as int == first_eq(seg@.take(i as int)),
        decreases n - i,
    {
        let c = seg.get_char(i);
        proof {
            assert(seg@.take(i + 1).drop_last() =~= seg@.take(i as int));
            assert(seg@.take(i + 1).last() == seg@[i as int]);
        }
        if count == 0 {
            if c == '=' {
                first = i;
            } else {
                first = i + 1;
            }
        }
        if c == '=' {
            count += 1;
        }
        i += 1;
    }
    proof {
        assert(seg@.take(n as int) =~= seg@);
    }
    if count == 0 {
        return Err(OverrideError::MissingEquals(seg.to_owned()));
    }
    if count >= 2 {
        return Err(OverrideError::ExtraEquals(seg.to_owned()));
    }
    if first != 1 {
        return Err(OverrideError::KeyNotSingleChar(seg.to_owned()));
    }
    if n == 2 {
        return Err(OverrideError::EmptyValue(seg.to_owned()));
    }
    proof {
        lemma_first_eq_bounds(seg@);
    }
    let k = seg.get_char(0);
    let v = seg.substring_char(2, n).to_owned();
    Ok((k, v))
}

proof fn lemma_first_eq_bounds(s: Seq<char>)
    ensures
        0 <= first_eq(s) <= s.len(),
        eq_count(s) > 0 ==> first_eq(s) < s.len(),
    decreases s.len(),
{
    if s.len() > 0 {
        lemma_first_eq_bounds(s.drop_last());
    }
}

/// Splits a comma-separated override list into its `key=value` pairs.
///
/// Succeeds exactly when every segment holds exactly one `=`, exactly one
/// character before it and a non-empty value after it; the first offending
/// segment otherwise decides the error.
pub fn parse_overrides(input: &str) -> (r: Result<Vec<(char, String)>, OverrideError>)
    ensures
        ({
            let segs = split_on(input@, ',');
            match r {
                Ok(v) => {
                    &&& forall|i: int| 0 <= i < segs.len() ==> seg_ok(#[trigger] segs[i])
                    &&& v@.len() == segs.len()
                    &&& forall|i: int|
                        0 <= i < segs.len() ==> (#[trigger] v@[i]).0 == segs[i][0] && v@[i].1@
                            == segs[i].subrange(2, segs[i].len() as int)
                },
                Err(e) => exists|i: int|
                    {
                        &&& 0 <= i < segs.len()
                        &&& !seg_ok(#[trigger] segs[i])
                        &&& (forall|j: int| 0 <= j < i ==> seg_ok(#[trigger] segs[j]))
                        &&& seg_error_matches(e, segs[i])
                    },
            }
        }),
{
    let ghost full = split_on(input@, ',');
    let mut segs: Vec<String> = Vec::new();
    let mut cur = String::new();
    let n = input.unicode_len();
    let mut i: usize = 0;
    proof {
        lemma_split_len(input@, ',');
    }
    while i < n
        invariant
            i <= n,
            n == input@.len(),
            split_on(input@.take(i as int), ',').len() == segs@.len() + 1,
            forall|j: int|
                0 <= j < segs@.len() ==> split_on(input@.take(i as int), ',')[j] == (
                #[trigger] segs@[j])@,
            split_on(input@.take(i as int), ',').last() == cur@,
        decreases n - i,
    {
        let c = input.get_char(i);
        proof {
            assert(input@.take(i + 1) =~= input@.take(i as int).push(input@[i as int]));
            lemma_split_push(input@.take(i as int), ',', c);
            lemma_split_len(input@.take(i as int), ',');
        }
        if c == ',' {
            segs.push(cur);
            cur = String::new();
        } else {
            push_char(&mut cur, c);
        }
        i += 1;
    }
    proof {
        assert(input@.take(n as int) =~= input@);
    }
    segs.push(cur);
    let m = segs.len();
    proof {
        assert(full.len() == m);
        assert(forall|j: int| 0 <= j < m ==> full[j] == (#[trigger] segs@[j])@);
    }
    let mut out: Vec<(char, String)> = Vec::new();
    let mut j: usize = 0;
    while j < m
        invariant
            j <= m,
            m == segs@.len(),
            full.len() == m,
            full == split_on(input@, ','),
            forall|x: int| 0 <= x < m ==> full[x] == (#[trigger] segs@[x])@,
            forall|x: int| 0 <= x < j ==> seg_ok(#[trigger] full[x]),
            out@.len() == j,
            forall|x: int|
                0 <= x < j ==> (#[trigger] out@[x]).0 == full[x][0] && out@[x].1@
                    == full[x].subrange(2, full[x].len() as int),
        decreases m - j,
    {
        let res = parse_segment(segs[j].as_str());
        match res {
            Ok(p) => {
                out.push(p);
            },
            Err(e) => {
                return Err(e);
            },
        }
        j += 1;
    }
    Ok(out)
}

} // verus!
