//! The phonetic converter: turns text into code words over a table built
//! from a named alphabet, optionally customized with overrides and a nonce
//! output form.

use vstd::prelude::*;
use vstd::string::{StrSliceExecFns, StringExecFns};

use convert_case::{Case, Casing};

use crate::chars::{
    char_is_alphabetic, char_is_lowercase, char_is_uppercase, char_to_lowercase, is_alphabetic_of,
    is_lowercase_of, is_uppercase_of, lower_chars_of, push_char, str_lower_of, str_to_lowercase,
    str_to_uppercase, str_upper_of,
};
use crate::code_words::{alphabet_table, SpellingAlphabet};
use crate::table::{is_dump_output, CodeWordTable};

verus! {

// The Pascal-case form that convert_case produces for a string.
pub uninterp spec fn pascal_of(s: Seq<char>) -> Seq<char>;

/// Relies on convert_case's `Casing::to_case` with `Case::Pascal`: the
/// Pascal-case form of a string depends on its characters alone.
#[verifier::external_body]
fn to_pascal_case(s: &str) -> (r: String)
    ensures
        r@ == pascal_of(s@),
{
    s.to_case(Case::Pascal)
}

/// The table key a character is looked up under: its lowercase form when
/// that is a single character, otherwise the character itself.
pub open spec fn normalize_key(c: char) -> char {
    if lower_chars_of(c).len() == 1 {
        lower_chars_of(c)[0]
    } else {
        c
    }
}

/// A code word recased after the character that selected it: lowercased for
/// a lowercase character, uppercased for an uppercase one, verbatim
/// otherwise.
pub open spec fn recase(w: Seq<char>, c: char) -> Seq<char> {
    if is_lowercase_of(c) {
        str_lower_of(w)
    } else if is_uppercase_of(c) {
        str_upper_of(w)
    } else {
        w
    }
}

/// The nonce form of a code word: `'<character>' as in <word>`.
pub open spec fn nonce_wrap(c: char, w: Seq<char>) -> Seq<char> {
    seq!['\'', c, '\''] + " as in "@ + w
}

/// What one character contributes to the output: its recased code word
/// (nonce-wrapped for letters when nonce form is on), or the character
/// itself when the table does not know it.
pub open spec fn emit_char(m: Map<char, Seq<char>>, nonce: bool, c: char) -> Seq<char> {
    let k = normalize_key(c);
    if m.dom().contains(k) {
        let w = recase(m[k], c);
        if nonce && is_alphabetic_of(c) {
            nonce_wrap(c, w)
        } else {
            w
        }
    } else {
        seq![c]
    }
}

/// The separator between two converted characters.
pub open spec fn sep_spec(nonce: bool) -> Seq<char> {
    if nonce {
        ", "@
    } else {
        " "@
    }
}

/// The conversion of a whole text: each character's emission, separated.
pub open spec fn convert_spec(m: Map<char, Seq<char>>, nonce: bool, text: Seq<char>) -> Seq<char>
    decreases text.len(),
{
    if text.len() == 0 {
        Seq::empty()
    } else if text.len() == 1 {
        emit_char(m, nonce, text[0])
    } else {
        convert_spec(m, nonce, text.drop_last()) + sep_spec(nonce) + emit_char(
            m,
            nonce,
            text.last(),
        )
    }
}

/// Every stored code word has at least one character.
pub open spec fn all_words_nonempty(m: Map<char, Seq<char>>) -> bool {
    forall|k: char| #[trigger] m.dom().contains(k) ==> m[k].len() > 0
}

/// The override entries folded into a mapping, in order, each with its key
/// and value normalized; a later entry for the same key wins.
pub open spec fn apply_overrides(m: Map<char, Seq<char>>, ov: Seq<(char, String)>) -> Map<
    char,
    Seq<char>,
>
    decreases ov.len(),
{
    if ov.len() == 0 {
        m
    } else {
        apply_overrides(m, ov.drop_last()).insert(
            normalize_key(ov.last().0),
            pascal_of(ov.last().1@),
        )
    }
}

/// A phonetic converter.
pub struct PhoneticConverter {
    /// The map of characters to code words.
    conversion_map: CodeWordTable,
    /// Is set when the code word output will be in "nonce form".
    nonce_form: bool,
}

impl PhoneticConverter {
    /// The character to code word mapping this converter uses.
    pub closed spec fn mappings_view(&self) -> Map<char, Seq<char>> {
        self.conversion_map@
    }

    /// Whether nonce form output is on.
    pub closed spec fn nonce_enabled(&self) -> bool {
        self.nonce_form
    }

    /// Creates a converter over the mappings of the desired spelling
    /// alphabet; nonce form starts out off.
    pub fn new(alphabet: &SpellingAlphabet) -> (r: Self)
        ensures
            r.mappings_view() == alphabet_table(*alphabet),
            !r.nonce_enabled(),
    {
        let conversion_map = alphabet.initialize();
        PhoneticConverter { conversion_map, nonce_form: false }
    }

    /// The current character mappings of this converter.
    #[must_use]
    pub fn mappings(&self) -> (r: &CodeWordTable)
        ensures
            r@ == self.mappings_view(),
    {
        &self.conversion_map
    }

    /// Turns nonce form output on or off; the mappings stay as they are.
    ///
    /// Nonce form expands each letter into the form `'A' as in ALFA`;
    /// digits and symbols keep the normal output format.
    #[must_use]
    pub fn nonce_form(self, nonce_form: bool) -> (r: Self)
        ensures
            r.mappings_view() == self.mappings_view(),
            r.nonce_enabled() == nonce_form,
    {
        PhoneticConverter { conversion_map: self.conversion_map, nonce_form }
    }

    /// Adds or replaces mappings from the given override entries, in order.
    /// Each key is folded to lowercase when that stays a single character,
    /// and each value is normalized to the canonical Pascal-case code word
    /// form; nonce form is left as it was.
    #[must_use]
    pub fn with_overrides(self, overrides: Vec<(char, String)>) -> (r: Self)
        ensures
            r.mappings_view() == apply_overrides(self.mappings_view(), overrides@),
            r.nonce_enabled() == self.nonce_enabled(),
    {
        let ghost m0 = self.conversion_map@;
        let ghost nf0 = self.nonce_form;
        let mut me = self;
        let n = overrides.len();
        let mut i: usize = 0;
        while i < n
            invariant
                i <= n,
                n == overrides@.len(),
                me.conversion_map@ == apply_overrides(m0, overrides@.take(i as int)),
                me.nonce_form == nf0,
            decreases n - i,
        {
            let e = &overrides[i];
            let k = e.0;
            let v = e.1.clone();
            let lower = char_to_lowercase(k);
            let nk = if lower.len() == 1 {
                lower[0]
            } else {
                k
            };
            let pv = to_pascal_case(v.as_str());
            me.conversion_map.insert(nk, pv);
            proof {
                assert(overrides@.take(i + 1).drop_last() =~= overrides@.take(i as int));
                assert(overrides@.take(i + 1).last() == overrides@[i as int]);
            }
            i += 1;
        }
        proof {
            assert(overrides@.take(n as int) =~= overrides@);
        }
        me
    }

    /// Converts the given text into a string of code words.
    ///
    /// Every character emits its code word, or itself when unmapped, with a
    /// separator between consecutive emissions. When every stored code word
    /// is non-empty the output is never shorter than the input; an empty
    /// input yields an empty output.
    #[must_use]
    pub fn convert(&self, text: &str) -> (out: String)
        ensures
            out@ == convert_spec(self.mappings_view(), self.nonce_enabled(), text@),
            text@.len() == 0 ==> out@.len() == 0,
            all_words_nonempty(self.mappings_view()) ==> out@.len() >= text@.len(),
    {
        let mut out = String::new();
        let n = text.unicode_len();
        let mut i: usize = 0;
        while i < n
            invariant
                i <= n,
                n == text@.len(),
                out@ == convert_spec(self.mappings_view(), self.nonce_enabled(), text@.take(i as int)),
                all_words_nonempty(self.mappings_view()) ==> out@.len() >= i,
            decreases n - i,
        {
            let c = text.get_char(i);
            if i != 0 {
                if self.nonce_form {
                    out.append(", ");
                } else {
                    out.append(" ");
                }
            }
            self.convert_char(c, &mut out);
            proof {
                assert(text@.take(i + 1).drop_last() =~= text@.take(i as int));
                assert(text@.take(i + 1).last() == text@[i as int]);
            }
            i += 1;
        }
        proof {
            assert(text@.take(n as int) =~= text@);
        }
        out
    }

    /// Appends what one character contributes to the output.
    fn convert_char(&self, c: char, result: &mut String)
        ensures
            final(result)@ == old(result)@ + emit_char(
                self.mappings_view(),
                self.nonce_enabled(),
                c,
            ),
            all_words_nonempty(self.mappings_view()) ==> final(result)@.len() > old(result)@.len(),
    {
        let lower = char_to_lowercase(c);
        let key = if lower.len() == 1 {
            lower[0]
        } else {
            c
        };
        match self.conversion_map.get(key) {
            Some(word) => {
                let code_word = if char_is_lowercase(c) {
                    str_to_lowercase(word.as_str())
                } else if char_is_uppercase(c) {
                    str_to_uppercase(word.as_str())
                } else {
                    word.clone()
                };
                if self.nonce_form && char_is_alphabetic(c) {
                    push_char(result, '\'');
                    push_char(result, c);
                    push_char(result, '\'');
                    result.append(" as in ");
                    result.append(code_word.as_str());
                    proof {
                        assert(final(result)@ =~= old(result)@ + nonce_wrap(c, code_word@));
                    }
                } else {
                    result.append(code_word.as_str());
                }
            },
            None => {
                push_char(result, c);
            },
        }
    }

    /// Renders the current mappings as one line per entry,
    /// `<char> -> <word>`, letters first, then digits, then symbols, each
    /// group in ascending character order; non-alphabetic entries are shown
    /// only when `verbose` is set.
    pub fn dump_alphabet(&self, verbose: bool) -> (out: String)
        ensures
            is_dump_output(self.mappings_view(), verbose, out@),
    {
        self.conversion_map.dump(verbose)
    }
}

/// Case preservation: a mapped lowercase character converts to its code
/// word entirely lowercased, and a mapped uppercase character to its code
/// word entirely uppercased (nonce form off).
pub proof fn lemma_convert_case_preservation(m: Map<char, Seq<char>>, c: char)
    requires
        m.dom().contains(normalize_key(c)),
    ensures
        is_lowercase_of(c) ==> convert_spec(m, false, seq![c]) == str_lower_of(
            m[normalize_key(c)],
        ),
        is_uppercase_of(c) && !is_lowercase_of(c) ==> convert_spec(m, false, seq![c])
            == str_upper_of(m[normalize_key(c)]),
{
    assert(seq![c].len() == 1);
    assert(seq![c][0] == c);
}

/// Pass-through: a character whose key the table does not hold is emitted
/// unchanged, whatever the nonce form setting.
pub proof fn lemma_convert_pass_through(m: Map<char, Seq<char>>, nonce: bool, c: char)
    requires
        !m.dom().contains(normalize_key(c)),
    ensures
        emit_char(m, nonce, c) == seq![c],
        convert_spec(m, nonce, seq![c]) == seq![c],
{
    assert(seq![c].len() == 1);
    assert(seq![c][0] == c);
}

/// Override normalization: two override keys with the same normalized form
/// address the same slot of the mapping, and a single override stores the
/// Pascal-case form of its value under the normalized key.
pub proof fn lemma_override_key_normalization(
    m: Map<char, Seq<char>>,
    k1: char,
    k2: char,
    v: String,
)
    requires
        normalize_key(k1) == normalize_key(k2),
    ensures
        apply_overrides(m, seq![(k1, v)]) == m.insert(normalize_key(k1), pascal_of(v@)),
        apply_overrides(m, seq![(k1, v)]) == apply_overrides(m, seq![(k2, v)]),
{
    assert(apply_overrides(m, Seq::<(char, String)>::empty()) == m);
    assert(seq![(k1, v)].drop_last() =~= Seq::<(char, String)>::empty());
    assert(seq![(k2, v)].drop_last() =~= Seq::<(char, String)>::empty());
    assert(seq![(k1, v)].last() == (k1, v));
    assert(seq![(k2, v)].last() == (k2, v));
}

} // verus!

