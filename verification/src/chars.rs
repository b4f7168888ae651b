//! Character classification, case mapping, and the custom character order
//! used when dumping a table.
//!
//! The Unicode-aware questions (is a character alphabetic, what is its
//! lowercase mapping, ...) are answered by the standard library; the spec
//! functions below name those answers so that contracts can speak of them.

use vstd::prelude::*;

verus! {

// The characters that `char::to_lowercase` yields for a character.
pub uninterp spec fn lower_chars_of(c: char) -> Seq<char>;

// What `char::is_lowercase` returns for a character.
pub uninterp spec fn is_lowercase_of(c: char) -> bool;

// What `char::is_uppercase` returns for a character.
pub uninterp spec fn is_uppercase_of(c: char) -> bool;

// What `char::is_alphabetic` returns for a character.
pub uninterp spec fn is_alphabetic_of(c: char) -> bool;

// What `char::is_numeric` returns for a character.
pub uninterp spec fn is_numeric_of(c: char) -> bool;

// The characters of `str::to_lowercase` applied to a character sequence.
pub uninterp spec fn str_lower_of(s: Seq<char>) -> Seq<char>;

// The characters of `str::to_uppercase` applied to a character sequence.
pub uninterp spec fn str_upper_of(s: Seq<char>) -> Seq<char>;

/// Relies on char::to_lowercase: the lowercase mapping of a character
/// depends on the character alone and yields one or more characters.
#[verifier::external_body]
pub(crate) fn char_to_lowercase(c: char) -> (r: Vec<char>)
    ensures
        r@ == lower_chars_of(c),
        r@.len() >= 1,
{
    c.to_lowercase().collect()
}

/// Relies on char::is_lowercase: whether the character has the Unicode
/// Lowercase property, a property of the character alone.
#[verifier::external_body]
pub(crate) fn char_is_lowercase(c: char) -> (r: bool)
    ensures
        r == is_lowercase_of(c),
{
    c.is_lowercase()
}

/// Relies on char::is_uppercase: whether the character has the Unicode
/// Uppercase property, a property of the character alone.
#[verifier::external_body]
pub(crate) fn char_is_uppercase(c: char) -> (r: bool)
    ensures
        r == is_uppercase_of(c),
{
    c.is_uppercase()
}

/// Relies on char::is_alphabetic: whether the character has the Unicode
/// Alphabetic property, a property of the character alone.
#[verifier::external_body]
pub(crate) fn char_is_alphabetic(c: char) -> (r: bool)
    ensures
        r == is_alphabetic_of(c),
{
    c.is_alphabetic()
}

/// Relies on char::is_numeric: whether the character has one of the Unicode
/// numeric general categories, a property of the character alone.
#[verifier::external_body]
pub(crate) fn char_is_numeric(c: char) -> (r: bool)
    ensures
        r == is_numeric_of(c),
{
    c.is_numeric()
}

/// Relies on str::to_lowercase: the result depends on the characters alone,
/// and it is empty exactly when the input is empty (every character maps to
/// one or more characters).
#[verifier::external_body]
pub(crate) fn str_to_lowercase(s: &str) -> (r: String)
    ensures
        r@ == str_lower_of(s@),
        r@.len() == 0 <==> s@.len() == 0,
{
    s.to_lowercase()
}

/// Relies on str::to_uppercase: the result depends on the characters alone,
/// and it is empty exactly when the input is empty (every character maps to
/// one or more characters).
#[verifier::external_body]
pub(crate) fn str_to_uppercase(s: &str) -> (r: String)
    ensures
        r@ == str_upper_of(s@),
        r@.len() == 0 <==> s@.len() == 0,
{
    s.to_uppercase()
}

/// Relies on String::push: appends the given character to the end of the
/// string.
#[verifier::external_body]
pub(crate) fn push_char(s: &mut String, c: char)
    ensures
        final(s)@ == old(s)@ + seq![c],
{
    s.push(c)
}

/// The group a character sorts into when a table is dumped: alphabetic
/// characters come first, then numeric characters, then everything else.
pub open spec fn char_class(c: char) -> int {
    if is_alphabetic_of(c) {
        0
    } else if is_numeric_of(c) {
        1
    } else {
        2
    }
}

/// The strict order used when dumping a table: by group, then by scalar
/// value within a group.
pub open spec fn char_lt(a: char, b: char) -> bool {
    char_class(a) < char_class(b) || (char_class(a) == char_class(b) && (a as u32) < (b as u32))
}

pub proof fn lemma_char_lt_trichotomy(a: char, b: char)
    ensures
        a == b || char_lt(a, b) || char_lt(b, a),
        !(char_lt(a, b) && char_lt(b, a)),
        !char_lt(a, a),
{
}

pub proof fn lemma_char_lt_transitive(a: char, b: char, c: char)
    requires
        char_lt(a, b),
        char_lt(b, c),
    ensures
        char_lt(a, c),
{
}

/// Compare two characters in the dump order: letters before digits before
/// symbols, natural scalar order within each group.
pub(crate) fn custom_char_ordering(a: char, b: char) -> (r: core::cmp::Ordering)
    ensures
        r == core::cmp::Ordering::Less <==> char_lt(a, b),
        r == core::cmp::Ordering::Greater <==> char_lt(b, a),
        r == core::cmp::Ordering::Equal <==> a == b,
{
    proof {
        lemma_char_lt_trichotomy(a, b);
    }
    let a_alpha = char_is_alphabetic(a);
    let b_alpha = char_is_alphabetic(b);
    let a_num = char_is_numeric(a);
    let b_num = char_is_numeric(b);
    if (a_alpha && !b_alpha) || (!a_alpha && !b_alpha && a_num && !b_num) {
        core::cmp::Ordering::Less
    } else if (!a_alpha && b_alpha) || (!a_alpha && !b_alpha && !a_num && b_num) {
        core::cmp::Ordering::Greater
    } else if (a as u32) < (b as u32) {
        core::cmp::Ordering::Less
    } else if (b as u32) < (a as u32) {
        core::cmp::Ordering::Greater
    } else {
        core::cmp::Ordering::Equal
    }
}

} // verus!
