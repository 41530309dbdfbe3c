//! Character classes and the few string operations the compiler needs.
use vstd::prelude::*;

verus! {

/// Whether a character outside ASCII has the Unicode property `Alphabetic`,
/// as the standard library tabulates it.
pub uninterp spec fn unicode_alphabetic(c: char) -> bool;

/// Whether a character outside ASCII is in one of the Unicode number
/// categories, as the standard library tabulates them.
pub uninterp spec fn unicode_numeric(c: char) -> bool;

/// Whether a character outside ASCII has the Unicode property `White_Space`,
/// as the standard library tabulates it.
pub uninterp spec fn unicode_whitespace(c: char) -> bool;

pub open spec fn is_ascii(c: char) -> bool {
    (c as u32) < 128
}

pub open spec fn is_ascii_letter(c: char) -> bool {
    ('a' <= c && c <= 'z') || ('A' <= c && c <= 'Z')
}

pub open spec fn is_ascii_space(c: char) -> bool {
    (9 <= c as u32 && c as u32 <= 13) || c == ' '
}

/// Letters: in ASCII the 52 Latin letters, elsewhere what Unicode calls alphabetic.
pub open spec fn is_letter(c: char) -> bool {
    if is_ascii(c) {
        is_ascii_letter(c)
    } else {
        unicode_alphabetic(c)
    }
}

/// Numerals: in ASCII the ten digits, elsewhere what Unicode calls numeric.
pub open spec fn is_numeral(c: char) -> bool {
    if is_ascii(c) {
        is_digit(c)
    } else {
        unicode_numeric(c)
    }
}

/// White space: in ASCII tab, line feed, vertical tab, form feed, carriage
/// return and space; elsewhere what Unicode calls white space.
pub open spec fn is_space(c: char) -> bool {
    if is_ascii(c) {
        is_ascii_space(c)
    } else {
        unicode_whitespace(c)
    }
}

/// The ten decimal digits.
pub open spec fn is_digit(c: char) -> bool {
    '0' <= c && c <= '9'
}

/// What may continue an identifier: a letter, a numeral or an underscore.
pub open spec fn is_word_char(c: char) -> bool {
    is_letter(c) || is_numeral(c) || c == '_'
}

/// `char::is_alphabetic`. Trusted: on ASCII it accepts exactly the Latin
/// letters; on any other character its answer is the Unicode property, which
/// is named and not spelled out.
#[verifier::external_body]
pub(crate) fn char_is_alphabetic(c: char) -> (r: bool)
    ensures
        is_ascii(c) ==> r == is_ascii_letter(c),
        !is_ascii(c) ==> r == unicode_alphabetic(c),
{
    c.is_alphabetic()
}

/// `char::is_numeric`. Trusted: on ASCII it accepts exactly the ten digits; on
/// any other character its answer is the Unicode property, which is named and
/// not spelled out.
#[verifier::external_body]
pub(crate) fn char_is_numeric(c: char) -> (r: bool)
    ensures
        is_ascii(c) ==> r == is_digit(c),
        !is_ascii(c) ==> r == unicode_numeric(c),
{
    c.is_numeric()
}

/// `char::is_whitespace`. Trusted: on ASCII it accepts exactly U+0009 to
/// U+000D and the space; on any other character its answer is the Unicode
/// property, which is named and not spelled out.
#[verifier::external_body]
pub(crate) fn char_is_whitespace(c: char) -> (r: bool)
    ensures
        is_ascii(c) ==> r == is_ascii_space(c),
        !is_ascii(c) ==> r == unicode_whitespace(c),
{
    c.is_whitespace()
}

/// `String::push`. Trusted: the character is appended and nothing else changes.
#[verifier::external_body]
pub(crate) fn string_push(s: &mut String, c: char)
    ensures
        final(s)@ == old(s)@.push(c),
{
    s.push(c)
}

/// Equality of string slices (`==` on `str`). Trusted: two slices are equal
/// exactly when they hold the same characters.
#[verifier::external_body]
pub(crate) fn str_eq(a: &str, b: &str) -> (r: bool)
    ensures
        r == (a@ == b@),
{
    a == b
}

pub fn is_decimal_digit(c: char) -> (r: bool)
    ensures
        r == is_digit(c),
{
    '0' <= c && c <= '9'
}

pub fn is_identifier_char(c: char) -> (r: bool)
    ensures
        r == is_word_char(c),
{
    char_is_alphabetic(c) || char_is_numeric(c) || c == '_'
}

/// The characters of a string, in order.
pub fn chars_of(s: &str) -> (v: Vec<char>)
    ensures
        v@ == s@,
{
    let mut v: Vec<char> = Vec::new();
    for c in it: s.chars()
        invariant
            v@ == it.seq().take(it.index()),
            it.seq() == s@,
    {
        v.push(c);
    }
    v
}

/// The characters of `chars` from `from` up to `to`, as a string.
pub fn string_of_range(chars: &Vec<char>, from: usize, to: usize) -> (s: String)
    requires
        from <= to <= chars.len(),
    ensures
        s@ == chars@.subrange(from as int, to as int),
{
    let mut s = String::new();
    let mut i: usize = from;
    while i < to
        invariant
            from <= i <= to <= chars.len(),
            s@ == chars@.subrange(from as int, i as int),
        decreases to - i,
    {
        string_push(&mut s, chars[i]);
        i += 1;
        assert(chars@.subrange(from as int, i as int) =~= chars@.subrange(from as int, i - 1).push(
            chars@[i - 1],
        ));
    }
    s
}

} // verus!
