//! Character classification and case mapping.
//!
//! Inside ASCII the classes and mappings are written out here. Beyond ASCII
//! they are whatever the Unicode tables compiled into the standard library
//! say; those results are only named.

use vstd::prelude::*;

verus! {

/// The `Uppercase` property of a character beyond ASCII.
pub uninterp spec fn unicode_uppercase(c: char) -> bool;

/// The `Lowercase` property of a character beyond ASCII.
pub uninterp spec fn unicode_lowercase(c: char) -> bool;

/// The full lowercase mapping of a character beyond ASCII.
pub uninterp spec fn unicode_lowercase_mapping(c: char) -> Seq<char>;

/// The full uppercase mapping of a character beyond ASCII.
pub uninterp spec fn unicode_uppercase_mapping(c: char) -> Seq<char>;

pub open spec fn is_ascii(c: char) -> bool {
    c <= '\x7f'
}

/// `c` with an ASCII capital replaced by its small letter.
pub open spec fn ascii_lowered(c: char) -> char {
    if 'A' <= c && c <= 'Z' {
        ((c as u8) + 32) as char
    } else {
        c
    }
}

/// `c` with an ASCII small letter replaced by its capital.
pub open spec fn ascii_raised(c: char) -> char {
    if 'a' <= c && c <= 'z' {
        ((c as u8) - 32) as char
    } else {
        c
    }
}

pub open spec fn is_upper(c: char) -> bool {
    if is_ascii(c) {
        'A' <= c && c <= 'Z'
    } else {
        unicode_uppercase(c)
    }
}

pub open spec fn is_lower(c: char) -> bool {
    if is_ascii(c) {
        'a' <= c && c <= 'z'
    } else {
        unicode_lowercase(c)
    }
}

/// The characters that `c` becomes in lowercase.
pub open spec fn lowered(c: char) -> Seq<char> {
    if is_ascii(c) {
        seq![ascii_lowered(c)]
    } else {
        unicode_lowercase_mapping(c)
    }
}

/// The characters that `c` becomes in uppercase.
pub open spec fn raised(c: char) -> Seq<char> {
    if is_ascii(c) {
        seq![ascii_raised(c)]
    } else {
        unicode_uppercase_mapping(c)
    }
}

/// `char::is_uppercase`. Trusted: an ASCII character is uppercase exactly
/// when it is one of `A` to `Z`; for any other character the answer is the
/// named Unicode property.
pub assume_specification[ char::is_uppercase ](c: char) -> (r: bool)
    ensures
        is_ascii(c) ==> r == ('A' <= c && c <= 'Z'),
        !is_ascii(c) ==> r == unicode_uppercase(c),
;

/// `char::is_lowercase`. Trusted: an ASCII character is lowercase exactly
/// when it is one of `a` to `z`; for any other character the answer is the
/// named Unicode property.
pub assume_specification[ char::is_lowercase ](c: char) -> (r: bool)
    ensures
        is_ascii(c) ==> r == ('a' <= c && c <= 'z'),
        !is_ascii(c) ==> r == unicode_lowercase(c),
;

/// `String::push`. Trusted: the character is added at the end and nothing
/// else changes.
pub assume_specification[ String::push ](buffer: &mut String, c: char)
    ensures
        final(buffer)@ == old(buffer)@.push(c),
;

/// `char::to_lowercase`, its characters gathered in a `String`. Trusted: an
/// ASCII character maps to the single character `ascii_lowered` gives; any
/// other character maps to the named Unicode mapping.
#[verifier::external_body]
pub(crate) fn lowercase_of(c: char) -> (r: String)
    ensures
        is_ascii(c) ==> r@ == seq![ascii_lowered(c)],
        !is_ascii(c) ==> r@ == unicode_lowercase_mapping(c),
{
    c.to_lowercase().collect()
}

/// `char::to_uppercase`, its characters gathered in a `String`. Trusted: an
/// ASCII character maps to the single character `ascii_raised` gives; any
/// other character maps to the named Unicode mapping.
#[verifier::external_body]
pub(crate) fn uppercase_of(c: char) -> (r: String)
    ensures
        is_ascii(c) ==> r@ == seq![ascii_raised(c)],
        !is_ascii(c) ==> r@ == unicode_uppercase_mapping(c),
{
    c.to_uppercase().collect()
}

/// `==` on `str`. Trusted: two string slices are equal exactly when they hold
/// the same characters.
#[verifier::external_body]
pub(crate) fn same_text(a: &str, b: &str) -> (r: bool)
    ensures
        r == (a@ == b@),
{
    a == b
}

} // verus!
