//! Classification and case folding of ASCII characters.
//!
//! The slug builder only ever distinguishes ASCII letters and digits from
//! everything else, and folds case manually over the ASCII letter ranges,
//! so that the output never depends on a locale or on Unicode case mapping.

use vstd::prelude::*;
use crate::Case;

verus! {

/// True when `c` is an ASCII lowercase letter.
pub open spec fn is_lower(c: char) -> bool {
    'a' <= c && c <= 'z'
}

/// True when `c` is an ASCII uppercase letter.
pub open spec fn is_upper(c: char) -> bool {
    'A' <= c && c <= 'Z'
}

/// True when `c` is an ASCII decimal digit.
pub open spec fn is_digit(c: char) -> bool {
    '0' <= c && c <= '9'
}

/// True when `c` is an ASCII letter or digit: exactly the characters the
/// slug builder emits as themselves (up to case).
pub open spec fn is_alnum(c: char) -> bool {
    is_lower(c) || is_upper(c) || is_digit(c)
}

/// True when `c` is a 7-bit ASCII character.
pub open spec fn is_ascii_char(c: char) -> bool {
    (c as u32) < 128
}

/// True when every character of `s` is 7-bit ASCII.
pub open spec fn all_ascii(s: Seq<char>) -> bool {
    forall|i: int| 0 <= i < s.len() ==> is_ascii_char(#[trigger] s[i])
}

/// The uppercase form of `c`: ASCII lowercase letters are mapped to their
/// uppercase counterpart, every other character is left alone.
pub open spec fn to_upper(c: char) -> char {
    if is_lower(c) {
        ((c as u32) - 32) as char
    } else {
        c
    }
}

/// The lowercase form of `c`: ASCII uppercase letters are mapped to their
/// lowercase counterpart, every other character is left alone.
pub open spec fn to_lower(c: char) -> char {
    if is_upper(c) {
        ((c as u32) + 32) as char
    } else {
        c
    }
}

/// The case transform that a given mode applies to an emitted character.
pub open spec fn apply_case(c: char, case: Case) -> char {
    match case {
        Case::Preserve => c,
        Case::Lower => to_lower(c),
        Case::Upper => to_upper(c),
    }
}

/// Case folding keeps a character inside the letter-or-digit class.
pub proof fn lemma_apply_case_alnum(c: char, case: Case)
    requires
        is_alnum(c),
    ensures
        is_alnum(apply_case(c, case)),
        apply_case(apply_case(c, case), case) == apply_case(c, case),
{
}

/// True when `r` is `is_alnum(x)`.
pub fn char_is_alnum(x: char) -> (r: bool)
    ensures
        r == is_alnum(x),
{
    ('a' <= x && x <= 'z') || ('A' <= x && x <= 'Z') || ('0' <= x && x <= '9')
}

/// True when `r` is `is_ascii_char(x)`.
pub fn char_is_ascii(x: char) -> (r: bool)
    ensures
        r == is_ascii_char(x),
{
    (x as u32) < 128
}

/// Uppercase an ASCII lowercase letter; leave every other character alone.
pub fn char_to_upper(c: char) -> (r: char)
    ensures
        r == to_upper(c),
{
    let u: u32 = c as u32;
    if 97 <= u && u <= 122 {
        proof {
            assert(((u - 32) as u8) as u32 == u - 32) by (bit_vector)
                requires
                    97 <= u <= 122,
            ;
        }
        ((u - 32) as u8) as char
    } else {
        c
    }
}

/// Lowercase an ASCII uppercase letter; leave every other character alone.
pub fn char_to_lower(c: char) -> (r: char)
    ensures
        r == to_lower(c),
{
    let u: u32 = c as u32;
    if 65 <= u && u <= 90 {
        proof {
            assert(((u + 32) as u8) as u32 == u + 32) by (bit_vector)
                requires
                    65 <= u <= 90,
            ;
        }
        ((u + 32) as u8) as char
    } else {
        c
    }
}

/// Apply the case transform of `case` to one character.
pub fn char_apply_case(c: char, case: Case) -> (r: char)
    ensures
        r == apply_case(c, case),
{
    match case {
        Case::Preserve => c,
        Case::Lower => char_to_lower(c),
        Case::Upper => char_to_upper(c),
    }
}

} // verus!
