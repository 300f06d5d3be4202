//! The transliteration dependency: a black box that maps one Unicode code
//! point to an approximate ASCII replacement, or reports that it has none.

use vstd::prelude::*;
use crate::ascii::all_ascii;

verus! {

/// The ASCII replacement that the transliteration table holds for a code
/// point, or `None` when the table has no entry for it. The table is fixed,
/// so the result depends on the code point alone.
pub uninterp spec fn translit_of(c: char) -> Option<Seq<char>>;

/// Relies on `deunicode::deunicode_char`: a lookup in a fixed table, whose
/// result depends on the code point alone and consists of ASCII characters
/// only (its documentation guarantees every returned character is in
/// 0..=127).
#[verifier::external_body]
pub(crate) fn translit_char(c: char) -> (r: Option<Vec<char>>)
    ensures
        r is Some <==> translit_of(c) is Some,
        r matches Some(t) ==> translit_of(c) == Some(t@),
        r matches Some(t) ==> all_ascii(t@),
{
    deunicode::deunicode_char(c).map(|t| t.chars().collect())
}

} // verus!
