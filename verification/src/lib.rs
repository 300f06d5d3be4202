//! Conversion of arbitrary Unicode text into ASCII-only slugs, suitable for
//! URLs and file names.
//!
//! The heart of the crate is [`slugify`]: a pure, single-pass transformation
//! that transliterates each code point to ASCII, keeps letters and digits
//! (optionally folding their case), and collapses every run of anything else
//! into at most one separator character, never at the start or the end of
//! the output.

use vstd::prelude::*;
use vstd::string::StrSliceExecFns;

pub mod ascii;
mod builder;
pub mod laws;
pub mod model;
pub mod translit;

verus! {

/// The case transform applied to the letters of a slug.
#[derive(Clone, Copy, Debug, PartialEq, Eq, Structural)]
pub enum Case {
    /// ASCII letters keep the case they arrive with.
    Preserve,
    /// Every ASCII letter is folded to lowercase.
    Lower,
    /// Every ASCII letter is folded to uppercase.
    Upper,
}

/// The one failure of [`slugify`]: the supplied separator was empty.
#[derive(Clone, Copy, Debug, PartialEq, Eq, Structural)]
pub enum SlugError {
    /// The separator must hold at least one character.
    InvalidArgument,
}

/// Relies on `String`'s `FromIterator<char>` impl: collecting characters
/// yields the string of exactly those characters, in order.
#[verifier::external_body]
fn chars_to_string(cs: &Vec<char>) -> (r: String)
    ensures
        r@ == cs@,
{
    cs.iter().collect()
}

/// Convert `s` into an ASCII-only slug.
///
/// Every ASCII letter or digit of the (transliterated) input is kept, with
/// its case folded according to `case`; every run of anything else becomes
/// at most one separator character, never at the start or the end of the
/// output. Code points outside ASCII are first mapped to an approximate
/// ASCII replacement, with the separator sequence standing in for code
/// points that have none. With `expand_symbols` set, `@` and `&` become
/// the separator-framed words `at` and `and` instead of collapsing.
///
/// The separator may hold several characters, but only its first character
/// is ever emitted; an empty separator is rejected.
pub fn slugify(s: &str, sep: &str, case: Case, expand_symbols: bool) -> (res: Result<
    String,
    SlugError,
>)
    requires
        ascii::all_ascii(sep@),
    ensures
        res is Ok <==> sep@.len() > 0,
        res matches Ok(slug) ==> slug@ == model::slug_chars(s@, sep@, case, expand_symbols),
{
    if sep.is_empty() {
        return Err(SlugError::InvalidArgument);
    }
    let sep_len: usize = sep.unicode_len();
    let mut sepv: Vec<char> = Vec::new();
    let mut i: usize = 0;
    while i < sep_len
        invariant
            i <= sep_len,
            sep_len == sep@.len(),
            sepv@ == sep@.take(i as int),
        decreases sep_len - i,
    {
        sepv.push(sep.get_char(i));
        i = i + 1;
        proof {
            assert(sep@.take(i as int) =~= sep@.take(i - 1).push(sep@[i - 1]));
        }
    }
    proof {
        assert(sep@.take(sep_len as int) =~= sep@);
    }
    let sep0: char = sepv[0];

    let n: usize = s.unicode_len();
    let mut out: Vec<char> = Vec::new();
    let mut prev: bool = true;
    let mut j: usize = 0;
    while j < n
        invariant
            j <= n,
            n == s@.len(),
            sepv@ == sep@,
            sep@.len() > 0,
            sep0 == sep@[0],
            ({
                let st = model::run_input(
                    model::initial_state(),
                    s@.take(j as int),
                    sep@,
                    case,
                    expand_symbols,
                );
                out@ == st.0 && prev == st.1
            }),
        decreases n - j,
    {
        let ghost st_before = (out@, prev);
        let c: char = s.get_char(j);
        if ascii::char_is_ascii(c) {
            builder::push_char(&mut out, &mut prev, c, sep0, case, expand_symbols);
            proof {
                reveal_with_fuel(model::run_chars, 3);
                let cand = model::candidate_of(c, sep@);
                assert(cand == seq![c]);
                assert(cand[0] == c);
                assert(cand.drop_first() =~= Seq::<char>::empty());
                assert((out@, prev) == model::run_chars(st_before, cand, sep0, case, expand_symbols));
            }
        } else {
            let cand_vec: Vec<char> = match translit::translit_char(c) {
                Some(t) => t,
                None => sepv.clone(),
            };
            proof {
                assert(cand_vec@ == model::candidate_of(c, sep@));
            }
            let m: usize = cand_vec.len();
            let mut k: usize = 0;
            while k < m
                invariant
                    k <= m,
                    m == cand_vec@.len(),
                    sep@.len() > 0,
                    sep0 == sep@[0],
                    ({
                        let st = model::run_chars(
                            st_before,
                            cand_vec@.take(k as int),
                            sep0,
                            case,
                            expand_symbols,
                        );
                        out@ == st.0 && prev == st.1
                    }),
                decreases m - k,
            {
                builder::push_char(&mut out, &mut prev, cand_vec[k], sep0, case, expand_symbols);
                k = k + 1;
                proof {
                    assert(cand_vec@.take(k as int) =~= cand_vec@.take(k - 1).push(
                        cand_vec@[k - 1],
                    ));
                    model::lemma_run_chars_snoc(
                        st_before,
                        cand_vec@.take(k - 1),
                        cand_vec@[k - 1],
                        sep0,
                        case,
                        expand_symbols,
                    );
                }
            }
            proof {
                assert(cand_vec@.take(m as int) =~= cand_vec@);
            }
        }
        j = j + 1;
        proof {
            assert(s@.take(j as int) =~= s@.take(j - 1).push(s@[j - 1]));
            model::lemma_run_input_snoc(
                model::initial_state(),
                s@.take(j - 1),
                s@[j - 1],
                sep@,
                case,
                expand_symbols,
            );
        }
    }
    proof {
        assert(s@.take(n as int) =~= s@);
    }

    if out.len() > 0 && out[out.len() - 1] == sep0 {
        out.pop();
    }
    proof {
        let w = model::run_input(model::initial_state(), s@, sep@, case, expand_symbols).0;
        assert(out@ =~= model::trim_trailing(w, sep0));
    }
    Ok(chars_to_string(&out))
}

} // verus!
