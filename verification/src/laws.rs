//! The guarantees of the slug transformation, stated and proved over the
//! model in `crate::model`.
//!
//! All of them hold for any separator whose first character is not itself
//! an ASCII letter or digit (an alphanumeric separator character merges
//! with the content around it, and none of these shapes survive that).

use vstd::prelude::*;
use crate::ascii::{is_alnum, is_lower, is_upper, is_ascii_char, all_ascii, apply_case};
use crate::ascii::lemma_apply_case_alnum;
use crate::model::{
    initial_state, step_plain, run_plain, step_char, run_chars, candidate_of, step_input,
    run_input, trim_trailing, slug_chars, expansion, is_expandable, lemma_run_input_snoc,
};
use crate::Case;

verus! {

/// A character a slug may contain: a letter or digit that the case mode
/// leaves unchanged, or the separator character itself.
pub open spec fn char_ok(c: char, sep0: char, case: Case) -> bool {
    (is_alnum(c) && apply_case(c, case) == c) || c == sep0
}

/// No separator character of `w` is immediately followed by another.
pub open spec fn no_double_sep(w: Seq<char>, sep0: char) -> bool {
    forall|i: int| 0 <= i && i + 1 < w.len() && #[trigger] w[i] == sep0 ==> w[i + 1] != sep0
}

/// The output shape of the transformation: only permitted characters,
/// no separator at either boundary, and no two separators in a row.
/// For a lowercase run this is exactly the regular grammar
/// "letter-or-digit groups joined by single separators, or empty".
pub open spec fn well_formed_slug(w: Seq<char>, sep0: char, case: Case) -> bool {
    &&& forall|i: int| 0 <= i < w.len() ==> char_ok(#[trigger] w[i], sep0, case)
    &&& w.len() > 0 ==> w[0] != sep0
    &&& w.len() > 0 ==> w.last() != sep0
    &&& no_double_sep(w, sep0)
}

/// The invariant the builder state keeps at every step: the output so far
/// holds only permitted characters, does not start with the separator,
/// never has two separators in a row, and the flag says exactly whether
/// the output is empty or ends with the separator.
spec fn st_inv(st: (Seq<char>, bool), sep0: char, case: Case) -> bool {
    &&& forall|i: int| 0 <= i < st.0.len() ==> char_ok(#[trigger] st.0[i], sep0, case)
    &&& st.0.len() > 0 ==> st.0[0] != sep0
    &&& no_double_sep(st.0, sep0)
    &&& (st.1 ==> st.0.len() == 0 || st.0.last() == sep0)
    &&& (!st.1 ==> st.0.len() > 0 && st.0.last() != sep0)
}

proof fn lemma_step_plain_inv(st: (Seq<char>, bool), x: char, sep0: char, case: Case)
    requires
        !is_alnum(sep0),
        st_inv(st, sep0, case),
    ensures
        st_inv(step_plain(st, x, sep0, case), sep0, case),
{
    if is_alnum(x) {
        lemma_apply_case_alnum(x, case);
    }
}

proof fn lemma_run_plain_inv(st: (Seq<char>, bool), xs: Seq<char>, sep0: char, case: Case)
    requires
        !is_alnum(sep0),
        st_inv(st, sep0, case),
    ensures
        st_inv(run_plain(st, xs, sep0, case), sep0, case),
    decreases xs.len(),
{
    if xs.len() > 0 {
        lemma_step_plain_inv(st, xs[0], sep0, case);
        lemma_run_plain_inv(step_plain(st, xs[0], sep0, case), xs.drop_first(), sep0, case);
    }
}

proof fn lemma_step_char_inv(st: (Seq<char>, bool), x: char, sep0: char, case: Case, expand: bool)
    requires
        !is_alnum(sep0),
        st_inv(st, sep0, case),
    ensures
        st_inv(step_char(st, x, sep0, case, expand), sep0, case),
{
    if expand && is_expandable(x) {
        lemma_run_plain_inv(st, expansion(x, sep0), sep0, case);
    } else {
        lemma_step_plain_inv(st, x, sep0, case);
    }
}

proof fn lemma_run_chars_inv(
    st: (Seq<char>, bool),
    xs: Seq<char>,
    sep0: char,
    case: Case,
    expand: bool,
)
    requires
        !is_alnum(sep0),
        st_inv(st, sep0, case),
    ensures
        st_inv(run_chars(st, xs, sep0, case, expand), sep0, case),
    decreases xs.len(),
{
    if xs.len() > 0 {
        lemma_step_char_inv(st, xs[0], sep0, case, expand);
        lemma_run_chars_inv(
            step_char(st, xs[0], sep0, case, expand),
            xs.drop_first(),
            sep0,
            case,
            expand,
        );
    }
}

proof fn lemma_run_input_inv(
    st: (Seq<char>, bool),
    s: Seq<char>,
    sep: Seq<char>,
    case: Case,
    expand: bool,
)
    requires
        sep.len() > 0,
        !is_alnum(sep[0]),
        st_inv(st, sep[0], case),
    ensures
        st_inv(run_input(st, s, sep, case, expand), sep[0], case),
    decreases s.len(),
{
    if s.len() > 0 {
        lemma_run_chars_inv(st, candidate_of(s[0], sep), sep[0], case, expand);
        lemma_run_input_inv(step_input(st, s[0], sep, case, expand), s.drop_first(), sep, case, expand);
    }
}

/// The output grammar: whatever the input, the slug holds only letters and
/// digits that the case mode leaves unchanged and single separator
/// characters, with a letter or digit at both ends — that is, nonempty
/// alphanumeric groups joined by one separator each, or the empty string.
pub proof fn lemma_output_grammar(s: Seq<char>, sep: Seq<char>, case: Case, expand: bool)
    requires
        sep.len() > 0,
        !is_alnum(sep[0]),
    ensures
        well_formed_slug(slug_chars(s, sep, case, expand), sep[0], case),
{
    let sep0 = sep[0];
    let st0 = initial_state();
    assert(st_inv(st0, sep0, case));
    lemma_run_input_inv(st0, s, sep, case, expand);
    let st = run_input(st0, s, sep, case, expand);
    let w = trim_trailing(st.0, sep0);
    if st.0.len() > 0 && st.0.last() == sep0 {
        assert(st.0[0] != sep0);
        assert(st.0.len() >= 2);
        assert(w =~= st.0.drop_last());
        assert(w.len() > 0 ==> w.last() == st.0[st.0.len() - 2]);
        assert(st.0[st.0.len() - 2] == sep0 ==> st.0[st.0.len() - 1] != sep0);
    }
}

/// The slug never contains two consecutive separator characters.
pub proof fn lemma_no_consecutive_separators(
    s: Seq<char>,
    sep: Seq<char>,
    case: Case,
    expand: bool,
)
    requires
        sep.len() > 0,
        !is_alnum(sep[0]),
    ensures
        no_double_sep(slug_chars(s, sep, case, expand), sep[0]),
{
    lemma_output_grammar(s, sep, case, expand);
}

/// The slug never starts or ends with the separator character.
pub proof fn lemma_no_boundary_separators(s: Seq<char>, sep: Seq<char>, case: Case, expand: bool)
    requires
        sep.len() > 0,
        !is_alnum(sep[0]),
    ensures
        slug_chars(s, sep, case, expand).len() > 0 ==> slug_chars(s, sep, case, expand)[0]
            != sep[0],
        slug_chars(s, sep, case, expand).len() > 0 ==> slug_chars(s, sep, case, expand).last()
            != sep[0],
{
    lemma_output_grammar(s, sep, case, expand);
}

/// With the uppercase mode, the slug contains no lowercase letter.
pub proof fn lemma_force_upper_no_lowercase(s: Seq<char>, sep: Seq<char>, expand: bool)
    requires
        sep.len() > 0,
        !is_alnum(sep[0]),
    ensures
        forall|i: int|
            0 <= i < slug_chars(s, sep, Case::Upper, expand).len() ==> !is_lower(
                #[trigger] slug_chars(s, sep, Case::Upper, expand)[i],
            ),
{
    lemma_output_grammar(s, sep, Case::Upper, expand);
    let w = slug_chars(s, sep, Case::Upper, expand);
    assert forall|i: int| 0 <= i < w.len() implies !is_lower(#[trigger] w[i]) by {
        assert(char_ok(w[i], sep[0], Case::Upper));
    }
}

/// With the lowercase mode, the slug contains no uppercase letter.
pub proof fn lemma_force_lower_no_uppercase(s: Seq<char>, sep: Seq<char>, expand: bool)
    requires
        sep.len() > 0,
        !is_alnum(sep[0]),
    ensures
        forall|i: int|
            0 <= i < slug_chars(s, sep, Case::Lower, expand).len() ==> !is_upper(
                #[trigger] slug_chars(s, sep, Case::Lower, expand)[i],
            ),
{
    lemma_output_grammar(s, sep, Case::Lower, expand);
    let w = slug_chars(s, sep, Case::Lower, expand);
    assert forall|i: int| 0 <= i < w.len() implies !is_upper(#[trigger] w[i]) by {
        assert(char_ok(w[i], sep[0], Case::Lower));
    }
}

/// The letter-or-digit test, as a value, for use with `Seq::filter`.
pub open spec fn alnum_pred() -> spec_fn(char) -> bool {
    |c: char| is_alnum(c)
}

proof fn lemma_filter_push(xs: Seq<char>, x: char, pred: spec_fn(char) -> bool)
    ensures
        pred(x) ==> xs.push(x).filter(pred) == xs.filter(pred).push(x),
        !pred(x) ==> xs.push(x).filter(pred) == xs.filter(pred),
{
    reveal(Seq::filter);
    assert(xs.push(x).drop_last() =~= xs);
    assert(xs.push(x).last() == x);
}

proof fn lemma_preserve_prefix(s: Seq<char>, sep: Seq<char>, j: int)
    requires
        sep.len() > 0,
        !is_alnum(sep[0]),
        all_ascii(s),
        0 <= j <= s.len(),
    ensures
        run_input(initial_state(), s.take(j), sep, Case::Preserve, false).0.filter(alnum_pred())
            == s.take(j).filter(alnum_pred()),
    decreases j,
{
    let pred = alnum_pred();
    let sep0 = sep[0];
    let st0 = initial_state();
    if j == 0 {
        reveal(Seq::filter);
        assert(s.take(0) =~= Seq::<char>::empty());
        assert(run_input(st0, Seq::<char>::empty(), sep, Case::Preserve, false) == st0);
    } else {
        lemma_preserve_prefix(s, sep, j - 1);
        assert(s.take(j) =~= s.take(j - 1).push(s[j - 1]));
        lemma_run_input_snoc(st0, s.take(j - 1), s[j - 1], sep, Case::Preserve, false);
        let st = run_input(st0, s.take(j - 1), sep, Case::Preserve, false);
        let c = s[j - 1];
        assert(is_ascii_char(c));
        assert(candidate_of(c, sep) == seq![c]);
        reveal_with_fuel(run_chars, 3);
        assert(seq![c].drop_first() =~= Seq::<char>::empty());
        assert(step_input(st, c, sep, Case::Preserve, false) == step_plain(st, c, sep0, Case::Preserve));
        if is_alnum(c) {
            assert(apply_case(c, Case::Preserve) == c);
            lemma_filter_push(st.0, c, pred);
        } else {
            if !st.1 {
                lemma_filter_push(st.0, sep0, pred);
            }
        }
        lemma_filter_push(s.take(j - 1), c, pred);
    }
}

/// Case preservation: with the `Preserve` mode and no symbol expansion, an
/// all-ASCII input keeps exactly its letters and digits, unchanged and in
/// their original order — the slug merely replaces each run of everything
/// else with one separator, at inner positions only.
pub proof fn lemma_preserve_keeps_letters(s: Seq<char>, sep: Seq<char>)
    requires
        sep.len() > 0,
        !is_alnum(sep[0]),
        all_ascii(s),
    ensures
        slug_chars(s, sep, Case::Preserve, false).filter(alnum_pred()) == s.filter(alnum_pred()),
{
    let pred = alnum_pred();
    let sep0 = sep[0];
    lemma_preserve_prefix(s, sep, s.len() as int);
    assert(s.take(s.len() as int) =~= s);
    let w = run_input(initial_state(), s, sep, Case::Preserve, false).0;
    if w.len() > 0 && w.last() == sep0 {
        reveal(Seq::filter);
        assert(trim_trailing(w, sep0) == w.drop_last());
        assert(w.filter(pred) == w.drop_last().filter(pred));
    }
}

proof fn lemma_run_fixed_prefix(w: Seq<char>, sep: Seq<char>, case: Case, expand: bool, j: int)
    requires
        sep.len() > 0,
        is_ascii_char(sep[0]),
        !is_alnum(sep[0]),
        expand ==> !is_expandable(sep[0]),
        well_formed_slug(w, sep[0], case),
        0 <= j <= w.len(),
    ensures
        run_input(initial_state(), w.take(j), sep, case, expand).0 == w.take(j),
        run_input(initial_state(), w.take(j), sep, case, expand).1 == (if j == 0 {
            true
        } else {
            w[j - 1] == sep[0]
        }),
    decreases j,
{
    let sep0 = sep[0];
    let st0 = initial_state();
    if j == 0 {
        assert(w.take(0) =~= Seq::<char>::empty());
        assert(run_input(st0, Seq::<char>::empty(), sep, case, expand) == st0);
    } else {
        lemma_run_fixed_prefix(w, sep, case, expand, j - 1);
        assert(w.take(j) =~= w.take(j - 1).push(w[j - 1]));
        lemma_run_input_snoc(st0, w.take(j - 1), w[j - 1], sep, case, expand);
        let st = run_input(st0, w.take(j - 1), sep, case, expand);
        let c = w[j - 1];
        assert(char_ok(c, sep0, case));
        assert(is_ascii_char(c));
        assert(candidate_of(c, sep) == seq![c]);
        reveal_with_fuel(run_chars, 3);
        assert(seq![c].drop_first() =~= Seq::<char>::empty());
        assert(step_input(st, c, sep, case, expand) == step_char(st, c, sep0, case, expand));
        if is_alnum(c) {
            assert(!is_expandable(c));
            assert(step_char(st, c, sep0, case, expand) == step_plain(st, c, sep0, case));
            assert(st.0.push(apply_case(c, case)) == w.take(j - 1).push(c));
        } else {
            assert(c == sep0);
            assert(j - 1 > 0);
            assert(w[j - 2] != sep0);
            assert(!st.1);
            assert(step_char(st, c, sep0, case, expand) == step_plain(st, c, sep0, case));
        }
    }
}

/// A well-formed slug is a fixed point of the transformation: running it
/// through the builder again, with the same separator, case mode and
/// symbol policy, returns it unchanged. The separator character must be
/// ASCII, not alphanumeric, and, when symbols are expanded, not itself one
/// of the expandable symbols.
pub proof fn lemma_slug_fixed_point(w: Seq<char>, sep: Seq<char>, case: Case, expand: bool)
    requires
        sep.len() > 0,
        is_ascii_char(sep[0]),
        !is_alnum(sep[0]),
        expand ==> !is_expandable(sep[0]),
        well_formed_slug(w, sep[0], case),
    ensures
        slug_chars(w, sep, case, expand) == w,
{
    lemma_run_fixed_prefix(w, sep, case, expand, w.len() as int);
    assert(w.take(w.len() as int) =~= w);
    let st = run_input(initial_state(), w, sep, case, expand);
    assert(st.0 == w);
    assert(trim_trailing(w, sep[0]) == w);
}

/// Idempotence: slugging a slug changes nothing. For any input, separator
/// (ASCII, first character neither alphanumeric nor an expandable symbol
/// when those are expanded), case mode and symbol policy, applying the
/// transformation to its own output returns that output.
pub proof fn lemma_slugify_idempotent(s: Seq<char>, sep: Seq<char>, case: Case, expand: bool)
    requires
        sep.len() > 0,
        is_ascii_char(sep[0]),
        !is_alnum(sep[0]),
        expand ==> !is_expandable(sep[0]),
    ensures
        slug_chars(slug_chars(s, sep, case, expand), sep, case, expand) == slug_chars(
            s,
            sep,
            case,
            expand,
        ),
{
    lemma_output_grammar(s, sep, case, expand);
    lemma_slug_fixed_point(slug_chars(s, sep, case, expand), sep, case, expand);
}

} // verus!
