//! The mathematical model of the slug builder.
//!
//! The builder is a left-to-right state machine. Its state is the output
//! accumulated so far together with one flag: whether the last emitted
//! character was the separator (initially true, so a leading separator is
//! never emitted). The functions here define, purely over sequences, what
//! the executable builder computes; `slug_chars` is the whole
//! transformation, and the contract of `crate::slugify` is stated with it.

use vstd::prelude::*;
use crate::ascii::{is_alnum, is_ascii_char, apply_case};
use crate::translit::translit_of;
use crate::Case;

verus! {

/// The builder state before any character has been consumed: empty output,
/// and the separator flag set so that no leading separator is emitted.
pub open spec fn initial_state() -> (Seq<char>, bool) {
    (Seq::<char>::empty(), true)
}

/// One step of the builder on a single candidate character, with no symbol
/// expansion: a letter or digit is emitted (case-adjusted) and clears the
/// separator flag; anything else emits the separator character once per
/// run, and nothing when the flag is already set.
pub open spec fn step_plain(st: (Seq<char>, bool), x: char, sep0: char, case: Case) -> (Seq<
    char,
>, bool) {
    if is_alnum(x) {
        (st.0.push(apply_case(x, case)), false)
    } else if st.1 {
        st
    } else {
        (st.0.push(sep0), true)
    }
}

/// The builder run over a whole sequence of candidate characters, with no
/// symbol expansion.
pub open spec fn run_plain(st: (Seq<char>, bool), xs: Seq<char>, sep0: char, case: Case) -> (Seq<
    char,
>, bool)
    decreases xs.len(),
{
    if xs.len() == 0 {
        st
    } else {
        run_plain(step_plain(st, xs[0], sep0, case), xs.drop_first(), sep0, case)
    }
}

/// True when `x` is one of the two symbols that the extended mode expands
/// to a word instead of collapsing to a separator.
pub open spec fn is_expandable(x: char) -> bool {
    x == '@' || x == '&'
}

/// The character sequence that an expandable symbol stands for: its word,
/// framed by the separator on both sides. The frame goes through the plain
/// builder step, so a frame separator at the start of the output or next
/// to another separator is still collapsed.
pub open spec fn expansion(x: char, sep0: char) -> Seq<char> {
    if x == '@' {
        seq![sep0, 'a', 't', sep0]
    } else {
        seq![sep0, 'a', 'n', 'd', sep0]
    }
}

/// One step of the builder on a candidate character. With `expand` set,
/// `@` and `&` are replaced by their framed words and fed through the
/// plain builder; every other character takes the plain step.
pub open spec fn step_char(
    st: (Seq<char>, bool),
    x: char,
    sep0: char,
    case: Case,
    expand: bool,
) -> (Seq<char>, bool) {
    if expand && is_expandable(x) {
        run_plain(st, expansion(x, sep0), sep0, case)
    } else {
        step_plain(st, x, sep0, case)
    }
}

/// The builder run over a whole sequence of candidate characters.
pub open spec fn run_chars(
    st: (Seq<char>, bool),
    xs: Seq<char>,
    sep0: char,
    case: Case,
    expand: bool,
) -> (Seq<char>, bool)
    decreases xs.len(),
{
    if xs.len() == 0 {
        st
    } else {
        run_chars(step_char(st, xs[0], sep0, case, expand), xs.drop_first(), sep0, case, expand)
    }
}

/// The candidate characters that one input code point contributes: an
/// ASCII code point stands for itself; any other code point is replaced by
/// its transliteration, or by the separator sequence when the table has no
/// entry for it (which guarantees a visible break).
pub open spec fn candidate_of(c: char, sep: Seq<char>) -> Seq<char> {
    if is_ascii_char(c) {
        seq![c]
    } else {
        match translit_of(c) {
            Some(t) => t,
            None => sep,
        }
    }
}

/// The builder consuming one input code point: all of its candidate
/// characters, in order.
pub open spec fn step_input(
    st: (Seq<char>, bool),
    c: char,
    sep: Seq<char>,
    case: Case,
    expand: bool,
) -> (Seq<char>, bool)
    recommends
        sep.len() > 0,
{
    run_chars(st, candidate_of(c, sep), sep[0], case, expand)
}

/// The builder run over the whole input.
pub open spec fn run_input(
    st: (Seq<char>, bool),
    s: Seq<char>,
    sep: Seq<char>,
    case: Case,
    expand: bool,
) -> (Seq<char>, bool)
    recommends
        sep.len() > 0,
    decreases s.len(),
{
    if s.len() == 0 {
        st
    } else {
        run_input(step_input(st, s[0], sep, case, expand), s.drop_first(), sep, case, expand)
    }
}

/// Drop one trailing separator character, if the output ends with one.
pub open spec fn trim_trailing(w: Seq<char>, sep0: char) -> Seq<char> {
    if w.len() > 0 && w.last() == sep0 {
        w.drop_last()
    } else {
        w
    }
}

/// The slug of `s`: the builder run over every candidate character of the
/// input, with a trailing separator removed. Only the first character of
/// the separator sequence is ever emitted.
pub open spec fn slug_chars(s: Seq<char>, sep: Seq<char>, case: Case, expand: bool) -> Seq<char>
    recommends
        sep.len() > 0,
{
    trim_trailing(run_input(initial_state(), s, sep, case, expand).0, sep[0])
}

/// Running the plain builder over `xs` and then one more character is one
/// plain step after running it over `xs`.
pub proof fn lemma_run_plain_snoc(st: (Seq<char>, bool), xs: Seq<char>, x: char, sep0: char, case: Case)
    ensures
        run_plain(st, xs.push(x), sep0, case) == step_plain(run_plain(st, xs, sep0, case), x, sep0, case),
    decreases xs.len(),
{
    if xs.len() == 0 {
        assert(xs.push(x).drop_first() =~= Seq::<char>::empty());
        assert(run_plain(st, xs, sep0, case) == st);
        assert(run_plain(step_plain(st, x, sep0, case), Seq::<char>::empty(), sep0, case)
            == step_plain(st, x, sep0, case));
    } else {
        assert(xs.push(x).drop_first() =~= xs.drop_first().push(x));
        assert(run_plain(st, xs.push(x), sep0, case) == run_plain(
            step_plain(st, xs[0], sep0, case),
            xs.drop_first().push(x),
            sep0,
            case,
        ));
        lemma_run_plain_snoc(step_plain(st, xs[0], sep0, case), xs.drop_first(), x, sep0, case);
    }
}

/// Running the builder over `xs` and then one more character is one step
/// after running it over `xs`.
pub proof fn lemma_run_chars_snoc(
    st: (Seq<char>, bool),
    xs: Seq<char>,
    x: char,
    sep0: char,
    case: Case,
    expand: bool,
)
    ensures
        run_chars(st, xs.push(x), sep0, case, expand) == step_char(
            run_chars(st, xs, sep0, case, expand),
            x,
            sep0,
            case,
            expand,
        ),
    decreases xs.len(),
{
    if xs.len() == 0 {
        assert(xs.push(x).drop_first() =~= Seq::<char>::empty());
        assert(run_chars(st, xs, sep0, case, expand) == st);
        assert(run_chars(step_char(st, x, sep0, case, expand), Seq::<char>::empty(), sep0, case, expand)
            == step_char(st, x, sep0, case, expand));
    } else {
        assert(xs.push(x).drop_first() =~= xs.drop_first().push(x));
        assert(run_chars(st, xs.push(x), sep0, case, expand) == run_chars(
            step_char(st, xs[0], sep0, case, expand),
            xs.drop_first().push(x),
            sep0,
            case,
            expand,
        ));
        lemma_run_chars_snoc(
            step_char(st, xs[0], sep0, case, expand),
            xs.drop_first(),
            x,
            sep0,
            case,
            expand,
        );
    }
}

/// Running the builder over the input `s` and then one more code point is
/// one input step after running it over `s`.
pub proof fn lemma_run_input_snoc(
    st: (Seq<char>, bool),
    s: Seq<char>,
    c: char,
    sep: Seq<char>,
    case: Case,
    expand: bool,
)
    ensures
        run_input(st, s.push(c), sep, case, expand) == step_input(
            run_input(st, s, sep, case, expand),
            c,
            sep,
            case,
            expand,
        ),
    decreases s.len(),
{
    if s.len() == 0 {
        assert(s.push(c).drop_first() =~= Seq::<char>::empty());
        assert(run_input(st, s, sep, case, expand) == st);
        assert(run_input(step_input(st, c, sep, case, expand), Seq::<char>::empty(), sep, case, expand)
            == step_input(st, c, sep, case, expand));
    } else {
        assert(s.push(c).drop_first() =~= s.drop_first().push(c));
        assert(run_input(st, s.push(c), sep, case, expand) == run_input(
            step_input(st, s[0], sep, case, expand),
            s.drop_first().push(c),
            sep,
            case,
            expand,
        ));
        lemma_run_input_snoc(step_input(st, s[0], sep, case, expand), s.drop_first(), c, sep, case, expand);
    }
}

} // verus!
