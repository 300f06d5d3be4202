//! The executable slug builder: one function per step of the model in
//! `crate::model`, each proved to compute exactly the corresponding step.

use vstd::prelude::*;
use crate::ascii::{char_is_alnum, char_apply_case};
use crate::model::{step_plain, step_char, run_plain, expansion, is_expandable};
use crate::Case;

verus! {

/// Consume one candidate character without symbol expansion: emit a letter
/// or digit (case-adjusted), or collapse anything else into at most one
/// separator character.
pub(crate) fn push_plain(out: &mut Vec<char>, prev: &mut bool, x: char, sep0: char, case: Case)
    ensures
        ({
            let st = step_plain((old(out)@, *old(prev)), x, sep0, case);
            final(out)@ == st.0 && *final(prev) == st.1
        }),
{
    if char_is_alnum(x) {
        out.push(char_apply_case(x, case));
        *prev = false;
    } else if !*prev {
        out.push(sep0);
        *prev = true;
    }
}

/// Consume one candidate character: with `expand` set, `@` and `&` are
/// replaced by their separator-framed words; every other character takes
/// the plain step.
pub(crate) fn push_char(
    out: &mut Vec<char>,
    prev: &mut bool,
    x: char,
    sep0: char,
    case: Case,
    expand: bool,
)
    ensures
        ({
            let st = step_char((old(out)@, *old(prev)), x, sep0, case, expand);
            final(out)@ == st.0 && *final(prev) == st.1
        }),
{
    if expand && (x == '@' || x == '&') {
        proof {
            reveal_with_fuel(run_plain, 7);
            assert(is_expandable(x));
        }
        let ghost st0 = (out@, *prev);
        push_plain(out, prev, sep0, sep0, case);
        push_plain(out, prev, 'a', sep0, case);
        if x == '@' {
            push_plain(out, prev, 't', sep0, case);
            push_plain(out, prev, sep0, sep0, case);
            proof {
                let e = expansion(x, sep0);
                assert(e == seq![sep0, 'a', 't', sep0]);
                assert(e.drop_first() =~= seq!['a', 't', sep0]);
                assert(e.drop_first().drop_first() =~= seq!['t', sep0]);
                assert(e.drop_first().drop_first().drop_first() =~= seq![sep0]);
                assert(e.drop_first().drop_first().drop_first().drop_first() =~= Seq::<
                    char,
                >::empty());
                assert((out@, *prev) == run_plain(st0, e, sep0, case));
            }
        } else {
            push_plain(out, prev, 'n', sep0, case);
            push_plain(out, prev, 'd', sep0, case);
            push_plain(out, prev, sep0, sep0, case);
            proof {
                let e = expansion(x, sep0);
                assert(e == seq![sep0, 'a', 'n', 'd', sep0]);
                assert(e.drop_first() =~= seq!['a', 'n', 'd', sep0]);
                assert(e.drop_first().drop_first() =~= seq!['n', 'd', sep0]);
                assert(e.drop_first().drop_first().drop_first() =~= seq!['d', sep0]);
                assert(e.drop_first().drop_first().drop_first().drop_first() =~= seq![sep0]);
                assert(e.drop_first().drop_first().drop_first().drop_first().drop_first() =~= Seq::<
                    char,
                >::empty());
                assert((out@, *prev) == run_plain(st0, e, sep0, case));
            }
        }
    } else {
        push_plain(out, prev, x, sep0, case);
    }
}

} // verus!
