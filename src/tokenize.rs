//! Splitting text into units: runs of characters that each end right after
//! a whitespace character, or at the end of the text.
use vstd::prelude::*;
use crate::chars::{at_boundary, char_is_whitespace, is_space, push_char};

verus! {

/// The units of `s`, in order: a unit opens at each boundary (the first
/// character, and each character after whitespace), so each whitespace character closes the unit
/// that holds it.
pub open spec fn units(s: Seq<char>) -> Seq<Seq<char>>
    decreases s.len(),
{
    if s.len() == 0 {
        seq![]
    } else {
        let prev = units(s.drop_last());
        if at_boundary(s.drop_last()) {
            prev.push(seq![s.last()])
        } else {
            prev.drop_last().push(prev.last().push(s.last()))
        }
    }
}

/// The views of a list of strings.
pub open spec fn string_views(v: Seq<String>) -> Seq<Seq<char>> {
    v.map_values(|u: String| u@)
}

/// The units of `input`, in order.
pub fn split_units(input: &str) -> (r: Vec<String>)
    ensures
        string_views(r@) == units(input@),
{
    let mut out: Vec<String> = Vec::new();
    let mut cur = String::new();
    for c in it: input.chars()
        invariant
            it.seq() == input@,
            cur@.len() == 0 <==> at_boundary(input@.take(it.index() as int)),
            units(input@.take(it.index() as int)) == if cur@.len() == 0 {
                string_views(out@)
            } else {
                string_views(out@).push(cur@)
            },
    {
        let ghost prefix = input@.take(it.index() as int);
        let ghost next = input@.take(it.index() + 1);
        let ghost before = string_views(out@);
        let ghost old_cur = cur@;
        proof {
            assert(next.drop_last() == prefix);
            assert(next.last() == c);
            if old_cur.len() > 0 {
                assert(units(prefix).drop_last() == before);
                assert(units(prefix).last() == old_cur);
            }
        }
        push_char(&mut cur, c);
        proof {
            if old_cur.len() == 0 {
                assert(cur@ == seq![c]);
            }
            assert(units(next) == before.push(cur@));
        }
        if char_is_whitespace(c) {
            let ghost unit = cur@;
            out.push(cur);
            cur = String::new();
            proof {
                assert(string_views(out@) =~= before.push(unit));
            }
        }
    }
    if !cur.as_str().is_empty() {
        let ghost before = string_views(out@);
        let ghost unit = cur@;
        out.push(cur);
        proof {
            assert(string_views(out@) =~= before.push(unit));
        }
    }
    proof {
        assert(input@.take(input@.len() as int) == input@);
    }
    out
}

/// Joining the units of `s` in order gives `s` back.
pub proof fn lemma_units_rebuild(s: Seq<char>)
    ensures
        units(s).flatten() == s,
        s.len() > 0 ==> units(s).len() > 0,
    decreases s.len(),
{
    if s.len() > 0 {
        let prev = units(s.drop_last());
        lemma_units_rebuild(s.drop_last());
        if at_boundary(s.drop_last()) {
            prev.lemma_flatten_push(seq![s.last()]);
        } else {
            let init = prev.drop_last();
            assert(init.push(prev.last()) == prev);
            init.lemma_flatten_push(prev.last());
            init.lemma_flatten_push(prev.last().push(s.last()));
        }
        assert(s.drop_last().push(s.last()) == s);
    }
}

/// Each unit is non-empty and holds whitespace at most as its last
/// character; every unit but the last ends in whitespace; the last unit ends
/// with the last character of `s`.
pub proof fn lemma_units_shape(s: Seq<char>)
    ensures
        forall|k: int| 0 <= k < units(s).len() ==> #[trigger] units(s)[k].len() > 0,
        forall|k: int, j: int|
            0 <= k < units(s).len() && 0 <= j < units(s)[k].len() - 1 ==> !is_space(
                #[trigger] units(s)[k][j],
            ),
        forall|k: int| 0 <= k < units(s).len() - 1 ==> is_space(#[trigger] units(s)[k].last()),
        s.len() > 0 ==> units(s).len() > 0 && units(s).last().last() == s.last(),
    decreases s.len(),
{
    if s.len() > 0 {
        let p = s.drop_last();
        let c = s.last();
        let prev = units(p);
        let now = units(s);
        lemma_units_shape(p);
        if at_boundary(p) {
            assert(now == prev.push(seq![c]));
            assert forall|k: int| 0 <= k < now.len() - 1 implies is_space(#[trigger] now[k].last()) by {
                assert(now[k] == prev[k]);
            }
            assert forall|k: int, j: int|
                0 <= k < now.len() && 0 <= j < now[k].len() - 1 implies !is_space(
                    #[trigger] now[k][j],
                ) by {
                assert(now[k] == prev[k]);
            }
        } else {
            let u = prev.last().push(c);
            assert(now == prev.drop_last().push(u));
            assert forall|k: int| 0 <= k < now.len() - 1 implies is_space(#[trigger] now[k].last()) by {
                assert(now[k] == prev[k]);
            }
            assert forall|k: int, j: int|
                0 <= k < now.len() && 0 <= j < now[k].len() - 1 implies !is_space(
                    #[trigger] now[k][j],
                ) by {
                if k < now.len() - 1 {
                    assert(now[k] == prev[k]);
                } else {
                    assert(now[k] == u);
                    assert(u[j] == prev.last()[j]);
                    if j == prev.last().len() - 1 {
                        assert(prev.last().last() == p.last());
                    } else {
                        assert(prev[prev.len() - 1][j] == prev.last()[j]);
                    }
                }
            }
            assert forall|k: int| 0 <= k < now.len() implies #[trigger] now[k].len() > 0 by {
                if k < now.len() - 1 {
                    assert(now[k] == prev[k]);
                }
            }
        }
    }
}

} // verus!
