//! Whole-unit conversion: each unit of the input that some pattern matches
//! anywhere is rewritten in full; every other unit is copied as it is.
use vstd::prelude::*;
use crate::case::Case;
use crate::matcher::{pattern_matches, pattern_views, set_compiles, set_matches, Matcher, PatternCompileError};
use crate::tokenize::{lemma_units_rebuild, split_units, string_views, units};
use crate::transform::{append_converted_word, transformed};

verus! {

/// What the conversion writes for one unit.
pub open spec fn unit_output(unit: Seq<char>, patterns: Seq<Seq<char>>, case: Case) -> Seq<char> {
    if set_matches(patterns, unit) {
        transformed(unit, case)
    } else {
        unit
    }
}

/// What the conversion writes for each unit, in order.
pub open spec fn unit_outputs(us: Seq<Seq<char>>, patterns: Seq<Seq<char>>, case: Case) -> Seq<
    Seq<char>,
> {
    us.map_values(|u: Seq<char>| unit_output(u, patterns, case))
}

/// The converted text: the outputs of the units of `s`, joined in order.
pub open spec fn converted(s: Seq<char>, patterns: Seq<Seq<char>>, case: Case) -> Seq<char> {
    unit_outputs(units(s), patterns, case).flatten()
}

/// Converts, in `input`, the case of each unit that one of `patterns`
/// matches; fails, converting nothing, if the patterns do not compile.
pub fn convert(input: &str, patterns: &[&str], case: Case) -> (r: Result<
    String,
    PatternCompileError,
>)
    ensures
        r is Ok <==> set_compiles(pattern_views(patterns@)),
        r is Ok ==> r->Ok_0@ == converted(input@, pattern_views(patterns@), case),
        patterns@.len() == 0 ==> r is Ok && r->Ok_0@ == input@,
{
    let matcher = match Matcher::new(patterns) {
        Ok(m) => m,
        Err(e) => {
            return Err(e);
        },
    };
    let ghost pats = pattern_views(patterns@);
    let words = split_units(input);
    let ghost us = string_views(words@);
    let mut res = String::new();
    let mut i: usize = 0;
    while i < words.len()
        invariant
            i <= words@.len(),
            us == string_views(words@),
            us == units(input@),
            matcher.patterns() == pats,
            res@ == unit_outputs(us.take(i as int), pats, case).flatten(),
            pats.len() == 0 ==> res@ == us.take(i as int).flatten(),
        decreases words@.len() - i,
    {
        let word = words[i].as_str();
        let ghost before = res@;
        if matcher.is_match(word) {
            append_converted_word(word, &mut res, case);
        } else {
            res.append(word);
        }
        proof {
            let done = unit_outputs(us.take(i as int), pats, case);
            assert(unit_outputs(us.take(i + 1), pats, case) =~= done.push(
                unit_output(us[i as int], pats, case),
            ));
            done.lemma_flatten_push(unit_output(us[i as int], pats, case));
            assert(us.take(i + 1) =~= us.take(i as int).push(us[i as int]));
            us.take(i as int).lemma_flatten_push(us[i as int]);
        }
        i = i + 1;
    }
    proof {
        assert(us.take(us.len() as int) == us);
        lemma_units_rebuild(input@);
    }
    Ok(res)
}

/// Units that no pattern matches come through unchanged, and the output is
/// the units' outputs joined in order.
pub proof fn lemma_unmatched_units_kept(s: Seq<char>, patterns: Seq<Seq<char>>, case: Case)
    ensures
        converted(s, patterns, case) == unit_outputs(units(s), patterns, case).flatten(),
        unit_outputs(units(s), patterns, case).len() == units(s).len(),
        forall|i: int|
            0 <= i < units(s).len() && !set_matches(patterns, #[trigger] units(s)[i])
                ==> unit_outputs(units(s), patterns, case)[i] == units(s)[i],
{
}

/// Only which patterns are given matters, not their order or repetition:
/// two pattern lists holding the same patterns convert alike.
pub proof fn lemma_pattern_order_irrelevant(
    s: Seq<char>,
    p: Seq<Seq<char>>,
    q: Seq<Seq<char>>,
    case: Case,
)
    requires
        p.to_set() == q.to_set(),
    ensures
        converted(s, p, case) == converted(s, q, case),
{
    assert forall|u: Seq<char>| set_matches(p, u) == set_matches(q, u) by {
        if set_matches(p, u) {
            let i = choose|i: int| 0 <= i < p.len() && pattern_matches(#[trigger] p[i], u);
            assert(p.to_set().contains(p[i]));
            assert(q.to_set().contains(p[i]));
            let j = choose|j: int| 0 <= j < q.len() && q[j] == p[i];
            assert(pattern_matches(q[j], u));
        }
        if set_matches(q, u) {
            let j = choose|j: int| 0 <= j < q.len() && pattern_matches(#[trigger] q[j], u);
            assert(q.to_set().contains(q[j]));
            assert(p.to_set().contains(q[j]));
            let i = choose|i: int| 0 <= i < p.len() && p[i] == q[j];
            assert(pattern_matches(p[i], u));
        }
    }
    assert(unit_outputs(units(s), p, case) =~= unit_outputs(units(s), q, case));
}

} // verus!
