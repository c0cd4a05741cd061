//! The case style a conversion produces.
use vstd::prelude::*;

verus! {

/// Target case style.
#[derive(Debug, Clone, Copy, PartialEq, Eq, Structural)]
pub enum Case {
    Snake,
    Camel,
}

/// The case that `name` selects: `snake` or `s`, `camel` or `c`.
pub open spec fn case_named(name: Seq<char>) -> Option<Case> {
    if name == "snake"@ || name == "s"@ {
        Some(Case::Snake)
    } else if name == "camel"@ || name == "c"@ {
        Some(Case::Camel)
    } else {
        None
    }
}

fn chars_equal(s: &str, t: &str) -> (r: bool)
    ensures
        r == (s@ == t@),
{
    let n = s.unicode_len();
    if n != t.unicode_len() {
        return false;
    }
    let mut i: usize = 0;
    while i < n
        invariant
            n == s@.len(),
            n == t@.len(),
            i <= n,
            forall|j: int| 0 <= j < i ==> s@[j] == t@[j],
        decreases n - i,
    {
        if s.get_char(i) != t.get_char(i) {
            return false;
        }
        i = i + 1;
    }
    proof {
        assert(s@ =~= t@);
    }
    true
}

impl Case {
    /// Parses a case name: `snake` or `s`, `camel` or `c`.
    pub fn from_name(name: &str) -> (r: Option<Case>)
        ensures
            r == case_named(name@),
    {
        if chars_equal(name, "snake") || chars_equal(name, "s") {
            Some(Case::Snake)
        } else if chars_equal(name, "camel") || chars_equal(name, "c") {
            Some(Case::Camel)
        } else {
            None
        }
    }
}

impl std::str::FromStr for Case {
    type Err = &'static str;

    fn from_str(s: &str) -> (r: Result<Case, &'static str>)
        ensures
            case_named(s@) is Some ==> r == Ok::<Case, &'static str>(case_named(s@)->Some_0),
            case_named(s@) is None ==> r == Err::<Case, &'static str>("Invalid case name"),
    {
        match Case::from_name(s) {
            Some(case) => Ok(case),
            None => Err("Invalid case name"),
        }
    }
}

} // verus!
