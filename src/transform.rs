//! The two case rewriters, each a one-flag state machine over characters.
use vstd::prelude::*;
use crate::case::Case;
use crate::chars::{
    at_boundary, ascii_lower, ascii_upper, char_is_uppercase, char_is_whitespace, char_to_ascii_lowercase,
    char_to_ascii_uppercase, is_upper, push_char,
};

verus! {

/// What the snake rewriter emits for `c` in the given state.
pub open spec fn snake_char(c: char, boundary: bool) -> Seq<char> {
    if is_upper(c) && !boundary {
        seq!['_', ascii_lower(c)]
    } else {
        seq![ascii_lower(c)]
    }
}

/// The snake form of `s`: every character lowercased (ASCII), with an
/// underscore before each uppercase character that neither starts `s` nor
/// follows whitespace.
pub open spec fn snake(s: Seq<char>) -> Seq<char>
    decreases s.len(),
{
    if s.len() == 0 {
        seq![]
    } else {
        snake(s.drop_last()) + snake_char(s.last(), at_boundary(s.drop_last()))
    }
}

/// Whether `c` separates words in snake or kebab form.
pub open spec fn is_separator(c: char) -> bool {
    c == '_' || c == '-'
}

/// State of the camel rewriter: whether the previous character was a
/// separator, so that the next kept character is promoted.
pub open spec fn promote_pending(prefix: Seq<char>) -> bool {
    prefix.len() > 0 && is_separator(prefix.last())
}

/// What the camel rewriter emits for `c` in the given state.
pub open spec fn camel_char(c: char, pending: bool) -> Seq<char> {
    if is_separator(c) {
        seq![]
    } else if pending {
        seq![ascii_upper(c)]
    } else {
        seq![c]
    }
}

/// The camel form of `s`: separators removed, each character right after a
/// run of separators uppercased (ASCII), every other character kept.
pub open spec fn camel(s: Seq<char>) -> Seq<char>
    decreases s.len(),
{
    if s.len() == 0 {
        seq![]
    } else {
        camel(s.drop_last()) + camel_char(s.last(), promote_pending(s.drop_last()))
    }
}

/// State of the snake rewriter between two characters.
#[derive(Debug, Clone, Copy, PartialEq, Eq, Structural)]
pub enum SnakeState {
    /// At the start of the text or right after whitespace.
    Boundary,
    /// Inside a word.
    Interior,
}

/// State of the camel rewriter between two characters.
#[derive(Debug, Clone, Copy, PartialEq, Eq, Structural)]
pub enum CamelState {
    /// The next kept character is copied as it is.
    Idle,
    /// A separator was dropped: the next kept character is uppercased.
    PromotePending,
}

/// Appends the snake form of `word` to `dst`.
pub fn write_word_snake(word: &str, dst: &mut String)
    ensures
        final(dst)@ == old(dst)@ + snake(word@),
{
    let mut state = SnakeState::Boundary;
    for c in it: word.chars()
        invariant
            it.seq() == word@,
            (state == SnakeState::Boundary) == at_boundary(word@.take(it.index() as int)),
            dst@ == old(dst)@ + snake(word@.take(it.index() as int)),
    {
        let ghost prefix = word@.take(it.index() as int);
        proof {
            assert(word@.take(it.index() + 1).drop_last() == prefix);
        }
        if char_is_uppercase(c) && state == SnakeState::Interior {
            push_char(dst, '_');
        }
        state = if char_is_whitespace(c) {
            SnakeState::Boundary
        } else {
            SnakeState::Interior
        };
        push_char(dst, char_to_ascii_lowercase(c));
    }
    proof {
        assert(word@.take(word@.len() as int) == word@);
    }
}

/// Appends the camel form of `word` to `dst`.
pub fn write_word_camel(word: &str, dst: &mut String)
    ensures
        final(dst)@ == old(dst)@ + camel(word@),
{
    let mut state = CamelState::Idle;
    for c in it: word.chars()
        invariant
            it.seq() == word@,
            (state == CamelState::PromotePending) == promote_pending(
                word@.take(it.index() as int),
            ),
            dst@ == old(dst)@ + camel(word@.take(it.index() as int)),
    {
        let ghost prefix = word@.take(it.index() as int);
        proof {
            assert(word@.take(it.index() + 1).drop_last() == prefix);
        }
        if c == '_' || c == '-' {
            state = CamelState::PromotePending;
            proof {
                assert(dst@ == old(dst)@ + camel(prefix) + camel_char(c, promote_pending(prefix)));
            }
        } else if state == CamelState::PromotePending {
            state = CamelState::Idle;
            push_char(dst, char_to_ascii_uppercase(c));
        } else {
            push_char(dst, c);
        }
    }
    proof {
        assert(word@.take(word@.len() as int) == word@);
    }
}

/// The form of `word` in the given case.
pub open spec fn transformed(word: Seq<char>, case: Case) -> Seq<char> {
    match case {
        Case::Snake => snake(word),
        Case::Camel => camel(word),
    }
}

/// Appends the form of `word` in `case` to `dst`.
pub fn append_converted_word(word: &str, dst: &mut String, case: Case)
    ensures
        final(dst)@ == old(dst)@ + transformed(word@, case),
{
    match case {
        Case::Snake => write_word_snake(word, dst),
        Case::Camel => write_word_camel(word, dst),
    }
}

proof fn lemma_camel_has_no_separator(s: Seq<char>)
    ensures
        forall|i: int| 0 <= i < camel(s).len() ==> !is_separator(#[trigger] camel(s)[i]),
    decreases s.len(),
{
    if s.len() > 0 {
        let c = s.last();
        lemma_camel_has_no_separator(s.drop_last());
        assert(!is_separator(c) ==> !is_separator(ascii_upper(c)));
        let tail = camel_char(c, promote_pending(s.drop_last()));
        assert(forall|i: int| 0 <= i < tail.len() ==> !is_separator(#[trigger] tail[i]));
        assert forall|i: int| 0 <= i < camel(s).len() implies !is_separator(#[trigger] camel(s)[i]) by {
            if i >= camel(s.drop_last()).len() {
                assert(camel(s)[i] == tail[i - camel(s.drop_last()).len()]);
            }
        }
    }
}

proof fn lemma_camel_keeps_separator_free(t: Seq<char>)
    requires
        forall|i: int| 0 <= i < t.len() ==> !is_separator(#[trigger] t[i]),
    ensures
        camel(t) == t,
    decreases t.len(),
{
    if t.len() > 0 {
        lemma_camel_keeps_separator_free(t.drop_last());
        assert(t.drop_last().push(t.last()) == t);
    }
}

/// Camel form is idempotent: a second pass finds no separator left and
/// changes nothing.
pub proof fn lemma_camel_idempotent(s: Seq<char>)
    ensures
        camel(camel(s)) == camel(s),
{
    lemma_camel_has_no_separator(s);
    lemma_camel_keeps_separator_free(camel(s));
}

/// Whether `c` is an ASCII lowercase letter, an ASCII digit, an underscore or
/// ASCII whitespace.
pub open spec fn is_plain_lower(c: char) -> bool {
    ('a' <= c && c <= 'z') || ('0' <= c && c <= '9') || c == '_' || c == ' ' || ('\t' <= c
        && c <= '\r')
}

/// Snake form leaves text of lowercase letters, digits, underscores and
/// whitespace as it is.
pub proof fn lemma_snake_keeps_plain_lower(s: Seq<char>)
    requires
        forall|i: int| 0 <= i < s.len() ==> is_plain_lower(#[trigger] s[i]),
    ensures
        snake(s) == s,
    decreases s.len(),
{
    if s.len() > 0 {
        lemma_snake_keeps_plain_lower(s.drop_last());
        assert(is_plain_lower(s[s.len() - 1]));
        assert(s.drop_last().push(s.last()) == s);
    }
}

} // verus!
