//! Rewriting of matched spans of text, one case style per replacer.
use vstd::prelude::*;
use crate::case::Case;
use crate::transform::{camel, snake, transformed, write_word_camel, write_word_snake};

verus! {

/// Rewrites each span it is handed into `case`.
#[derive(Debug, Clone, Copy)]
pub struct Replacer {
    pub case: Case,
}

impl Replacer {
    /// Appends the camel form of `chars` to `dst`.
    pub fn append_cammel(&self, chars: &str, dst: &mut String)
        ensures
            final(dst)@ == old(dst)@ + camel(chars@),
    {
        write_word_camel(chars, dst);
    }

    /// Appends the snake form of `chars` to `dst`.
    pub fn append_snake(&self, chars: &str, dst: &mut String)
        ensures
            final(dst)@ == old(dst)@ + snake(chars@),
    {
        write_word_snake(chars, dst);
    }

    /// Appends the form of the matched span `matched` in this replacer's case
    /// to `dst`.
    pub fn replace_append(&mut self, matched: &str, dst: &mut String)
        ensures
            *final(self) == *old(self),
            final(dst)@ == old(dst)@ + transformed(matched@, old(self).case),
    {
        match self.case {
            Case::Snake => self.append_snake(matched, dst),
            Case::Camel => self.append_cammel(matched, dst),
        }
    }
}

} // verus!
