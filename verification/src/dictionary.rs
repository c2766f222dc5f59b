//! The dictionary: the fixed set of words that a block may hold.
//!
//! It is built once, from the words handed to [`Dictionary::new`], and only
//! read afterwards.

use vstd::prelude::*;
use crate::words::{views_of, WordSet};

verus! {

/// The set of valid words.
#[derive(Debug)]
pub struct Dictionary {
    words: WordSet,
}

impl View for Dictionary {
    type V = Set<Seq<char>>;

    closed spec fn view(&self) -> Set<Seq<char>> {
        self.words@.to_set()
    }
}

impl Dictionary {
    /// The words are kept in order and without repetition.
    pub closed spec fn wf(&self) -> bool {
        self.words.wf()
    }

    /// The dictionary of the words of `words`.
    pub fn new(words: Vec<String>) -> (dictionary: Dictionary)
        ensures
            dictionary.wf(),
            dictionary@ == views_of(words@).to_set(),
    {
        Dictionary { words: WordSet::from_words(words) }
    }

    /// Whether `token` is a word of the dictionary.
    pub fn contains(&self, token: &str) -> (found: bool)
        requires
            self.wf(),
        ensures
            found == self@.contains(token@),
    {
        self.words.contains(token)
    }

    /// Whether every word of `words` is a word of the dictionary.
    pub fn contains_all(&self, words: &WordSet) -> (all: bool)
        requires
            self.wf(),
        ensures
            all == words@.to_set().subset_of(self@),
    {
        words.is_subset(&self.words)
    }

    /// The number of words.
    pub fn len(&self) -> (n: usize)
        requires
            self.wf(),
        ensures
            n == self@.len(),
    {
        self.words.len()
    }
}

} // verus!
