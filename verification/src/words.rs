//! The round-robin list of target words.
//!
//! A `Words` value holds an ordered, non-empty list of target words and the
//! index of the currently active one. The list is fixed at construction;
//! the only mutation is `next_word`, which steps the index forward and
//! wraps past the last word back to the first.

use vstd::prelude::*;

verus! {

/// Returned when a word cycle is asked to start from an empty list.
#[derive(Debug, Clone, Copy, PartialEq, Eq, Structural)]
pub struct EmptyWordListError;

/// The index that follows `i` when stepping through a cycle of `len` words.
pub open spec fn next_index(i: int, len: int) -> int {
    if i + 1 < len {
        i + 1
    } else {
        0
    }
}

/// The index reached from `i` after `n` single steps through `len` words.
pub open spec fn index_after(i: int, n: nat, len: int) -> int
    decreases n,
{
    if n == 0 {
        i
    } else {
        next_index(index_after(i, (n - 1) as nat, len), len)
    }
}

/// A closed form for `index_after` while the walk takes at most one lap:
/// stepping `n <= len` times from `i` lands on `i + n`, reduced by `len`
/// once the sum passes the end of the list.
proof fn lemma_index_after_one_lap(i: int, n: nat, len: int)
    requires
        0 <= i < len,
        n <= len,
    ensures
        index_after(i, n, len) == if i + n < len {
            i + n
        } else {
            i + n - len
        },
    decreases n,
{
    if n > 0 {
        lemma_index_after_one_lap(i, (n - 1) as nat, len);
    }
}

/// Advancing a cycle of `len` words exactly `len` times returns the index
/// to where it started, so the current word is again the original one.
pub proof fn lemma_full_cycle_returns(i: int, len: int)
    requires
        0 <= i < len,
    ensures
        index_after(i, len as nat, len) == i,
{
    lemma_index_after_one_lap(i, len as nat, len);
}

/// An ordered, non-empty word list together with the active index.
pub struct Words {
    list: Vec<String>,
    current_index: usize,
}

impl Words {
    /// The words, each as its sequence of characters.
    pub closed spec fn spec_list(self) -> Seq<Seq<char>> {
        self.list@.map_values(|w: String| w@)
    }

    /// The index of the currently active word.
    pub closed spec fn spec_current_index(self) -> int {
        self.current_index as int
    }

    /// The list is non-empty and the active index stays inside it.
    pub open spec fn wf(self) -> bool {
        &&& self.spec_list().len() > 0
        &&& 0 <= self.spec_current_index() < self.spec_list().len()
    }

    /// Builds a cycle over `list` starting at its first word; an empty
    /// list is rejected rather than left to fail on the first lookup.
    pub fn new(list: Vec<String>) -> (result: Result<Words, EmptyWordListError>)
        ensures
            result is Ok <==> list@.len() > 0,
            result is Ok ==> result->Ok_0.wf(),
            result is Ok ==> result->Ok_0.spec_list() == list@.map_values(|w: String| w@),
            result is Ok ==> result->Ok_0.spec_current_index() == 0,
    {
        if list.len() == 0 {
            Err(EmptyWordListError)
        } else {
            Ok(Words { list, current_index: 0 })
        }
    }

    /// The word list, in order.
    pub fn list(&self) -> (list: &Vec<String>)
        ensures
            list@.map_values(|w: String| w@) == self.spec_list(),
    {
        &self.list
    }

    /// The index of the currently active word.
    pub fn current_index(&self) -> (index: usize)
        ensures
            index == self.spec_current_index(),
    {
        self.current_index
    }

    /// The currently active target word.
    pub fn current(&self) -> (word: &String)
        requires
            self.wf(),
        ensures
            word@ == self.spec_list()[self.spec_current_index()],
    {
        &self.list[self.current_index]
    }

    /// Steps to the next word, wrapping from the last back to the first.
    pub fn next_word(&mut self)
        requires
            old(self).wf(),
        ensures
            final(self).wf(),
            final(self).spec_list() == old(self).spec_list(),
            final(self).spec_current_index() == next_index(
                old(self).spec_current_index(),
                old(self).spec_list().len() as int,
            ),
    {
        let current = self.current_index;
        if current < self.list.len() - 1 {
            self.current_index = self.current_index + 1;
        } else {
            self.current_index = 0;
        }
    }
}

impl Default for Words {
    /// The stock practice list: seven Korean given names.
    fn default() -> (result: Words)
        ensures
            result.wf(),
            result.spec_current_index() == 0,
            result.spec_list() == seq![
                "모모"@,
                "사나"@,
                "정연"@,
                "미나"@,
                "채영"@,
                "지효"@,
                "다현"@,
            ],
    {
        let list: Vec<String> = vec![
            "모모".to_owned(),
            "사나".to_owned(),
            "정연".to_owned(),
            "미나".to_owned(),
            "채영".to_owned(),
            "지효".to_owned(),
            "다현".to_owned(),
        ];
        let result = Words { list, current_index: 0 };
        proof {
            assert(result.spec_list() =~= seq![
                "모모"@,
                "사나"@,
                "정연"@,
                "미나"@,
                "채영"@,
                "지효"@,
                "다현"@,
            ]);
        }
        result
    }
}

} // verus!
