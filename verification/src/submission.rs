//! Submission and scoring.
//!
//! On a submit (the entry widget lost focus with Enter pressed in the same
//! tick) the host hands the typed buffer over: it is copied to the
//! committed output for display, compared for exact equality against the
//! currently active target word, and the buffer is cleared whatever the
//! outcome. Only an exact match raises the score and advances the word
//! cycle.

use vstd::prelude::*;

use crate::words::Words;
use crate::words::next_index;

verus! {

/// The per-session text state the host renders: the entry buffer and the
/// most recently committed output.
pub struct UIState {
    pub output: String,
    pub text_edit: String,
}

impl Default for UIState {
    /// Starts with an empty buffer and no committed output.
    fn default() -> (state: UIState)
        ensures
            state.output@ == Seq::<char>::empty(),
            state.text_edit@ == Seq::<char>::empty(),
    {
        UIState { output: String::new(), text_edit: String::new() }
    }
}

/// How many target words have been typed correctly.
#[derive(Debug, Clone, Copy, PartialEq, Eq, Structural)]
pub struct Score(pub i32);

impl Default for Score {
    /// A fresh session starts at zero.
    fn default() -> (score: Score)
        ensures
            score.0 == 0,
    {
        Score(0)
    }
}

/// Whether a submitted text matches the currently active target word.
pub open spec fn submission_matches(typed: Seq<char>, words: Words) -> bool {
    typed == words.spec_list()[words.spec_current_index()]
}

/// Commits the entry buffer: copies it to the output, scores and advances
/// the word cycle on an exact match with the current target word, and
/// clears the buffer either way.
pub fn submit(ui: &mut UIState, score: &mut Score, words: &mut Words)
    requires
        old(words).wf(),
        old(score).0 < i32::MAX,
    ensures
        final(words).wf(),
        final(ui).output@ == old(ui).text_edit@,
        final(ui).text_edit@ == Seq::<char>::empty(),
        submission_matches(old(ui).text_edit@, *old(words)) ==> final(score).0 == old(score).0 + 1
            && final(words).spec_list() == old(words).spec_list()
            && final(words).spec_current_index() == next_index(
            old(words).spec_current_index(),
            old(words).spec_list().len() as int,
        ),
        !submission_matches(old(ui).text_edit@, *old(words)) ==> *final(score) == *old(score)
            && *final(words) == *old(words),
{
    ui.output = ui.text_edit.clone();
    let correct = ui.text_edit == *words.current();
    if correct {
        score.0 = score.0 + 1;
        words.next_word();
    }
    ui.text_edit = String::new();
}

} // verus!
