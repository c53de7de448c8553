//! A minimal composing text field split around a cursor.
//!
//! The field is three character runs: the committed text before the
//! cursor, the IME's in-progress composition, and the committed text after
//! the cursor (the cursor glyph itself is the host's to draw). IME events
//! replace the composition or append committed text; key presses edit
//! around the cursor. Backspace only touches the committed text while no
//! composition is pending, since the IME consumes it otherwise.

use vstd::prelude::*;

use crate::ime::ImeEvent;
use crate::ime::text_without_last;

verus! {

/// The three character runs of an `EditText`, as sequences.
pub struct EditTextView {
    pub before: Seq<char>,
    pub ime: Seq<char>,
    pub after: Seq<char>,
}

/// Which way the cursor moves.
#[derive(Debug, Clone, Copy, PartialEq, Eq, Structural)]
pub enum Direction {
    Left,
    Right,
}

/// A key press as the field consumes it.
#[derive(Debug, PartialEq, Eq)]
pub enum EditorKey {
    /// Submits: clears the committed text before the cursor if there is any.
    Enter,
    ArrowLeft,
    ArrowRight,
    Backspace,
    Space,
    /// Finished text typed directly, without composition.
    Character(String),
}

/// One keyboard event: the key and whether this is the press (a release
/// changes nothing).
#[derive(Debug, PartialEq, Eq)]
pub struct KeyboardEvent {
    pub key: EditorKey,
    pub pressed: bool,
}

/// The field after the cursor moved one place left: the character just
/// before the cursor, if any, crosses over to the front of the text after
/// it.
pub open spec fn moved_left(state: EditTextView) -> EditTextView {
    if state.before.len() == 0 {
        state
    } else {
        EditTextView {
            before: state.before.drop_last(),
            ime: state.ime,
            after: seq![state.before.last()] + state.after,
        }
    }
}

/// The field after the cursor moved one place right: the character just
/// after the cursor, if any, crosses over to the end of the text before
/// it.
pub open spec fn moved_right(state: EditTextView) -> EditTextView {
    if state.after.len() == 0 {
        state
    } else {
        EditTextView {
            before: state.before.push(state.after.first()),
            ime: state.ime,
            after: state.after.drop_first(),
        }
    }
}

/// The field after the cursor moved one place in `direction`.
pub open spec fn cursor_moved(state: EditTextView, direction: Direction) -> EditTextView {
    match direction {
        Direction::Left => moved_left(state),
        Direction::Right => moved_right(state),
    }
}

/// The field after one key press.
pub open spec fn key_applied(state: EditTextView, key: EditorKey) -> EditTextView {
    match key {
        EditorKey::Enter => if state.before.len() == 0 {
            state
        } else {
            EditTextView { before: Seq::empty(), ime: state.ime, after: state.after }
        },
        EditorKey::ArrowLeft => moved_left(state),
        EditorKey::ArrowRight => moved_right(state),
        EditorKey::Backspace => if state.ime.len() == 0 {
            EditTextView {
                before: text_without_last(state.before),
                ime: state.ime,
                after: state.after,
            }
        } else {
            state
        },
        EditorKey::Space => EditTextView {
            before: state.before.push(' '),
            ime: state.ime,
            after: state.after,
        },
        EditorKey::Character(text) => EditTextView {
            before: state.before + text@,
            ime: state.ime,
            after: state.after,
        },
    }
}

/// The field after one keyboard event: releases change nothing.
pub open spec fn key_event_applied(state: EditTextView, event: KeyboardEvent) -> EditTextView {
    if event.pressed {
        key_applied(state, event.key)
    } else {
        state
    }
}

/// The field after a tick's worth of keyboard events, applied in order.
pub open spec fn key_events_applied(state: EditTextView, events: Seq<KeyboardEvent>) -> EditTextView
    decreases events.len(),
{
    if events.len() == 0 {
        state
    } else {
        key_event_applied(key_events_applied(state, events.drop_last()), events.last())
    }
}

/// The field after one IME event: a preedit replaces the composition, a
/// commit appends its text to the committed run before the cursor.
pub open spec fn ime_event_applied(state: EditTextView, event: ImeEvent) -> EditTextView {
    match event {
        ImeEvent::Preedit(value) => EditTextView {
            before: state.before,
            ime: value@,
            after: state.after,
        },
        ImeEvent::Commit(value) => EditTextView {
            before: state.before + value@,
            ime: state.ime,
            after: state.after,
        },
        _ => state,
    }
}

/// The field after a tick's worth of IME events, applied in order.
pub open spec fn ime_events_applied(state: EditTextView, events: Seq<ImeEvent>) -> EditTextView
    decreases events.len(),
{
    if events.len() == 0 {
        state
    } else {
        ime_event_applied(ime_events_applied(state, events.drop_last()), events.last())
    }
}

/// The characters of `text`, in order, as a vector.
pub fn chars_of(text: &str) -> (chars: Vec<char>)
    ensures
        chars@ == text@,
{
    let mut chars: Vec<char> = Vec::new();
    push_str_chars(&mut chars, text);
    proof {
        assert(Seq::<char>::empty() + text@ =~= text@);
    }
    chars
}

/// Appends the characters of `text` to `dest`, in order.
pub fn push_str_chars(dest: &mut Vec<char>, text: &str)
    ensures
        final(dest)@ == old(dest)@ + text@,
{
    let length = text.unicode_len();
    let mut i: usize = 0;
    while i < length
        invariant
            i <= length,
            length == text@.len(),
            dest@ == old(dest)@ + text@.take(i as int),
        decreases length - i,
    {
        dest.push(text.get_char(i));
        proof {
            assert(old(dest)@ + text@.take(i + 1) =~= (old(dest)@ + text@.take(i as int)).push(
                text@[i as int],
            ));
        }
        i = i + 1;
    }
    proof {
        assert(text@.take(length as int) =~= text@);
    }
}

/// The composing text field.
pub struct EditText {
    pub before_cursor: Vec<char>,
    pub ime_buffer: Vec<char>,
    pub after_cursor: Vec<char>,
}

impl View for EditText {
    type V = EditTextView;

    open spec fn view(&self) -> EditTextView {
        EditTextView {
            before: self.before_cursor@,
            ime: self.ime_buffer@,
            after: self.after_cursor@,
        }
    }
}

impl EditText {
    /// An empty field.
    pub fn new() -> (field: EditText)
        ensures
            field@.before == Seq::<char>::empty(),
            field@.ime == Seq::<char>::empty(),
            field@.after == Seq::<char>::empty(),
    {
        EditText { before_cursor: Vec::new(), ime_buffer: Vec::new(), after_cursor: Vec::new() }
    }

    /// Moves the cursor one place, carrying a character across it.
    pub fn move_cursor(&mut self, direction: Direction)
        ensures
            final(self)@ == cursor_moved(old(self)@, direction),
    {
        match direction {
            Direction::Left => {
                match self.before_cursor.pop() {
                    Some(crossing) => {
                        self.after_cursor.insert(0, crossing);
                        proof {
                            assert(self.before_cursor@ =~= old(self)@.before.drop_last());
                            assert(self.after_cursor@ =~= seq![old(self)@.before.last()]
                                + old(self)@.after);
                        }
                    },
                    None => {},
                }
            },
            Direction::Right => {
                if self.after_cursor.len() > 0 {
                    let crossing = self.after_cursor.remove(0);
                    self.before_cursor.push(crossing);
                    proof {
                        assert(self.after_cursor@ =~= old(self)@.after.drop_first());
                    }
                }
            },
        }
    }

    /// Applies one key press to the field.
    pub fn apply_key(&mut self, key: &EditorKey)
        ensures
            final(self)@ == key_applied(old(self)@, *key),
    {
        match key {
            EditorKey::Enter => {
                if self.before_cursor.len() > 0 {
                    self.before_cursor = Vec::new();
                }
            },
            EditorKey::ArrowLeft => {
                self.move_cursor(Direction::Left);
            },
            EditorKey::ArrowRight => {
                self.move_cursor(Direction::Right);
            },
            EditorKey::Backspace => {
                if self.ime_buffer.len() == 0 {
                    self.before_cursor.pop();
                }
            },
            EditorKey::Space => {
                self.before_cursor.push(' ');
            },
            EditorKey::Character(text) => {
                push_str_chars(&mut self.before_cursor, text.as_str());
            },
        }
    }

    /// Replays a tick's worth of keyboard events, skipping releases.
    pub fn listen_keyboard_input_events(&mut self, events: &Vec<KeyboardEvent>)
        ensures
            final(self)@ == key_events_applied(old(self)@, events@),
    {
        let mut i: usize = 0;
        while i < events.len()
            invariant
                i <= events@.len(),
                self@ == key_events_applied(old(self)@, events@.take(i as int)),
            decreases events@.len() - i,
        {
            if events[i].pressed {
                self.apply_key(&events[i].key);
            }
            proof {
                assert(events@.take(i + 1).drop_last() =~= events@.take(i as int));
                assert(events@.take(i + 1).last() == events@[i as int]);
            }
            i = i + 1;
        }
        proof {
            assert(events@.take(events@.len() as int) =~= events@);
        }
    }

    /// Replays a tick's worth of IME events: preedits replace the
    /// composition, commits append to the committed text.
    pub fn listen_ime_events(&mut self, events: &Vec<ImeEvent>)
        ensures
            final(self)@ == ime_events_applied(old(self)@, events@),
    {
        let mut i: usize = 0;
        while i < events.len()
            invariant
                i <= events@.len(),
                self@ == ime_events_applied(old(self)@, events@.take(i as int)),
            decreases events@.len() - i,
        {
            match &events[i] {
                ImeEvent::Preedit(value) => {
                    self.ime_buffer = chars_of(value.as_str());
                },
                ImeEvent::Commit(value) => {
                    push_str_chars(&mut self.before_cursor, value.as_str());
                },
                _ => {},
            }
            proof {
                assert(events@.take(i + 1).drop_last() =~= events@.take(i as int));
                assert(events@.take(i + 1).last() == events@[i as int]);
            }
            i = i + 1;
        }
        proof {
            assert(events@.take(events@.len() as int) =~= events@);
        }
    }
}

} // verus!
