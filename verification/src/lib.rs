//! A small typing-practice game core.
//!
//! A host front end shows a target word, the player types it into a text
//! field, and the score goes up on an exact match before the next word is
//! presented. The host owns the window, fonts and raw input events; this
//! crate holds the state machines behind that loop, each with a verified
//! contract:
//!
//! - [`words::Words`]: the round-robin list of target words.
//! - [`layout_cache::TextEditorLayoutJobCache`]: memoizes text-layout
//!   results keyed by the input text, clearing wholesale at capacity.
//! - [`ime::ImeValue`]: decides when a hardware backspace during IME
//!   composition must be forwarded as a synthetic empty commit.
//! - [`submission`]: copies the buffer to the committed output, scores an
//!   exact match and advances the word cycle.
//! - [`editor::EditText`]: a minimal composing text field split around a
//!   cursor, driven by IME and keyboard events.

pub mod editor;
pub mod ime;
pub mod layout_cache;
pub mod rect;
pub mod submission;
pub mod vegetables;
pub mod words;
