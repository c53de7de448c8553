//! Backspace coordination during IME composition.
//!
//! While an IME composition is in progress the OS intercepts the hardware
//! backspace key, so the application never sees it as a plain key event.
//! When the player backspaces through the whole pending composition, the
//! IME reports an empty preedit; `ImeValue` remembers that, and on the next
//! hardware backspace press (with the IME enabled) it removes one character
//! from the already-committed buffer itself and hands the host a synthetic
//! empty commit to flush the IME's internal state. The flag is set only by
//! an empty preedit and consumed exactly once, by the press it forwards.

use vstd::prelude::*;

verus! {

/// An IME event as the host reports it, carrying the composed text where
/// there is any.
#[derive(Debug, PartialEq, Eq)]
pub enum ImeEvent {
    /// The in-progress composition changed to the given text.
    Preedit(String),
    /// The IME committed the given finished text.
    Commit(String),
    /// The IME was turned on.
    Enabled,
    /// The IME was turned off.
    Disabled,
}

/// The flag after one preedit report: an empty preedit sets it, any other
/// preedit leaves it alone.
pub open spec fn flag_after_preedit(flag: bool, preedit: Seq<char>) -> bool {
    flag || preedit.len() == 0
}

/// The flag after one IME event: only preedit reports can change it.
pub open spec fn flag_after_event(flag: bool, event: ImeEvent) -> bool {
    match event {
        ImeEvent::Preedit(value) => flag_after_preedit(flag, value@),
        _ => flag,
    }
}

/// The flag after a tick's worth of IME events, applied in order.
pub open spec fn flag_after_events(flag: bool, events: Seq<ImeEvent>) -> bool
    decreases events.len(),
{
    if events.len() == 0 {
        flag
    } else {
        flag_after_event(flag_after_events(flag, events.drop_last()), events.last())
    }
}

/// Whether a hardware backspace press is forwarded as a synthetic empty
/// commit: only while the IME is enabled, and only when an empty preedit
/// armed the flag.
pub open spec fn backspace_forwards(flag: bool, ime_enabled: bool, pressed: bool) -> bool {
    ime_enabled && pressed && flag
}

/// `text` with its last character removed; empty text stays empty.
pub open spec fn text_without_last(text: Seq<char>) -> Seq<char> {
    if text.len() == 0 {
        text
    } else {
        text.drop_last()
    }
}

/// Remembers whether the most recent preedit report was empty.
#[derive(Debug, PartialEq, Eq, Structural)]
pub struct ImeValue {
    pub trig_backspace: bool,
}

impl Default for ImeValue {
    /// Starts disarmed: no empty preedit has been seen.
    fn default() -> (value: ImeValue)
        ensures
            value.trig_backspace == false,
    {
        ImeValue { trig_backspace: false }
    }
}

impl ImeValue {
    /// Notes one preedit report: an empty one arms the flag.
    pub fn on_preedit(&mut self, value: &str)
        ensures
            final(self).trig_backspace == flag_after_preedit(old(self).trig_backspace, value@),
    {
        if value.is_empty() {
            self.trig_backspace = true;
        }
    }

    /// Replays a tick's worth of IME events into the flag; everything but
    /// a preedit report is ignored.
    pub fn change_trig_backspace_state(&mut self, events: &Vec<ImeEvent>)
        ensures
            final(self).trig_backspace == flag_after_events(old(self).trig_backspace, events@),
    {
        let mut i: usize = 0;
        while i < events.len()
            invariant
                i <= events@.len(),
                self.trig_backspace == flag_after_events(
                    old(self).trig_backspace,
                    events@.take(i as int),
                ),
            decreases events@.len() - i,
        {
            match &events[i] {
                ImeEvent::Preedit(value) => {
                    self.on_preedit(value.as_str());
                },
                _ => {},
            }
            proof {
                assert(events@.take(i + 1).drop_last() =~= events@.take(i as int));
                assert(events@.take(i + 1).last() == events@[i as int]);
            }
            i = i + 1;
        }
        proof {
            assert(events@.take(events@.len() as int) =~= events@);
        }
    }

    /// Handles one hardware backspace press. With the IME enabled and the
    /// flag armed, it removes the last character of `text_edit`, disarms
    /// the flag and returns the synthetic empty commit the host must send;
    /// otherwise it changes nothing and the host's default backspace
    /// handling applies.
    pub fn enable_smooth_input_delete(
        &mut self,
        ime_enabled: bool,
        backspace_just_pressed: bool,
        text_edit: &mut String,
    ) -> (synthetic_commit: Option<ImeEvent>)
        ensures
            synthetic_commit is Some <==> backspace_forwards(
                old(self).trig_backspace,
                ime_enabled,
                backspace_just_pressed,
            ),
            synthetic_commit matches Some(event) ==> event matches ImeEvent::Commit(value)
                && value@ == Seq::<char>::empty(),
            backspace_forwards(old(self).trig_backspace, ime_enabled, backspace_just_pressed)
                ==> final(self).trig_backspace == false && final(text_edit)@ == text_without_last(
                old(text_edit)@,
            ),
            !backspace_forwards(old(self).trig_backspace, ime_enabled, backspace_just_pressed)
                ==> final(self).trig_backspace == old(self).trig_backspace && final(text_edit)@
                == old(text_edit)@,
    {
        if ime_enabled && backspace_just_pressed && self.trig_backspace {
            let length = text_edit.as_str().unicode_len();
            if length > 0 {
                let shorter = text_edit.as_str().substring_char(0, length - 1).to_owned();
                *text_edit = shorter;
                proof {
                    assert(text_edit@ =~= text_without_last(old(text_edit)@));
                }
            }
            self.trig_backspace = false;
            Some(ImeEvent::Commit(String::new()))
        } else {
            None
        }
    }
}

/// The backspace coordination, end to end. Once an empty preedit has armed
/// the flag, a hardware backspace press with the IME enabled forwards
/// exactly one synthetic commit and removes exactly one character (none
/// when the buffer is already empty), and consuming the flag disarms it,
/// so the following press forwards nothing. Without an empty preedit the
/// flag stays down — no other preedit arms it — and no commit is forwarded.
pub proof fn lemma_backspace_coordination(flag: bool, text: Seq<char>)
    ensures
        backspace_forwards(flag_after_preedit(flag, Seq::<char>::empty()), true, true),
        text.len() > 0 ==> text_without_last(text).len() == text.len() - 1,
        text.len() == 0 ==> text_without_last(text) == text,
        !backspace_forwards(false, true, true),
        forall|preedit: Seq<char>|
            preedit.len() > 0 ==> #[trigger] flag_after_preedit(false, preedit) == false,
{
}

} // verus!
