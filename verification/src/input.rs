//! Translation of raw terminal input into interaction events.
//!
//! The process edge races one blocking read of raw input against a fixed
//! timeout and hands whichever side won over as a [`RawKey`] or a timeout;
//! the translation into the state machine's events, and into the two
//! clipboard meta-events the render loop handles itself, lives here.

use vstd::prelude::*;

use crate::client::Event;

verus! {

/// One raw key, as the terminal layer reports it.
#[derive(Debug, Clone, PartialEq, Eq)]
pub enum RawKey {
    Left,
    Right,
    Up,
    Down,
    Char(char),
    Enter,
    Backspace,
    Esc,
    Other,
}

/// One event per frame: either an event for the state machine, or one of
/// the two clipboard meta-events that the render loop handles outside the
/// state machine.
#[derive(Debug, Clone, PartialEq)]
pub enum TuiEvent {
    StateEvent(Event),
    CopyClipboard,
    PasteClipboard,
}

/// Relies on `char::to_string` of std: the returned string holds exactly
/// the one character.
#[verifier::external_body]
fn char_to_string(c: char) -> (r: String)
    ensures
        r@ =~= seq![c],
{
    c.to_string()
}

/// Translate one typed character: the two bracket keys are the clipboard
/// meta-events, every other character is typed input for the state
/// machine.
pub fn char_to_event(c: char) -> (r: TuiEvent)
    ensures
        c == '[' ==> r == TuiEvent::CopyClipboard,
        c == ']' ==> r == TuiEvent::PasteClipboard,
        c != '[' && c != ']' ==> (r matches TuiEvent::StateEvent(Event::PrintableString(s))
            && s@ =~= seq![c]),
{
    match c {
        '[' => TuiEvent::CopyClipboard,
        ']' => TuiEvent::PasteClipboard,
        c => TuiEvent::StateEvent(Event::PrintableString(char_to_string(c))),
    }
}

/// Translate one raw key into the frame's event: arrows move, Enter
/// confirms, Backspace edits, Escape exits, characters go through
/// [`char_to_event`], and anything else is a no-op.
pub fn key_to_event(key: RawKey) -> (r: TuiEvent)
    ensures
        key == RawKey::Left ==> r == TuiEvent::StateEvent(Event::Left),
        key == RawKey::Right ==> r == TuiEvent::StateEvent(Event::Right),
        key == RawKey::Up ==> r == TuiEvent::StateEvent(Event::Up),
        key == RawKey::Down ==> r == TuiEvent::StateEvent(Event::Down),
        key == RawKey::Enter ==> r == TuiEvent::StateEvent(Event::Confirm),
        key == RawKey::Backspace ==> r == TuiEvent::StateEvent(Event::Backspace),
        key == RawKey::Esc ==> r == TuiEvent::StateEvent(Event::Exit),
        key == RawKey::Other ==> r == TuiEvent::StateEvent(Event::Other),
        key matches RawKey::Char(c) ==> {
            &&& c == '[' ==> r == TuiEvent::CopyClipboard
            &&& c == ']' ==> r == TuiEvent::PasteClipboard
            &&& c != '[' && c != ']' ==> (r matches TuiEvent::StateEvent(Event::PrintableString(s))
                && s@ =~= seq![c])
        },
{
    match key {
        RawKey::Left => TuiEvent::StateEvent(Event::Left),
        RawKey::Right => TuiEvent::StateEvent(Event::Right),
        RawKey::Up => TuiEvent::StateEvent(Event::Up),
        RawKey::Down => TuiEvent::StateEvent(Event::Down),
        RawKey::Char(c) => char_to_event(c),
        RawKey::Enter => TuiEvent::StateEvent(Event::Confirm),
        RawKey::Backspace => TuiEvent::StateEvent(Event::Backspace),
        RawKey::Esc => TuiEvent::StateEvent(Event::Exit),
        RawKey::Other => TuiEvent::StateEvent(Event::Other),
    }
}

} // verus!
