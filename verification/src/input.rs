//! Input events as the controllers take them, and what a key means.
//!
//! Positions are whole pixels in window coordinates: `x` grows to the right,
//! `y` grows downward.

use vstd::prelude::*;

verus! {

/// The keys that the board listens to. Every other key is `Other`.
#[derive(Clone, Copy, Debug, PartialEq, Eq, Structural)]
pub enum Key {
    D1,
    D2,
    D3,
    D4,
    D5,
    D6,
    D7,
    D8,
    D9,
    Escape,
    LShift,
    Other,
}

/// The pointer's buttons. Only the primary one, `Left`, has a meaning here.
#[derive(Clone, Copy, Debug, PartialEq, Eq, Structural)]
pub enum MouseButton {
    Left,
    Other,
}

/// One input event.
#[derive(Clone, Copy, Debug, PartialEq, Eq, Structural)]
pub enum Event {
    /// The pointer moved to the pixel `(x, y)`.
    PointerMoved { x: i32, y: i32 },
    /// A pointer button went down.
    PointerPressed(MouseButton),
    /// A key went down.
    KeyPressed(Key),
    /// A key went up.
    KeyReleased(Key),
}

/// How digit keys are read: as digits to write, or as notes to flip.
#[derive(Clone, Copy, Debug, PartialEq, Eq, Structural)]
pub enum InputMode {
    Digit,
    Note,
}

/// What a key press asks of the selected cell.
#[derive(Clone, Copy, Debug, PartialEq, Eq, Structural)]
pub enum Action {
    /// Write this digit; zero clears the cell.
    SetDigit(u8),
    /// Flip the note for this digit, which is in `1..=9`.
    ToggleNote(u8),
    /// Leave the cell alone.
    Ignore,
}

impl Key {
    /// The digit on a digit key.
    pub open spec fn spec_digit(self) -> Option<u8> {
        match self {
            Key::D1 => Some(1u8),
            Key::D2 => Some(2u8),
            Key::D3 => Some(3u8),
            Key::D4 => Some(4u8),
            Key::D5 => Some(5u8),
            Key::D6 => Some(6u8),
            Key::D7 => Some(7u8),
            Key::D8 => Some(8u8),
            Key::D9 => Some(9u8),
            _ => None,
        }
    }

    /// The digit on a digit key, `None` for every other key.
    #[verifier::when_used_as_spec(spec_digit)]
    pub fn digit(self) -> (d: Option<u8>)
        ensures
            d == self.spec_digit(),
            d matches Some(n) ==> 1 <= n <= 9,
    {
        match self {
            Key::D1 => Some(1),
            Key::D2 => Some(2),
            Key::D3 => Some(3),
            Key::D4 => Some(4),
            Key::D5 => Some(5),
            Key::D6 => Some(6),
            Key::D7 => Some(7),
            Key::D8 => Some(8),
            Key::D9 => Some(9),
            _ => None,
        }
    }
}

impl InputMode {
    /// The mode that the shift key's state selects.
    pub open spec fn spec_from_shift(shift_pressed: bool) -> InputMode {
        if shift_pressed {
            InputMode::Note
        } else {
            InputMode::Digit
        }
    }

    /// Note mode while shift is held, digit mode otherwise.
    #[verifier::when_used_as_spec(spec_from_shift)]
    pub fn from_shift(shift_pressed: bool) -> (mode: InputMode)
        ensures
            mode == InputMode::spec_from_shift(shift_pressed),
    {
        if shift_pressed {
            InputMode::Note
        } else {
            InputMode::Digit
        }
    }
}

/// What pressing `key` in `mode` asks for: a digit key writes its digit in
/// digit mode and flips its note in note mode, escape clears the digit in
/// either mode, and any other key asks for nothing.
pub open spec fn spec_key_action(mode: InputMode, key: Key) -> Action {
    match key.spec_digit() {
        Some(d) => match mode {
            InputMode::Digit => Action::SetDigit(d),
            InputMode::Note => Action::ToggleNote(d),
        },
        None => if key == Key::Escape {
            Action::SetDigit(0)
        } else {
            Action::Ignore
        },
    }
}

/// The action that pressing `key` in `mode` asks for.
#[verifier::when_used_as_spec(spec_key_action)]
pub fn key_action(mode: InputMode, key: Key) -> (action: Action)
    ensures
        action == spec_key_action(mode, key),
        action matches Action::SetDigit(d) ==> d <= 9,
        action matches Action::ToggleNote(d) ==> 1 <= d <= 9,
{
    match key.digit() {
        Some(d) => match mode {
            InputMode::Digit => Action::SetDigit(d),
            InputMode::Note => Action::ToggleNote(d),
        },
        None => match key {
            Key::Escape => Action::SetDigit(0),
            _ => Action::Ignore,
        },
    }
}

} // verus!
