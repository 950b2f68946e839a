//! Side mouse buttons read from input devices.

use vstd::prelude::*;

verus! {

/// A side mouse button.
#[derive(Debug, Clone, Copy, PartialEq, Eq, Structural)]
pub enum MouseButton {
    /// Back button (`BTN_SIDE`).
    Button4,
    /// Forward button (`BTN_EXTRA`).
    Button5,
}

/// Event type of key and button events (`EV_KEY`).
pub const EV_KEY: u16 = 1;
/// Key code of the back side button (`BTN_SIDE`).
pub const BTN_SIDE: u16 = 0x113;
/// Key code of the forward side button (`BTN_EXTRA`).
pub const BTN_EXTRA: u16 = 0x114;

/// The side button pressed by an input event, if it is one: a key event
/// with value 1 (press, not release or repeat) for `BTN_SIDE` or `BTN_EXTRA`.
pub open spec fn pressed_button(event_type: u16, code: u16, value: i32) -> Option<MouseButton> {
    if event_type == EV_KEY && value == 1 {
        if code == BTN_SIDE {
            Some(MouseButton::Button4)
        } else if code == BTN_EXTRA {
            Some(MouseButton::Button5)
        } else {
            None
        }
    } else {
        None
    }
}

/// Decode a raw input event into a side-button press.
pub fn button_from_event(event_type: u16, code: u16, value: i32) -> (r: Option<MouseButton>)
    ensures
        r == pressed_button(event_type, code, value),
{
    if event_type == EV_KEY && value == 1 {
        if code == BTN_SIDE {
            Some(MouseButton::Button4)
        } else if code == BTN_EXTRA {
            Some(MouseButton::Button5)
        } else {
            None
        }
    } else {
        None
    }
}

} // verus!
