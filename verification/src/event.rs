//! What the host reports to the pond, and what the pond remembers of it.

use vstd::prelude::*;

verus! {

#[derive(Debug, Clone, Copy, PartialEq, Eq, Structural)]
pub enum Button {
    Left,
    Right,
    Up,
    Down,
    /// The button that touches the pond.
    Action,
}

#[derive(Debug, Clone, Copy, PartialEq, Eq, Structural)]
pub enum ButtonState {
    Pressed,
    Released,
}

/// One input event.
#[derive(Debug, Clone, Copy, PartialEq, Eq, Structural)]
pub enum Event {
    /// A button went down or came up.
    Button { state: ButtonState, button: Button },
    /// Anything else; the pond takes no notice of it.
    Other,
}

impl Event {
    /// The event that the action button makes when it goes down.
    pub open spec fn press() -> Event {
        Event::Button { state: ButtonState::Pressed, button: Button::Action }
    }

    /// The event that the action button makes when it comes up.
    pub open spec fn release() -> Event {
        Event::Button { state: ButtonState::Released, button: Button::Action }
    }

    pub open spec fn is_press(self) -> bool {
        self == Event::press()
    }

    pub open spec fn is_release(self) -> bool {
        self == Event::release()
    }
}

/// Whether the finger is on the pond.
#[derive(Debug, Clone, Copy, PartialEq, Eq, Structural)]
pub enum Phase {
    Idle,
    Touching,
}

} // verus!
