use vstd::prelude::*;

verus! {

/// A key event reduced to the two fields the toggle logic compares:
/// the key code and the value (0 = release, 1 = press, 2 = repeat).
#[derive(Debug, PartialEq, Eq, Structural, Copy, Clone)]
pub struct Keystroke {
    pub key: u16,
    pub value: i32,
}

/// The routing regime: `Mouse` restricts forwarded codes to the mouse
/// output's capability set, `Manipulator` forwards everything.
#[derive(Debug, PartialEq, Eq, Structural, Copy, Clone)]
pub enum Mode {
    Mouse,
    Manipulator,
}

impl Mode {
    /// The other of the two modes.
    pub fn flipped(self) -> (r: Mode)
        ensures
            r == self.spec_flipped(),
    {
        match self {
            Mode::Mouse => Mode::Manipulator,
            Mode::Manipulator => Mode::Mouse,
        }
    }

    pub open spec fn spec_flipped(self) -> Mode {
        match self {
            Mode::Mouse => Mode::Manipulator,
            Mode::Manipulator => Mode::Mouse,
        }
    }
}

/// An input event as the core logic sees it: only the category, the code
/// and the value matter for routing and toggle detection.
#[derive(Debug, PartialEq, Eq, Structural, Copy, Clone)]
pub enum Event {
    /// A keyboard/button event.
    Key { code: u16, value: i32 },
    /// A relative-axis (pointer motion) event.
    RelAxis { code: u16, value: i32 },
    /// Any other category (synchronization, miscellaneous, ...).
    Other,
}

impl Event {
    pub open spec fn is_key(self) -> bool {
        self matches Event::Key { .. }
    }

    /// The keystroke a key event contributes to the history buffer.
    pub open spec fn spec_keystroke(self) -> Keystroke
        recommends
            self.is_key(),
    {
        match self {
            Event::Key { code, value } => Keystroke { key: code, value },
            _ => Keystroke { key: 0, value: 0 },
        }
    }
}

} // verus!
