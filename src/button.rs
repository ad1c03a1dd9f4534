//! Telling a short press of the button from a long one.
use vstd::prelude::*;

verus! {

/// What the button did.
#[derive(Clone, Copy, Debug, PartialEq, Eq, Structural)]
pub enum ButtonPress {
    Single,
    Long,
    Down,
    Up,
}

/// Number of consecutive samples, taken at a fixed interval after the rising
/// edge, for which the button must stay down to count as a long press.
pub const LONG_PRESS_SAMPLES: u32 = 201;

/// Follows one press of the button, one sample at a time.
pub struct PressTracker {
    held: u32,
}

impl PressTracker {
    /// How many samples have found the button still down.
    pub closed spec fn held_spec(self) -> nat {
        self.held as nat
    }

    /// A tracker for a press that has just begun.
    pub fn new() -> (r: PressTracker)
        ensures
            r.held_spec() == 0,
    {
        PressTracker { held: 0 }
    }

    /// Takes one sample. A release ends the press as a short one; the last of
    /// `LONG_PRESS_SAMPLES` samples with the button down ends it as a long
    /// one; otherwise the press goes on and the caller samples again after
    /// the interval.
    pub fn sample(&mut self, released: bool) -> (r: Option<ButtonPress>)
        requires
            old(self).held_spec() < LONG_PRESS_SAMPLES,
        ensures
            released ==> r == Some(ButtonPress::Single) && final(self).held_spec() == old(self).held_spec(),
            !released ==> final(self).held_spec() == old(self).held_spec() + 1,
            !released && final(self).held_spec() == LONG_PRESS_SAMPLES ==> r == Some(ButtonPress::Long),
            !released && final(self).held_spec() < LONG_PRESS_SAMPLES ==> r is None,
    {
        if released {
            return Some(ButtonPress::Single);
        }
        self.held = self.held + 1;
        if self.held == LONG_PRESS_SAMPLES {
            Some(ButtonPress::Long)
        } else {
            None
        }
    }
}

} // verus!
