//! Per-frame state of a mouse button: whether it is held, and for how many
//! frames it has been in that state.
use vstd::prelude::*;

verus! {

/// What the windowing layer reports for a button in one event.
#[derive(Clone, Copy, Debug, PartialEq, Eq, Structural)]
pub enum ElementState {
    Pressed,
    Released,
}

/// The state of a button, with the number of frames it has been active for.
#[derive(Clone, Copy, Debug, PartialEq, Eq, Structural)]
pub enum ButtonState {
    Released(u32),
    Pressed(u32),
}

/// Number of frames the state has lasted.
pub open spec fn frames_of(s: ButtonState) -> u32 {
    match s {
        ButtonState::Released(n) => n,
        ButtonState::Pressed(n) => n,
    }
}

impl ButtonState {
    /// The same state, one frame older.
    pub fn increment(&self) -> (r: Self)
        requires
            frames_of(*self) < u32::MAX,
        ensures
            r is Pressed <==> *self is Pressed,
            frames_of(r) == frames_of(*self) + 1,
    {
        match self {
            ButtonState::Released(val) => ButtonState::Released(*val + 1),
            ButtonState::Pressed(val) => ButtonState::Pressed(*val + 1),
        }
    }

    /// Applies an event to the button, given its state in the previous frame:
    /// a press of a released button and a release of a pressed one start a new
    /// state at frame zero; any other event leaves the state as it is.
    pub fn update_from_element_state(&mut self, state: ElementState, prev: Self)
        ensures
            prev is Released && state == ElementState::Pressed ==> *final(self) == ButtonState::Pressed(0),
            prev is Pressed && state == ElementState::Released ==> *final(self) == ButtonState::Released(0),
            (prev is Released && state == ElementState::Released) || (prev is Pressed && state
                == ElementState::Pressed) ==> *final(self) == *old(self),
    {
        match (prev, state) {
            (ButtonState::Released(_), ElementState::Pressed) => {
                *self = ButtonState::Pressed(0);
            },
            (ButtonState::Pressed(_), ElementState::Released) => {
                *self = ButtonState::Released(0);
            },
            _ => {},
        }
    }
}

} // verus!
