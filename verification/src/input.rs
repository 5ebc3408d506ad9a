//! What a key binding asks for.

use vstd::prelude::*;

verus! {

/// What a combination of keys asks the view to do.
#[derive(PartialEq, Eq, Structural, Copy, Clone, Debug)]
pub enum Action {
    Pass,
    Exit,
    Stats,
    ResetZoom,
    N,
    NE,
    E,
    SE,
    S,
    SW,
    W,
    NW,
}

impl Action {
    /// The way in which the action moves the focus of the view: the sign of
    /// the step along each axis, and `(0, 0)` for an action that is no
    /// heading. Going north raises the second part, going east lowers the
    /// first: the focus moves against the view.
    pub open spec fn heading(self) -> (int, int) {
        match self {
            Action::N => (0, 1),
            Action::NE => (-1, 1),
            Action::E => (-1, 0),
            Action::SE => (-1, -1),
            Action::S => (0, -1),
            Action::SW => (1, -1),
            Action::W => (1, 0),
            Action::NW => (1, 1),
            _ => (0, 0),
        }
    }

    /// The way in which the action moves the focus of the view.
    pub fn pan(&self) -> (step: (i8, i8))
        ensures
            step.0 == self.heading().0,
            step.1 == self.heading().1,
    {
        match self {
            Action::N => (0, 1),
            Action::NE => (-1, 1),
            Action::E => (-1, 0),
            Action::SE => (-1, -1),
            Action::S => (0, -1),
            Action::SW => (1, -1),
            Action::W => (1, 0),
            Action::NW => (1, 1),
            _ => (0, 0),
        }
    }
}

} // verus!
