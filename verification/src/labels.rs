//! The names of the stages that handle input.

use vstd::prelude::*;

verus! {

/// The stages of one simulation step, each named for what it handles.
#[derive(Clone, Copy, Hash, Debug, PartialEq, Eq, Structural)]
pub enum EZInputLabels {
    /// The stage that handles gamepad input.
    GamepadSystem,
    /// The stage that handles keyboard input.
    KeyboardSystem,
    /// The stage that handles mouse input.
    MouseSystem,
    /// The stage that stamps presses and so lets hold durations be told.
    TickSystem,
}

} // verus!
