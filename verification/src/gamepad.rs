//! Gamepad support: buttons, axes, raw gamepad events, and the stage that applies them to a
//! view.

use vstd::prelude::*;
use crate::binding::BindingTypeView;
use crate::receiver::InputReceiver;
use crate::state::{PressState, PressStateExt};
use crate::value::{AxisValue, Vec2, TENTH_BITS};
use crate::view::{InputSource, InputView, InputViewModel};

verus! {

/// A button on a gamepad.
#[derive(PartialEq, Eq, Structural, Clone, Copy, Debug, Hash)]
pub enum GamepadButtonType {
    South,
    East,
    North,
    West,
    C,
    Z,
    LeftTrigger,
    LeftTrigger2,
    RightTrigger,
    RightTrigger2,
    Select,
    Start,
    Mode,
    LeftThumb,
    RightThumb,
    DPadUp,
    DPadDown,
    DPadLeft,
    DPadRight,
}

/// An axis on a gamepad.
#[derive(PartialEq, Eq, Structural, Clone, Copy, Debug, Hash)]
pub enum GamepadAxisType {
    LeftStickX,
    LeftStickY,
    LeftZ,
    RightStickX,
    RightStickY,
    RightZ,
}

/// One gamepad, by the number the host gives it.
#[derive(PartialEq, Eq, Structural, Clone, Copy, Debug, Hash)]
pub struct Gamepad(pub usize);

/// What a raw gamepad event reports.
#[derive(PartialEq, Eq, Structural, Clone, Copy, Debug)]
pub enum GamepadEventType {
    Connected,
    Disconnected,
    /// A button moved to the given magnitude.
    ButtonChanged(GamepadButtonType, AxisValue),
    /// An axis moved to the given magnitude.
    AxisChanged(GamepadAxisType, AxisValue),
}

/// A raw gamepad event: the gamepad it comes from and what it reports.
#[derive(PartialEq, Eq, Structural, Clone, Copy, Debug)]
pub struct GamepadEvent(pub Gamepad, pub GamepadEventType);

/// What one raw event makes of one receiver.
#[derive(PartialEq, Eq, Structural, Clone, Copy, Debug)]
pub struct ReceiverUpdate {
    pub receiver: InputReceiver,
    pub value: AxisValue,
    pub press: PressState,
}

/// The press state that a gamepad signal of the given magnitude stands for: released when
/// its absolute value is at most one tenth, a fresh press otherwise.
pub open spec fn spec_signal_state(value: AxisValue) -> PressState {
    if value.abs_le(AxisValue { bits: TENTH_BITS }) {
        PressState::Released
    } else {
        PressState::Pressed { started_pressing_instant: None }
    }
}

/// The press state that a gamepad signal of the given magnitude stands for.
#[verifier::when_used_as_spec(spec_signal_state)]
pub fn signal_state(value: AxisValue) -> (state: PressState)
    ensures
        state == spec_signal_state(value),
{
    if value.abs_le(AxisValue::from_bits(TENTH_BITS)) {
        PressState::Released
    } else {
        PressState::Pressed { started_pressing_instant: None }
    }
}

/// Ties an entity's view to one gamepad, with the dead zone of its sticks.
#[derive(PartialEq, Eq, Structural, Debug, Clone, Copy)]
pub struct GamepadMarker {
    pub gamepad: Gamepad,
    /// The bounds under which a stick's horizontal and vertical signals are ignored.
    pub dead_zone: Vec2,
}

impl Default for GamepadMarker {
    /// The marker of gamepad 0 without a dead zone.
    fn default() -> (marker: Self)
        ensures
            marker == (GamepadMarker { gamepad: Gamepad(0), dead_zone: Vec2::zero() }),
    {
        Self::with_id(0)
    }
}

impl GamepadMarker {
    /// The marker of the gamepad `id` without a dead zone.
    pub fn with_id(id: usize) -> (marker: Self)
        ensures
            marker == (GamepadMarker { gamepad: Gamepad(id), dead_zone: Vec2::zero() }),
    {
        Self { gamepad: Gamepad(id), dead_zone: Vec2::zero() }
    }

    /// The marker of the gamepad `id` with the given horizontal and vertical dead zone.
    pub fn with_dead_zone(id: usize, dead_zone: (AxisValue, AxisValue)) -> (marker: Self)
        ensures
            marker == (GamepadMarker {
                gamepad: Gamepad(id),
                dead_zone: Vec2 { x: dead_zone.0, y: dead_zone.1 },
            }),
    {
        Self { gamepad: Gamepad(id), dead_zone: Vec2::new(dead_zone.0, dead_zone.1) }
    }

    /// Whether a signal of a stick lies inside the dead zone of its direction. Only the
    /// four stick axes have a dead zone.
    pub open spec fn spec_in_dead_zone(&self, axis: GamepadAxisType, value: AxisValue) -> bool {
        match axis {
            GamepadAxisType::LeftStickX | GamepadAxisType::RightStickX => value.abs_lt(
                self.dead_zone.x,
            ),
            GamepadAxisType::LeftStickY | GamepadAxisType::RightStickY => value.abs_lt(
                self.dead_zone.y,
            ),
            _ => false,
        }
    }

    /// Whether a signal of a stick lies inside the dead zone of its direction.
    #[verifier::when_used_as_spec(spec_in_dead_zone)]
    pub fn in_dead_zone(&self, axis: GamepadAxisType, value: AxisValue) -> (inside: bool)
        ensures
            inside == self.spec_in_dead_zone(axis, value),
    {
        match axis {
            GamepadAxisType::LeftStickX | GamepadAxisType::RightStickX => value.abs_lt(
                self.dead_zone.x,
            ),
            GamepadAxisType::LeftStickY | GamepadAxisType::RightStickY => value.abs_lt(
                self.dead_zone.y,
            ),
            _ => false,
        }
    }

    /// What the entity of this marker makes of a raw event, in specifications.
    ///
    /// Nothing, when the event comes from another gamepad, reports no signal, or reports a
    /// pressed stick inside its dead zone. Otherwise the event's button or axis takes the
    /// reported magnitude, released when the magnitude is at rest and freshly pressed when
    /// it is not.
    pub open spec fn spec_reaction(&self, event: GamepadEvent) -> Option<ReceiverUpdate> {
        if event.0 != self.gamepad {
            None
        } else {
            match event.1 {
                GamepadEventType::ButtonChanged(button, value) => Some(
                    ReceiverUpdate {
                        receiver: InputReceiver::GamepadButton(button),
                        value,
                        press: signal_state(value),
                    },
                ),
                GamepadEventType::AxisChanged(axis, value) => if signal_state(value).is_pressed()
                    && self.in_dead_zone(axis, value) {
                    None
                } else {
                    Some(
                        ReceiverUpdate {
                            receiver: InputReceiver::GamepadAxis(axis),
                            value,
                            press: signal_state(value),
                        },
                    )
                },
                _ => None,
            }
        }
    }

    /// What the entity of this marker makes of a raw event.
    #[verifier::when_used_as_spec(spec_reaction)]
    pub fn reaction(&self, event: GamepadEvent) -> (update: Option<ReceiverUpdate>)
        ensures
            update == self.spec_reaction(event),
    {
        if event.0 != self.gamepad {
            return None;
        }
        match event.1 {
            GamepadEventType::ButtonChanged(button, value) => Some(
                ReceiverUpdate {
                    receiver: InputReceiver::GamepadButton(button),
                    value,
                    press: signal_state(value),
                },
            ),
            GamepadEventType::AxisChanged(axis, value) => {
                let press = signal_state(value);
                if press.pressed() && self.in_dead_zone(axis, value) {
                    None
                } else {
                    Some(ReceiverUpdate { receiver: InputReceiver::GamepadAxis(axis), value, press })
                }
            },
            _ => None,
        }
    }

    /// Records the state of a gamepad button and makes the gamepad the class that reported
    /// last.
    pub fn set_gamepad_button_state<Keys>(
        &mut self,
        view: &mut InputView<Keys>,
        button: GamepadButtonType,
        state: PressState,
        duration: AxisValue,
    ) where Keys: BindingTypeView
        ensures
            *final(self) == *old(self),
            final(view)@ == old(view)@.with_source(InputSource::Gamepad).with_axis(
                InputReceiver::GamepadButton(button),
                duration,
                state,
            ),
            old(view)@.wf() ==> final(view)@.wf(),
    {
        view.last_input_source = Some(InputSource::Gamepad);
        view.set_axis_value(InputReceiver::GamepadButton(button), duration, state);
    }

    /// Records the state of a gamepad axis and makes the gamepad the class that reported
    /// last.
    pub fn set_gamepad_axis_state<Keys>(
        &mut self,
        view: &mut InputView<Keys>,
        axis: GamepadAxisType,
        state: PressState,
        duration: AxisValue,
    ) where Keys: BindingTypeView
        ensures
            *final(self) == *old(self),
            final(view)@ == old(view)@.with_source(InputSource::Gamepad).with_axis(
                InputReceiver::GamepadAxis(axis),
                duration,
                state,
            ),
            old(view)@.wf() ==> final(view)@.wf(),
    {
        view.last_input_source = Some(InputSource::Gamepad);
        view.set_axis_value(InputReceiver::GamepadAxis(axis), duration, state);
    }

    /// Offers a raw event to the entity of this marker. An entity that takes the event
    /// records it in its view, and the event is to be offered to no other entity; one that
    /// does not take it leaves its view as it is.
    pub fn handle_event<Keys>(&mut self, view: &mut InputView<Keys>, event: GamepadEvent) -> (taken:
        bool) where Keys: BindingTypeView
        ensures
            *final(self) == *old(self),
            taken == old(self).reaction(event) is Some,
            final(view)@ == gamepad_event_applied(old(view)@, *old(self), event),
            old(view)@.wf() ==> final(view)@.wf(),
    {
        if event.0 != self.gamepad {
            return false;
        }
        match event.1 {
            GamepadEventType::ButtonChanged(kind, duration) => {
                let state = signal_state(duration);
                self.set_gamepad_button_state(view, kind, state, duration);
                true
            },
            GamepadEventType::AxisChanged(kind, value) => {
                let state = signal_state(value);
                if state.pressed() && self.in_dead_zone(kind, value) {
                    return false;
                }
                self.set_gamepad_axis_state(view, kind, state, value);
                true
            },
            _ => false,
        }
    }
}

/// The view of an entity after a raw gamepad event was offered to it: the event's signal
/// is recorded and the gamepad becomes the class that reported last, where the entity
/// takes the event; the view stays as it is where it does not.
pub open spec fn gamepad_event_applied<Keys>(
    view: InputViewModel<Keys>,
    marker: GamepadMarker,
    event: GamepadEvent,
) -> InputViewModel<Keys> {
    match marker.reaction(event) {
        Some(update) => view.with_source(InputSource::Gamepad).with_axis(
            update.receiver,
            update.value,
            update.press,
        ),
        None => view,
    }
}

} // verus!
