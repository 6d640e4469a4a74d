//! Everything one entity needs to take input: a view, and what ties it to each device.

use vstd::prelude::*;
use crate::binding::BindingTypeView;
use crate::gamepad::{Gamepad, GamepadMarker};
use crate::keyboard::KeyboardMarker;
use crate::mouse::EZInputMouseService;
use crate::value::{AxisValue, Vec2};
use crate::view::InputView;

verus! {

/// A view together with the markers and services of the three device classes.
#[derive(Debug)]
pub struct InputHandlingBundle<Keys> where Keys: BindingTypeView {
    pub input: InputView<Keys>,
    pub keyboard_input: KeyboardMarker,
    pub mouse_input: EZInputMouseService,
    pub gamepad_input: GamepadMarker,
}

impl<Keys: BindingTypeView> InputHandlingBundle<Keys> {
    /// The bundle of `input` with gamepad 0 and no dead zone; nothing is known of the
    /// pointer yet.
    pub fn new(input: InputView<Keys>) -> (bundle: Self)
        ensures
            bundle.input == input,
            bundle.keyboard_input == KeyboardMarker,
            bundle.mouse_input == (EZInputMouseService {
                mouse_position: None,
                mouse_delta: None,
                does_mouse_location_changed_this_tick: false,
                does_mouse_wheel_changed_this_tick: false,
            }),
            bundle.gamepad_input == (GamepadMarker {
                gamepad: Gamepad(0),
                dead_zone: Vec2::zero(),
            }),
    {
        Self {
            input,
            keyboard_input: KeyboardMarker,
            mouse_input: EZInputMouseService {
                mouse_position: None,
                mouse_delta: None,
                does_mouse_location_changed_this_tick: false,
                does_mouse_wheel_changed_this_tick: false,
            },
            gamepad_input: GamepadMarker::with_id(0),
        }
    }

    /// The bundle of `input` with gamepad 0 and the given horizontal and vertical dead
    /// zone.
    pub fn with_deadzone(input: InputView<Keys>, dead_zone: (AxisValue, AxisValue)) -> (bundle:
        Self)
        ensures
            bundle.input == input,
            bundle.keyboard_input == KeyboardMarker,
            bundle.mouse_input == (EZInputMouseService {
                mouse_position: None,
                mouse_delta: None,
                does_mouse_location_changed_this_tick: false,
                does_mouse_wheel_changed_this_tick: false,
            }),
            bundle.gamepad_input == (GamepadMarker {
                gamepad: Gamepad(0),
                dead_zone: Vec2 { x: dead_zone.0, y: dead_zone.1 },
            }),
    {
        let bundle = Self::new(input);
        Self { gamepad_input: GamepadMarker::with_dead_zone(0, dead_zone), ..bundle }
    }
}

} // verus!
