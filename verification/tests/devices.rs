use ezinput::binding::BindingTypeView;
use ezinput::gamepad::{
    signal_state, Gamepad, GamepadAxisType, GamepadButtonType, GamepadEvent, GamepadEventType,
    GamepadMarker, ReceiverUpdate,
};
use ezinput::keyboard::{keyboard_input_system, KeyCode, KeyboardInput, KeyboardMarker};
use ezinput::mouse::{
    mouse_input_system, CursorMoved, EZInputMouseService, MouseAxisType, MouseButton,
    MouseButtonInput, MouseMotion,
};
use ezinput::plugin::tick_system;
use ezinput::receiver::InputReceiver;
use ezinput::state::{AxisState, ButtonState, PressState, PressStateExt};
use ezinput::value::{AxisValue, Vec2};
use ezinput::view::{InputSource, InputView};

#[derive(Clone, Copy, Debug, PartialEq)]
struct Action(u64);

impl BindingTypeView for Action {
    fn action_id(&self) -> u64 {
        self.0
    }

    fn id(&self) -> u64 {
        self.0
    }
}

fn value(x: f32) -> AxisValue {
    AxisValue::from_bits(x.to_bits())
}

fn pair(x: f32, y: f32) -> Vec2 {
    Vec2::new(value(x), value(y))
}

fn fresh() -> PressState {
    PressState::Pressed { started_pressing_instant: None }
}

fn key(code: u32) -> InputReceiver {
    InputReceiver::KeyboardKey(KeyCode(code))
}

fn key_event(code: u32, state: ButtonState) -> KeyboardInput {
    KeyboardInput { scan_code: code + 100, key_code: Some(KeyCode(code)), state }
}

fn button_event(button: GamepadButtonType, x: f32) -> GamepadEvent {
    GamepadEvent(Gamepad(0), GamepadEventType::ButtonChanged(button, value(x)))
}

fn axis_event(axis: GamepadAxisType, x: f32) -> GamepadEvent {
    GamepadEvent(Gamepad(0), GamepadEventType::AxisChanged(axis, value(x)))
}

#[test]
fn a_press_is_fresh_until_the_next_tick() {
    let mut view: InputView<Action> = InputView::new();
    let mut keyboard = KeyboardMarker;
    keyboard_input_system(&mut view, &mut keyboard, &vec![key_event(1, ButtonState::Pressed)]);
    assert!(view.state(&key(1)).just_pressed());
    assert_eq!(view.state(&key(1)).elapsed(1_000), None);

    tick_system(&mut view, 1_000);
    assert!(!view.state(&key(1)).just_pressed());
    assert!(view.state(&key(1)).pressed());
    assert_eq!(view.state(&key(1)).elapsed(1_000), Some(0));
    assert_eq!(view.state(&key(1)).elapsed(1_750), Some(750));
    assert!(view.state(&key(1)).is_pressed_for(1_750, 750));
}

#[test]
fn a_tick_stamps_only_fresh_presses() {
    let mut view: InputView<Action> = InputView::new();
    view.set_axis_value(key(1), value(1.0), fresh());
    tick_system(&mut view, 10);
    view.set_axis_value(key(2), value(1.0), fresh());
    view.set_axis_value(key(3), value(0.5), PressState::Released);
    tick_system(&mut view, 20);
    assert_eq!(
        view.state(&key(1)).press,
        PressState::Pressed { started_pressing_instant: Some(10) }
    );
    assert_eq!(
        view.state(&key(2)).press,
        PressState::Pressed { started_pressing_instant: Some(20) }
    );
    assert_eq!(view.state(&key(3)), AxisState::new(value(0.5), PressState::Released));
    assert_eq!(view.descriptors.len(), 3);
}

#[test]
fn a_tick_of_an_empty_view_does_nothing() {
    let mut view: InputView<Action> = InputView::new();
    tick_system(&mut view, 5);
    assert!(view.descriptors.is_empty());
    assert_eq!(view.last_input_source, None);
}

#[test]
fn keyboard_events_apply_in_order() {
    let mut view: InputView<Action> = InputView::new();
    let mut keyboard = KeyboardMarker;
    keyboard_input_system(
        &mut view,
        &mut keyboard,
        &vec![
            key_event(1, ButtonState::Pressed),
            key_event(2, ButtonState::Pressed),
            key_event(1, ButtonState::Released),
        ],
    );
    assert_eq!(view.state(&key(1)), AxisState::zero());
    assert_eq!(view.state(&key(2)), AxisState::new(value(1.0), fresh()));
    assert_eq!(view.last_input_source, Some(InputSource::Keyboard));
}

#[test]
fn keyboard_events_without_a_key_code_are_passed_over() {
    let mut view: InputView<Action> = InputView::new();
    let mut keyboard = KeyboardMarker;
    keyboard_input_system(
        &mut view,
        &mut keyboard,
        &vec![KeyboardInput { scan_code: 3, key_code: None, state: ButtonState::Pressed }],
    );
    assert!(view.descriptors.is_empty());
    assert_eq!(view.last_input_source, None);
    keyboard_input_system(&mut view, &mut keyboard, &vec![]);
    assert!(view.descriptors.is_empty());
}

#[test]
fn a_key_press_event_renews_the_press() {
    let mut view: InputView<Action> = InputView::new();
    let mut keyboard = KeyboardMarker;
    keyboard.set_keyboard_key_state(&mut view, KeyCode(1), fresh());
    tick_system(&mut view, 50);
    assert!(!view.state(&key(1)).just_pressed());
    keyboard.set_keyboard_key_state(&mut view, KeyCode(1), fresh());
    assert!(view.state(&key(1)).just_pressed());
}

#[test]
fn mouse_motion_presses_the_four_axes() {
    let mut view: InputView<Action> = InputView::new();
    let mut mouse = EZInputMouseService::default();
    mouse.set_mouse_location(&mut view, pair(10.0, 20.0), pair(-1.0, 2.0));
    assert_eq!(
        view.state(&InputReceiver::MouseAxis(MouseAxisType::X)),
        AxisState::new(value(10.0), fresh())
    );
    assert_eq!(
        view.state(&InputReceiver::MouseAxis(MouseAxisType::Y)),
        AxisState::new(value(20.0), fresh())
    );
    assert_eq!(
        view.state(&InputReceiver::MouseAxisDelta(MouseAxisType::X)),
        AxisState::new(value(-1.0), fresh())
    );
    assert_eq!(
        view.state(&InputReceiver::MouseAxisDelta(MouseAxisType::Y)),
        AxisState::new(value(2.0), fresh())
    );
    assert_eq!(view.last_input_source, Some(InputSource::Mouse));
    assert_eq!(mouse.mouse_position, Some(pair(10.0, 20.0)));
    assert_eq!(mouse.mouse_delta, Some(pair(-1.0, 2.0)));
    assert!(mouse.does_mouse_location_changed_this_tick);
    assert!(!mouse.does_mouse_wheel_changed_this_tick);
}

#[test]
fn the_mouse_axes_release_themselves() {
    let mut view: InputView<Action> = InputView::new();
    let mut mouse = EZInputMouseService::default();
    mouse.set_mouse_location(&mut view, pair(10.0, 20.0), pair(-1.0, 2.0));
    mouse.does_mouse_wheel_changed_this_tick = true;
    mouse.tick_mouse(&mut view);
    for receiver in [
        InputReceiver::MouseAxis(MouseAxisType::X),
        InputReceiver::MouseAxis(MouseAxisType::Y),
        InputReceiver::MouseAxisDelta(MouseAxisType::X),
        InputReceiver::MouseAxisDelta(MouseAxisType::Y),
    ] {
        assert_eq!(view.state(&receiver), AxisState::zero());
    }
    assert_eq!(mouse.mouse_position, Some(pair(10.0, 20.0)));
    assert_eq!(mouse.mouse_delta, None);
    assert!(!mouse.does_mouse_location_changed_this_tick);
    assert!(!mouse.does_mouse_wheel_changed_this_tick);
    assert_eq!(view.last_input_source, Some(InputSource::Mouse));
}

#[test]
fn mouse_buttons_do_not_release_themselves() {
    let mut view: InputView<Action> = InputView::new();
    let mut mouse = EZInputMouseService::default();
    let left = InputReceiver::MouseButton(MouseButton::Left);
    mouse.set_mouse_button_state(&mut view, MouseButton::Left, fresh());
    assert_eq!(view.state(&left), AxisState::new(value(1.0), fresh()));
    assert_eq!(view.last_input_source, Some(InputSource::Mouse));
    mouse_input_system(&mut view, &mut mouse, &vec![], &vec![], &vec![]);
    assert!(view.state(&left).pressed());
    mouse.set_mouse_button_state(&mut view, MouseButton::Left, PressState::Released);
    assert_eq!(view.state(&left), AxisState::zero());
}

#[test]
fn a_mouse_button_press_uses_the_registered_default() {
    let mut view: InputView<Action> = InputView::new();
    let mut mouse = EZInputMouseService::default();
    let right = InputReceiver::MouseButton(MouseButton::Right);
    view.descriptor_or_insert(right).default_axis_value = value(-0.5);
    mouse.set_mouse_button_state(&mut view, MouseButton::Right, fresh());
    assert_eq!(view.state(&right), AxisState::new(value(-0.5), fresh()));
}

#[test]
fn the_mouse_stage_rests_then_moves_then_clicks() {
    let mut view: InputView<Action> = InputView::new();
    let mut mouse = EZInputMouseService::default();
    mouse.set_mouse_location(&mut view, pair(1.0, 1.0), pair(1.0, 1.0));
    tick_system(&mut view, 5);

    mouse_input_system(
        &mut view,
        &mut mouse,
        &vec![CursorMoved { position: pair(3.0, 4.0) }, CursorMoved { position: pair(5.0, 6.0) }],
        &vec![
            MouseButtonInput { button: MouseButton::Left, state: ButtonState::Pressed },
            MouseButtonInput { button: MouseButton::Middle, state: ButtonState::Pressed },
            MouseButtonInput { button: MouseButton::Left, state: ButtonState::Released },
        ],
        &vec![MouseMotion { delta: pair(0.5, -0.5) }, MouseMotion { delta: pair(2.0, 2.0) }],
    );
    assert_eq!(
        view.state(&InputReceiver::MouseAxis(MouseAxisType::X)),
        AxisState::new(value(5.0), fresh())
    );
    assert_eq!(
        view.state(&InputReceiver::MouseAxisDelta(MouseAxisType::Y)),
        AxisState::new(value(2.0), fresh())
    );
    assert_eq!(view.state(&InputReceiver::MouseButton(MouseButton::Left)), AxisState::zero());
    assert_eq!(
        view.state(&InputReceiver::MouseButton(MouseButton::Middle)),
        AxisState::new(value(1.0), fresh())
    );
    assert_eq!(mouse.mouse_position, Some(pair(5.0, 6.0)));
    assert_eq!(mouse.mouse_delta, Some(pair(2.0, 2.0)));
    assert!(mouse.does_mouse_location_changed_this_tick);
}

#[test]
fn the_mouse_stage_pairs_positions_with_motions() {
    let mut view: InputView<Action> = InputView::new();
    let mut mouse = EZInputMouseService::default();
    mouse_input_system(
        &mut view,
        &mut mouse,
        &vec![CursorMoved { position: pair(3.0, 4.0) }, CursorMoved { position: pair(5.0, 6.0) }],
        &vec![],
        &vec![MouseMotion { delta: pair(0.5, -0.5) }],
    );
    assert_eq!(mouse.mouse_position, Some(pair(3.0, 4.0)));
    assert_eq!(mouse.mouse_delta, Some(pair(0.5, -0.5)));

    let mut still: InputView<Action> = InputView::new();
    let mut idle = EZInputMouseService::default();
    mouse_input_system(
        &mut still,
        &mut idle,
        &vec![CursorMoved { position: pair(3.0, 4.0) }],
        &vec![],
        &vec![],
    );
    assert_eq!(idle.mouse_position, None);
    assert_eq!(still.state(&InputReceiver::MouseAxis(MouseAxisType::X)), AxisState::zero());
    assert_eq!(still.last_input_source, None);
    assert_eq!(still.descriptors.len(), 4);
}

#[test]
fn a_gamepad_signal_at_rest_is_released() {
    assert_eq!(signal_state(value(0.0)), PressState::Released);
    assert_eq!(signal_state(value(0.05)), PressState::Released);
    assert_eq!(signal_state(value(-0.05)), PressState::Released);
    assert_eq!(signal_state(value(0.1)), PressState::Released);
    assert_eq!(signal_state(value(-0.1)), PressState::Released);
    assert_eq!(signal_state(value(0.10000001)), fresh());
    assert_eq!(signal_state(value(-0.10000001)), fresh());
    assert_eq!(signal_state(value(1.0)), fresh());
    assert_eq!(signal_state(value(f32::NAN)), fresh());
    assert_eq!(signal_state(value(f32::INFINITY)), fresh());
}

#[test]
fn signal_state_is_the_comparison_with_a_tenth() {
    let mut bits: u32 = 0;
    loop {
        let x = f32::from_bits(bits);
        let expected = if x.abs() <= 0.1 { PressState::Released } else { fresh() };
        assert_eq!(signal_state(AxisValue::from_bits(bits)), expected, "{bits:#x}");
        match bits.checked_add(0x0001_0003) {
            Some(next) => bits = next,
            None => break,
        }
    }
}

#[test]
fn a_gamepad_button_event_is_recorded() {
    let mut view: InputView<Action> = InputView::new();
    let mut marker = GamepadMarker::with_id(0);
    let south = InputReceiver::GamepadButton(GamepadButtonType::South);
    assert!(marker.handle_event(&mut view, button_event(GamepadButtonType::South, 0.8)));
    assert_eq!(view.state(&south), AxisState::new(value(0.8), fresh()));
    assert_eq!(view.last_input_source, Some(InputSource::Gamepad));
    assert!(marker.handle_event(&mut view, button_event(GamepadButtonType::South, 0.05)));
    assert_eq!(view.state(&south), AxisState::new(value(0.05), PressState::Released));
}

#[test]
fn events_of_another_gamepad_are_not_taken() {
    let mut view: InputView<Action> = InputView::new();
    let mut marker = GamepadMarker::with_id(1);
    assert!(!marker.handle_event(&mut view, button_event(GamepadButtonType::South, 0.8)));
    assert!(!marker.handle_event(&mut view, axis_event(GamepadAxisType::LeftStickX, 0.8)));
    assert!(view.descriptors.is_empty());
    assert_eq!(view.last_input_source, None);
    assert_eq!(marker.reaction(button_event(GamepadButtonType::South, 0.8)), None);
}

#[test]
fn connection_events_are_not_taken() {
    let mut view: InputView<Action> = InputView::new();
    let mut marker = GamepadMarker::with_id(0);
    assert!(!marker.handle_event(&mut view, GamepadEvent(Gamepad(0), GamepadEventType::Connected)));
    assert!(!marker.handle_event(
        &mut view,
        GamepadEvent(Gamepad(0), GamepadEventType::Disconnected)
    ));
    assert!(view.descriptors.is_empty());
    assert_eq!(view.last_input_source, None);
}

#[test]
fn a_stick_inside_its_dead_zone_is_ignored() {
    let mut view: InputView<Action> = InputView::new();
    let mut marker = GamepadMarker::with_dead_zone(0, (value(0.5), value(0.25)));
    assert!(!marker.handle_event(&mut view, axis_event(GamepadAxisType::LeftStickX, 0.4)));
    assert!(!marker.handle_event(&mut view, axis_event(GamepadAxisType::RightStickX, -0.4)));
    assert!(!marker.handle_event(&mut view, axis_event(GamepadAxisType::LeftStickY, 0.2)));
    assert!(!marker.handle_event(&mut view, axis_event(GamepadAxisType::RightStickY, -0.2)));
    assert!(view.descriptors.is_empty());
    assert_eq!(view.last_input_source, None);

    assert!(marker.handle_event(&mut view, axis_event(GamepadAxisType::LeftStickX, 0.5)));
    assert_eq!(
        view.state(&InputReceiver::GamepadAxis(GamepadAxisType::LeftStickX)),
        AxisState::new(value(0.5), fresh())
    );
    assert!(marker.handle_event(&mut view, axis_event(GamepadAxisType::LeftStickY, 0.4)));
    assert!(marker.handle_event(&mut view, axis_event(GamepadAxisType::RightStickY, 0.25)));
    assert_eq!(view.last_input_source, Some(InputSource::Gamepad));
}

#[test]
fn a_stick_at_rest_is_released_even_inside_the_dead_zone() {
    let mut view: InputView<Action> = InputView::new();
    let mut marker = GamepadMarker::with_dead_zone(0, (value(0.5), value(0.5)));
    let stick = InputReceiver::GamepadAxis(GamepadAxisType::LeftStickX);
    view.set_axis_value(stick, value(0.9), fresh());
    assert!(marker.handle_event(&mut view, axis_event(GamepadAxisType::LeftStickX, 0.05)));
    assert_eq!(view.state(&stick), AxisState::new(value(0.05), PressState::Released));
}

#[test]
fn other_axes_have_no_dead_zone() {
    let mut view: InputView<Action> = InputView::new();
    let mut marker = GamepadMarker::with_dead_zone(0, (value(0.9), value(0.9)));
    assert!(marker.handle_event(&mut view, axis_event(GamepadAxisType::LeftZ, 0.3)));
    assert!(marker.handle_event(&mut view, axis_event(GamepadAxisType::RightZ, 0.3)));
    assert_eq!(
        view.state(&InputReceiver::GamepadAxis(GamepadAxisType::LeftZ)),
        AxisState::new(value(0.3), fresh())
    );
    assert!(!marker.in_dead_zone(GamepadAxisType::LeftZ, value(0.3)));
    assert!(marker.in_dead_zone(GamepadAxisType::LeftStickX, value(0.3)));
    assert!(!marker.in_dead_zone(GamepadAxisType::LeftStickX, value(0.9)));
}

#[test]
fn buttons_have_no_dead_zone() {
    let marker = GamepadMarker::with_dead_zone(0, (value(0.9), value(0.9)));
    assert_eq!(
        marker.reaction(button_event(GamepadButtonType::LeftTrigger2, 0.3)),
        Some(ReceiverUpdate {
            receiver: InputReceiver::GamepadButton(GamepadButtonType::LeftTrigger2),
            value: value(0.3),
            press: fresh(),
        })
    );
}

#[test]
fn the_reaction_says_what_handle_event_does() {
    let marker = GamepadMarker::with_dead_zone(0, (value(0.5), value(0.5)));
    assert_eq!(marker.reaction(axis_event(GamepadAxisType::LeftStickX, 0.3)), None);
    assert_eq!(
        marker.reaction(axis_event(GamepadAxisType::LeftStickX, -0.7)),
        Some(ReceiverUpdate {
            receiver: InputReceiver::GamepadAxis(GamepadAxisType::LeftStickX),
            value: value(-0.7),
            press: fresh(),
        })
    );
    assert_eq!(
        marker.reaction(axis_event(GamepadAxisType::LeftStickX, 0.0)),
        Some(ReceiverUpdate {
            receiver: InputReceiver::GamepadAxis(GamepadAxisType::LeftStickX),
            value: value(0.0),
            press: PressState::Released,
        })
    );
}

#[test]
fn gamepad_markers() {
    let plain = GamepadMarker::with_id(3);
    assert_eq!(plain.gamepad, Gamepad(3));
    assert_eq!(plain.dead_zone, Vec2::zero());
    let zoned = GamepadMarker::with_dead_zone(2, (value(0.1), value(0.2)));
    assert_eq!(zoned.gamepad, Gamepad(2));
    assert_eq!(zoned.dead_zone, pair(0.1, 0.2));
    assert_eq!(GamepadMarker::default(), GamepadMarker::with_id(0));
}

#[test]
fn set_gamepad_states_record_and_mark_the_source() {
    let mut view: InputView<Action> = InputView::new();
    let mut marker = GamepadMarker::with_id(0);
    marker.set_gamepad_button_state(&mut view, GamepadButtonType::West, fresh(), value(0.6));
    assert_eq!(
        view.state(&InputReceiver::GamepadButton(GamepadButtonType::West)),
        AxisState::new(value(0.6), fresh())
    );
    assert_eq!(view.last_input_source, Some(InputSource::Gamepad));
    view.last_input_source = None;
    marker.set_gamepad_axis_state(
        &mut view,
        GamepadAxisType::RightStickX,
        PressState::Released,
        value(-0.02),
    );
    assert_eq!(
        view.state(&InputReceiver::GamepadAxis(GamepadAxisType::RightStickX)),
        AxisState::new(value(-0.02), PressState::Released)
    );
    assert_eq!(view.last_input_source, Some(InputSource::Gamepad));
}

#[test]
fn a_clock_never_goes_back() {
    let mut clock = ezinput::clock::InputClock::new();
    assert_eq!(clock.last(), 0);
    assert_eq!(clock.advance(5), 5);
    assert_eq!(clock.last(), 5);
    assert_eq!(clock.advance(3), 5);
    assert_eq!(clock.advance(5), 5);
    assert_eq!(clock.advance(9), 9);
    assert_eq!(clock.last(), 9);
    assert_eq!(clock.advance(u64::MAX), u64::MAX);
    assert_eq!(clock.advance(0), u64::MAX);
}

#[test]
fn a_clock_reads_time_that_passes() {
    let mut clock = ezinput::clock::InputClock::new();
    let mut before = clock.now();
    assert_eq!(clock.last(), before);
    let mut moved = false;
    for _ in 0..10_000_000u32 {
        let now = clock.now();
        assert!(now >= before);
        assert_eq!(clock.last(), now);
        if now > before {
            moved = true;
            break;
        }
        before = now;
    }
    assert!(moved);
}

#[test]
fn a_tick_by_the_clock_stamps_with_its_reading() {
    let mut view: InputView<Action> = InputView::new();
    let mut clock = ezinput::clock::InputClock::new();
    clock.advance(1_000_000_000_000_000);
    view.set_axis_value(key(1), value(1.0), fresh());
    ezinput::plugin::tick(&mut view, &mut clock);
    let reading = clock.last();
    assert!(reading >= 1_000_000_000_000_000);
    assert_eq!(
        view.state(&key(1)).press,
        PressState::Pressed { started_pressing_instant: Some(reading) }
    );
    assert_eq!(view.state(&key(1)).elapsed(reading + 250), Some(250));
}

#[test]
fn a_second_tick_leaves_the_stamp() {
    let mut view: InputView<Action> = InputView::new();
    view.set_axis_value(key(1), value(1.0), fresh());
    tick_system(&mut view, 10);
    let once = view.clone();
    tick_system(&mut view, 99);
    assert!(view == once);
    assert_eq!(view.state(&key(1)).elapsed(110), Some(100));
}

#[test]
fn held_time_grows_with_the_clock() {
    let state = PressState::Pressed { started_pressing_instant: Some(100) };
    let mut last = 0;
    for now in [0u64, 50, 100, 101, 500, 10_000, u64::MAX] {
        let held = state.elapsed(now).unwrap();
        assert!(held >= last);
        last = held;
    }
    assert_eq!(last, u64::MAX - 100);
}
