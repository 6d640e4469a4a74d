use ezinput::gamepad::{GamepadAxisType, GamepadButtonType};
use ezinput::keyboard::KeyCode;
use ezinput::mouse::{MouseAxisType, MouseButton};
use ezinput::receiver::{InputReceiver, IntoReceiverVec};
use ezinput::view::InputSource;

#[test]
fn every_receiver_has_its_device_class() {
    assert_eq!(InputReceiver::KeyboardKey(KeyCode(76)).source(), InputSource::Keyboard);
    assert_eq!(InputReceiver::MouseButton(MouseButton::Left).source(), InputSource::Mouse);
    assert_eq!(InputReceiver::MouseButton(MouseButton::Other(9)).source(), InputSource::Mouse);
    assert_eq!(InputReceiver::MouseAxis(MouseAxisType::X).source(), InputSource::Mouse);
    assert_eq!(InputReceiver::MouseAxisDelta(MouseAxisType::Wheel).source(), InputSource::Mouse);
    assert_eq!(
        InputReceiver::GamepadButton(GamepadButtonType::South).source(),
        InputSource::Gamepad
    );
    assert_eq!(
        InputReceiver::GamepadAxis(GamepadAxisType::LeftStickX).source(),
        InputSource::Gamepad
    );
}

#[test]
fn device_class_predicates() {
    assert!(InputSource::Gamepad.is_gamepad());
    assert!(!InputSource::Gamepad.is_keyboard());
    assert!(!InputSource::Gamepad.is_mouse());
    assert!(InputSource::Keyboard.is_keyboard());
    assert!(!InputSource::Keyboard.is_gamepad());
    assert!(!InputSource::Keyboard.is_mouse());
    assert!(InputSource::Mouse.is_mouse());
    assert!(!InputSource::Mouse.is_gamepad());
    assert!(!InputSource::Mouse.is_keyboard());
}

#[test]
fn receivers_are_equal_by_variant_and_payload() {
    assert_eq!(InputReceiver::KeyboardKey(KeyCode(1)), InputReceiver::KeyboardKey(KeyCode(1)));
    assert_ne!(InputReceiver::KeyboardKey(KeyCode(1)), InputReceiver::KeyboardKey(KeyCode(2)));
    assert_ne!(
        InputReceiver::MouseAxis(MouseAxisType::X),
        InputReceiver::MouseAxisDelta(MouseAxisType::X)
    );
    assert_ne!(
        InputReceiver::MouseButton(MouseButton::Other(1)),
        InputReceiver::MouseButton(MouseButton::Other(2))
    );
}

#[test]
fn payloads_convert_into_receivers() {
    assert_eq!(InputReceiver::from(KeyCode(3)), InputReceiver::KeyboardKey(KeyCode(3)));
    assert_eq!(
        InputReceiver::from(MouseButton::Middle),
        InputReceiver::MouseButton(MouseButton::Middle)
    );
    assert_eq!(
        InputReceiver::from(GamepadButtonType::Start),
        InputReceiver::GamepadButton(GamepadButtonType::Start)
    );
    assert_eq!(
        InputReceiver::from(GamepadAxisType::RightZ),
        InputReceiver::GamepadAxis(GamepadAxisType::RightZ)
    );
    assert_eq!(
        InputReceiver::from(MouseAxisType::Y),
        InputReceiver::MouseAxis(MouseAxisType::Y)
    );
    let through_into: InputReceiver = KeyCode(8).into();
    assert_eq!(through_into, InputReceiver::KeyboardKey(KeyCode(8)));
}

#[test]
fn single_values_name_one_receiver() {
    assert_eq!(KeyCode(5).into_receiver_vec(), vec![InputReceiver::KeyboardKey(KeyCode(5))]);
    assert_eq!(
        MouseButton::Right.into_receiver_vec(),
        vec![InputReceiver::MouseButton(MouseButton::Right)]
    );
    assert_eq!(
        GamepadButtonType::East.into_receiver_vec(),
        vec![InputReceiver::GamepadButton(GamepadButtonType::East)]
    );
    assert_eq!(
        GamepadAxisType::LeftZ.into_receiver_vec(),
        vec![InputReceiver::GamepadAxis(GamepadAxisType::LeftZ)]
    );
    assert_eq!(
        MouseAxisType::Wheel.into_receiver_vec(),
        vec![InputReceiver::MouseAxis(MouseAxisType::Wheel)]
    );
    let delta = InputReceiver::MouseAxisDelta(MouseAxisType::X);
    assert_eq!(delta.into_receiver_vec(), vec![delta]);
}

#[test]
fn tuples_name_their_receivers_in_order() {
    let a = InputReceiver::KeyboardKey(KeyCode(1));
    let b = InputReceiver::MouseButton(MouseButton::Left);
    let c = InputReceiver::GamepadButton(GamepadButtonType::North);
    let d = InputReceiver::GamepadAxis(GamepadAxisType::RightStickY);
    let e = InputReceiver::MouseAxis(MouseAxisType::X);
    assert_eq!((KeyCode(1), MouseButton::Left).into_receiver_vec(), vec![a, b]);
    assert_eq!(
        (KeyCode(1), MouseButton::Left, GamepadButtonType::North).into_receiver_vec(),
        vec![a, b, c]
    );
    assert_eq!(
        (KeyCode(1), MouseButton::Left, GamepadButtonType::North, GamepadAxisType::RightStickY)
            .into_receiver_vec(),
        vec![a, b, c, d]
    );
    assert_eq!(
        (
            KeyCode(1),
            MouseButton::Left,
            GamepadButtonType::North,
            GamepadAxisType::RightStickY,
            MouseAxisType::X
        )
            .into_receiver_vec(),
        vec![a, b, c, d, e]
    );
}

#[test]
fn nested_tuples_flatten() {
    let a = InputReceiver::KeyboardKey(KeyCode(1));
    let b = InputReceiver::KeyboardKey(KeyCode(2));
    let c = InputReceiver::KeyboardKey(KeyCode(3));
    assert_eq!(((KeyCode(1), KeyCode(2)), KeyCode(3)).into_receiver_vec(), vec![a, b, c]);
    assert_eq!((KeyCode(1), (KeyCode(2), KeyCode(3))).into_receiver_vec(), vec![a, b, c]);
}
