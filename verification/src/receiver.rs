//! Receivers: the physical signals that a binding can listen to.

use vstd::prelude::*;
use crate::gamepad::{GamepadAxisType, GamepadButtonType};
use crate::keyboard::KeyCode;
use crate::mouse::{MouseAxisType, MouseButton};
use crate::view::InputSource;

verus! {

/// One physical input signal. Two receivers are the same when variant and payload agree.
#[derive(PartialEq, Eq, Structural, Hash, Clone, Copy, Debug)]
pub enum InputReceiver {
    KeyboardKey(KeyCode),
    MouseButton(MouseButton),
    GamepadButton(GamepadButtonType),
    /// The position of the pointer along an axis.
    MouseAxis(MouseAxisType),
    GamepadAxis(GamepadAxisType),
    /// The motion of the pointer along an axis since the last report.
    MouseAxisDelta(MouseAxisType),
}

impl InputReceiver {
    /// The device class that the receiver belongs to, in specifications.
    pub open spec fn spec_source(&self) -> InputSource {
        match *self {
            InputReceiver::KeyboardKey(_) => InputSource::Keyboard,
            InputReceiver::GamepadButton(_) | InputReceiver::GamepadAxis(_) => InputSource::Gamepad,
            InputReceiver::MouseButton(_)
            | InputReceiver::MouseAxis(_)
            | InputReceiver::MouseAxisDelta(_) => InputSource::Mouse,
        }
    }

    /// The device class that the receiver belongs to.
    #[verifier::when_used_as_spec(spec_source)]
    pub fn source(&self) -> (source: InputSource)
        ensures
            source == self.spec_source(),
    {
        match *self {
            InputReceiver::KeyboardKey(_) => InputSource::Keyboard,
            InputReceiver::GamepadButton(_) | InputReceiver::GamepadAxis(_) => InputSource::Gamepad,
            InputReceiver::MouseButton(_)
            | InputReceiver::MouseAxis(_)
            | InputReceiver::MouseAxisDelta(_) => InputSource::Mouse,
        }
    }
}

impl vstd::std_specs::convert::FromSpecImpl<KeyCode> for InputReceiver {
    open spec fn obeys_from_spec() -> bool {
        true
    }

    open spec fn from_spec(key: KeyCode) -> Self {
        InputReceiver::KeyboardKey(key)
    }
}

impl From<KeyCode> for InputReceiver {
    fn from(key: KeyCode) -> (receiver: InputReceiver) {
        InputReceiver::KeyboardKey(key)
    }
}

impl vstd::std_specs::convert::FromSpecImpl<MouseButton> for InputReceiver {
    open spec fn obeys_from_spec() -> bool {
        true
    }

    open spec fn from_spec(button: MouseButton) -> Self {
        InputReceiver::MouseButton(button)
    }
}

impl From<MouseButton> for InputReceiver {
    fn from(button: MouseButton) -> (receiver: InputReceiver) {
        InputReceiver::MouseButton(button)
    }
}

impl vstd::std_specs::convert::FromSpecImpl<GamepadButtonType> for InputReceiver {
    open spec fn obeys_from_spec() -> bool {
        true
    }

    open spec fn from_spec(button: GamepadButtonType) -> Self {
        InputReceiver::GamepadButton(button)
    }
}

impl From<GamepadButtonType> for InputReceiver {
    fn from(button: GamepadButtonType) -> (receiver: InputReceiver) {
        InputReceiver::GamepadButton(button)
    }
}

impl vstd::std_specs::convert::FromSpecImpl<GamepadAxisType> for InputReceiver {
    open spec fn obeys_from_spec() -> bool {
        true
    }

    open spec fn from_spec(axis: GamepadAxisType) -> Self {
        InputReceiver::GamepadAxis(axis)
    }
}

impl From<GamepadAxisType> for InputReceiver {
    fn from(axis: GamepadAxisType) -> (receiver: InputReceiver) {
        InputReceiver::GamepadAxis(axis)
    }
}

impl vstd::std_specs::convert::FromSpecImpl<MouseAxisType> for InputReceiver {
    open spec fn obeys_from_spec() -> bool {
        true
    }

    /// A bare mouse axis stands for the pointer's position along it, not its motion.
    open spec fn from_spec(axis: MouseAxisType) -> Self {
        InputReceiver::MouseAxis(axis)
    }
}

impl From<MouseAxisType> for InputReceiver {
    fn from(axis: MouseAxisType) -> (receiver: InputReceiver) {
        InputReceiver::MouseAxis(axis)
    }
}

/// Anything that names one or more receivers: a receiver, a key, a button, an axis, or a
/// tuple of such, whose receivers follow each other in the tuple's order.
pub trait IntoReceiverVec {
    /// The receivers named, in order.
    spec fn receivers(&self) -> Seq<InputReceiver>;

    /// The receivers named, in order.
    fn into_receiver_vec(&self) -> (list: Vec<InputReceiver>)
        ensures
            list@ == self.receivers(),
    ;
}

impl IntoReceiverVec for InputReceiver {
    open spec fn receivers(&self) -> Seq<InputReceiver> {
        seq![*self]
    }

    fn into_receiver_vec(&self) -> (list: Vec<InputReceiver>) {
        vec![*self]
    }
}

impl IntoReceiverVec for KeyCode {
    open spec fn receivers(&self) -> Seq<InputReceiver> {
        seq![InputReceiver::KeyboardKey(*self)]
    }

    fn into_receiver_vec(&self) -> (list: Vec<InputReceiver>) {
        vec![InputReceiver::KeyboardKey(*self)]
    }
}

impl IntoReceiverVec for MouseButton {
    open spec fn receivers(&self) -> Seq<InputReceiver> {
        seq![InputReceiver::MouseButton(*self)]
    }

    fn into_receiver_vec(&self) -> (list: Vec<InputReceiver>) {
        vec![InputReceiver::MouseButton(*self)]
    }
}

impl IntoReceiverVec for GamepadButtonType {
    open spec fn receivers(&self) -> Seq<InputReceiver> {
        seq![InputReceiver::GamepadButton(*self)]
    }

    fn into_receiver_vec(&self) -> (list: Vec<InputReceiver>) {
        vec![InputReceiver::GamepadButton(*self)]
    }
}

impl IntoReceiverVec for GamepadAxisType {
    open spec fn receivers(&self) -> Seq<InputReceiver> {
        seq![InputReceiver::GamepadAxis(*self)]
    }

    fn into_receiver_vec(&self) -> (list: Vec<InputReceiver>) {
        vec![InputReceiver::GamepadAxis(*self)]
    }
}

impl IntoReceiverVec for MouseAxisType {
    open spec fn receivers(&self) -> Seq<InputReceiver> {
        seq![InputReceiver::MouseAxis(*self)]
    }

    fn into_receiver_vec(&self) -> (list: Vec<InputReceiver>) {
        vec![InputReceiver::MouseAxis(*self)]
    }
}

impl<A, B> IntoReceiverVec for (A, B) where A: IntoReceiverVec, B: IntoReceiverVec {
    open spec fn receivers(&self) -> Seq<InputReceiver> {
        self.0.receivers() + self.1.receivers()
    }

    fn into_receiver_vec(&self) -> (list: Vec<InputReceiver>) {
        let mut list = self.0.into_receiver_vec();
        let mut next = self.1.into_receiver_vec();
        list.append(&mut next);
        list
    }
}

impl<A, B, C> IntoReceiverVec for (A, B, C) where
    A: IntoReceiverVec,
    B: IntoReceiverVec,
    C: IntoReceiverVec,
 {
    open spec fn receivers(&self) -> Seq<InputReceiver> {
        self.0.receivers() + self.1.receivers() + self.2.receivers()
    }

    fn into_receiver_vec(&self) -> (list: Vec<InputReceiver>) {
        let mut list = self.0.into_receiver_vec();
        let mut next = self.1.into_receiver_vec();
        list.append(&mut next);
        let mut next = self.2.into_receiver_vec();
        list.append(&mut next);
        list
    }
}

impl<A, B, C, D> IntoReceiverVec for (A, B, C, D) where
    A: IntoReceiverVec,
    B: IntoReceiverVec,
    C: IntoReceiverVec,
    D: IntoReceiverVec,
 {
    open spec fn receivers(&self) -> Seq<InputReceiver> {
        self.0.receivers() + self.1.receivers() + self.2.receivers() + self.3.receivers()
    }

    fn into_receiver_vec(&self) -> (list: Vec<InputReceiver>) {
        let mut list = self.0.into_receiver_vec();
        let mut next = self.1.into_receiver_vec();
        list.append(&mut next);
        let mut next = self.2.into_receiver_vec();
        list.append(&mut next);
        let mut next = self.3.into_receiver_vec();
        list.append(&mut next);
        list
    }
}

impl<A, B, C, D, E> IntoReceiverVec for (A, B, C, D, E) where
    A: IntoReceiverVec,
    B: IntoReceiverVec,
    C: IntoReceiverVec,
    D: IntoReceiverVec,
    E: IntoReceiverVec,
 {
    open spec fn receivers(&self) -> Seq<InputReceiver> {
        self.0.receivers() + self.1.receivers() + self.2.receivers() + self.3.receivers()
            + self.4.receivers()
    }

    fn into_receiver_vec(&self) -> (list: Vec<InputReceiver>) {
        let mut list = self.0.into_receiver_vec();
        let mut next = self.1.into_receiver_vec();
        list.append(&mut next);
        let mut next = self.2.into_receiver_vec();
        list.append(&mut next);
        let mut next = self.3.into_receiver_vec();
        list.append(&mut next);
        let mut next = self.4.into_receiver_vec();
        list.append(&mut next);
        list
    }
}

} // verus!
