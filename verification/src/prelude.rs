//! The names that most users of the library want, in one place.

pub use crate::binding::{ActionBinding, BindingTypeView, InputReceivers};
pub use crate::bundle::InputHandlingBundle;
pub use crate::clock::InputClock;
pub use crate::gamepad::{
    Gamepad, GamepadAxisType, GamepadButtonType, GamepadEvent, GamepadEventType, GamepadMarker,
};
pub use crate::keyboard::{keyboard_input_system, KeyCode, KeyboardInput, KeyboardMarker};
pub use crate::labels::EZInputLabels;
pub use crate::mouse::{
    mouse_input_system, CursorMoved, EZInputMouseService, MouseAxisType, MouseButton,
    MouseButtonInput, MouseMotion,
};
pub use crate::plugin::{tick, tick_system};
pub use crate::receiver::InputReceiver::{
    GamepadAxis, GamepadButton, KeyboardKey, MouseAxis, MouseAxisDelta,
};
pub use crate::receiver::{InputReceiver, IntoReceiverVec};
pub use crate::state::{
    AxisState, AxisStateVecExt, ButtonState, PressState, PressStateExt, Timestamp,
};
pub use crate::value::{AxisValue, Vec2};
pub use crate::view::{InputSource, InputView, ReceiverDescriptor};
