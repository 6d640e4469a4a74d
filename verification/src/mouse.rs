//! Mouse support: buttons, axes, raw mouse events, and the stage that applies them to a view.

use vstd::prelude::*;
use crate::binding::BindingTypeView;
use crate::receiver::InputReceiver;
use crate::state::{ButtonState, PressState};
use crate::value::{AxisValue, Vec2};
use crate::view::{InputSource, InputView, InputViewModel};

verus! {

/// A button on a mouse.
#[derive(PartialEq, Eq, Structural, Clone, Copy, Debug, Hash)]
pub enum MouseButton {
    Left,
    Right,
    Middle,
    /// Another button, with the number the host gives it.
    Other(u16),
}

/// An axis of a mouse.
#[derive(PartialEq, Eq, Structural, Clone, Copy, Debug, Hash)]
pub enum MouseAxisType {
    X,
    Y,
    Wheel,
}

/// A raw mouse button event.
#[derive(PartialEq, Eq, Structural, Clone, Copy, Debug)]
pub struct MouseButtonInput {
    pub button: MouseButton,
    /// Whether the button went down or up.
    pub state: ButtonState,
}

/// A raw event that reports where the pointer is, in window coordinates.
#[derive(PartialEq, Eq, Structural, Clone, Copy, Debug)]
pub struct CursorMoved {
    pub position: Vec2,
}

/// A raw event that reports how far the pointer moved since the last report.
#[derive(PartialEq, Eq, Structural, Clone, Copy, Debug)]
pub struct MouseMotion {
    pub delta: Vec2,
}

/// What an entity remembers of the pointer between the stages of a step.
#[derive(PartialEq, Eq, Structural, Debug, Clone, Copy, Default)]
pub struct EZInputMouseService {
    /// Where the pointer was when it last moved.
    pub mouse_position: Option<Vec2>,
    /// How far the pointer moved, where it moved in this step.
    pub mouse_delta: Option<Vec2>,
    pub does_mouse_location_changed_this_tick: bool,
    pub does_mouse_wheel_changed_this_tick: bool,
}

/// The view after the pointer moved: the two position axes and the two motion axes are
/// freshly pressed with the reported magnitudes, and the mouse becomes the class that
/// reported last.
pub open spec fn mouse_moved<Keys>(
    view: InputViewModel<Keys>,
    position: Vec2,
    delta: Vec2,
) -> InputViewModel<Keys> {
    let fresh = PressState::Pressed { started_pressing_instant: None };
    view.with_axis(InputReceiver::MouseAxis(MouseAxisType::X), position.x, fresh).with_axis(
        InputReceiver::MouseAxis(MouseAxisType::Y),
        position.y,
        fresh,
    ).with_axis(InputReceiver::MouseAxisDelta(MouseAxisType::X), delta.x, fresh).with_axis(
        InputReceiver::MouseAxisDelta(MouseAxisType::Y),
        delta.y,
        fresh,
    ).with_source(InputSource::Mouse)
}

/// The view at the start of the mouse stage: the two position axes and the two motion
/// axes are released at zero, until a motion of this step presses them again.
pub open spec fn mouse_rested<Keys>(view: InputViewModel<Keys>) -> InputViewModel<Keys> {
    view.with_axis(
        InputReceiver::MouseAxis(MouseAxisType::X),
        AxisValue::zero(),
        PressState::Released,
    ).with_axis(
        InputReceiver::MouseAxis(MouseAxisType::Y),
        AxisValue::zero(),
        PressState::Released,
    ).with_axis(
        InputReceiver::MouseAxisDelta(MouseAxisType::X),
        AxisValue::zero(),
        PressState::Released,
    ).with_axis(
        InputReceiver::MouseAxisDelta(MouseAxisType::Y),
        AxisValue::zero(),
        PressState::Released,
    )
}

/// The view after the mouse button `button` reported `state`: the mouse becomes the class
/// that reported last, and the button takes the state with its default magnitude when
/// pressed and zero when released.
pub open spec fn mouse_button_changed<Keys>(
    view: InputViewModel<Keys>,
    button: MouseButton,
    state: PressState,
) -> InputViewModel<Keys> {
    view.with_source(InputSource::Mouse).with_button(InputReceiver::MouseButton(button), state)
}

impl EZInputMouseService {
    /// The service after the pointer moved.
    pub open spec fn moved(self, position: Vec2, delta: Vec2) -> Self {
        EZInputMouseService {
            mouse_position: Some(position),
            mouse_delta: Some(delta),
            does_mouse_location_changed_this_tick: true,
            ..self
        }
    }

    /// The service at the start of the mouse stage: nothing has moved yet in this step.
    pub open spec fn rested(self) -> Self {
        EZInputMouseService {
            mouse_delta: None,
            does_mouse_location_changed_this_tick: false,
            does_mouse_wheel_changed_this_tick: false,
            ..self
        }
    }

    /// Records where the pointer is and how far it moved, and makes the mouse the class
    /// that reported last.
    pub fn set_mouse_location<Keys>(
        &mut self,
        view: &mut InputView<Keys>,
        position: Vec2,
        delta: Vec2,
    ) where Keys: BindingTypeView
        ensures
            *final(self) == old(self).moved(position, delta),
            final(view)@ == mouse_moved(old(view)@, position, delta),
            old(view)@.wf() ==> final(view)@.wf(),
    {
        proof {
            if old(view)@.wf() {
                crate::wellformed::lemma_mouse_moved_wf(old(view)@, position, delta);
            }
        }
        let state = PressState::Pressed { started_pressing_instant: None };

        view.set_axis_value(InputReceiver::MouseAxis(MouseAxisType::X), position.x, state);
        view.set_axis_value(InputReceiver::MouseAxis(MouseAxisType::Y), position.y, state);
        view.set_axis_value(InputReceiver::MouseAxisDelta(MouseAxisType::X), delta.x, state);
        view.set_axis_value(InputReceiver::MouseAxisDelta(MouseAxisType::Y), delta.y, state);

        self.mouse_delta = Some(delta);
        self.mouse_position = Some(position);
        self.does_mouse_location_changed_this_tick = true;
        view.last_input_source = Some(InputSource::Mouse);
    }

    /// Opens the mouse stage of a step: the pointer's axes are released at zero until a
    /// motion of this step says otherwise.
    pub fn tick_mouse<Keys>(&mut self, view: &mut InputView<Keys>) where Keys: BindingTypeView
        ensures
            *final(self) == old(self).rested(),
            final(view)@ == mouse_rested(old(view)@),
            old(view)@.wf() ==> final(view)@.wf(),
    {
        proof {
            if old(view)@.wf() {
                crate::wellformed::lemma_mouse_rested_wf(old(view)@);
            }
        }
        view.set_axis_value(
            InputReceiver::MouseAxis(MouseAxisType::X),
            AxisValue::zero(),
            PressState::Released,
        );
        view.set_axis_value(
            InputReceiver::MouseAxis(MouseAxisType::Y),
            AxisValue::zero(),
            PressState::Released,
        );
        view.set_axis_value(
            InputReceiver::MouseAxisDelta(MouseAxisType::X),
            AxisValue::zero(),
            PressState::Released,
        );
        view.set_axis_value(
            InputReceiver::MouseAxisDelta(MouseAxisType::Y),
            AxisValue::zero(),
            PressState::Released,
        );
        self.does_mouse_location_changed_this_tick = false;
        self.does_mouse_wheel_changed_this_tick = false;
        self.mouse_delta = None;
    }

    /// Records the state of a mouse button and makes the mouse the class that reported
    /// last.
    pub fn set_mouse_button_state<Keys>(
        &mut self,
        view: &mut InputView<Keys>,
        button: MouseButton,
        state: PressState,
    ) where Keys: BindingTypeView
        ensures
            *final(self) == *old(self),
            final(view)@ == mouse_button_changed(old(view)@, button, state),
            old(view)@.wf() ==> final(view)@.wf(),
    {
        proof {
            crate::laws::lemma_key_state_then_axis(
                old(view)@.with_source(InputSource::Mouse),
                InputReceiver::MouseButton(button),
                state,
            );
            if old(view)@.wf() {
                crate::wellformed::lemma_mouse_button_changed_wf(old(view)@, button, state);
            }
        }
        view.last_input_source = Some(InputSource::Mouse);
        view.set_key_receiver_state(InputReceiver::MouseButton(button), state);
        let value = match state {
            PressState::Pressed { .. } => view.get_receiver_default_axis_value(
                InputReceiver::MouseButton(button),
            ),
            PressState::Released => AxisValue::zero(),
        };
        view.set_axis_value(InputReceiver::MouseButton(button), value, state);
    }
}

/// An entity's view and mouse service after the first `count` pairs of a position report
/// and a motion report were applied in order.
pub open spec fn mouse_motions_applied<Keys>(
    view: InputViewModel<Keys>,
    service: EZInputMouseService,
    cursor: Seq<CursorMoved>,
    motion: Seq<MouseMotion>,
    count: nat,
) -> (InputViewModel<Keys>, EZInputMouseService)
    decreases count,
{
    if count == 0 {
        (view, service)
    } else {
        let before = mouse_motions_applied(view, service, cursor, motion, (count - 1) as nat);
        (
            mouse_moved(before.0, cursor[count - 1].position, motion[count - 1].delta),
            before.1.moved(cursor[count - 1].position, motion[count - 1].delta),
        )
    }
}

/// The view after a run of raw mouse button events, applied in order.
pub open spec fn mouse_buttons_applied<Keys>(
    view: InputViewModel<Keys>,
    buttons: Seq<MouseButtonInput>,
) -> InputViewModel<Keys>
    decreases buttons.len(),
{
    if buttons.len() == 0 {
        view
    } else {
        mouse_button_changed(
            mouse_buttons_applied(view, buttons.drop_last()),
            buttons.last().button,
            buttons.last().state.press_state(),
        )
    }
}

/// An entity's view and mouse service after the mouse stage of one step: the pointer's
/// axes are put at rest; the position reports are paired with the motion reports in
/// order, as far as both reach, and each pair is applied; then the button events are
/// applied.
pub open spec fn mouse_stage<Keys>(
    view: InputViewModel<Keys>,
    service: EZInputMouseService,
    cursor: Seq<CursorMoved>,
    buttons: Seq<MouseButtonInput>,
    motion: Seq<MouseMotion>,
) -> (InputViewModel<Keys>, EZInputMouseService) {
    let pairs = if cursor.len() <= motion.len() {
        cursor.len()
    } else {
        motion.len()
    };
    let moved = mouse_motions_applied(mouse_rested(view), service.rested(), cursor, motion, pairs);
    (mouse_buttons_applied(moved.0, buttons), moved.1)
}

/// The mouse stage for one entity: puts the pointer's axes at rest, then applies the
/// step's raw motion and button events to the view.
pub fn mouse_input_system<Keys>(
    view: &mut InputView<Keys>,
    mouse_svc: &mut EZInputMouseService,
    cursor: &Vec<CursorMoved>,
    buttons: &Vec<MouseButtonInput>,
    motion: &Vec<MouseMotion>,
) where Keys: BindingTypeView
    ensures
        (final(view)@, *final(mouse_svc)) == mouse_stage(
            old(view)@,
            *old(mouse_svc),
            cursor@,
            buttons@,
            motion@,
        ),
        old(view)@.wf() ==> final(view)@.wf(),
{
    proof {
        if old(view)@.wf() {
            crate::wellformed::lemma_mouse_stage_wf(
                old(view)@,
                *old(mouse_svc),
                cursor@,
                buttons@,
                motion@,
            );
        }
    }
    mouse_svc.tick_mouse(view);
    let pairs = if cursor.len() <= motion.len() {
        cursor.len()
    } else {
        motion.len()
    };
    let ghost rested = view@;
    let ghost rested_service = *mouse_svc;
    let mut i: usize = 0;
    while i < pairs
        invariant
            i <= pairs,
            pairs <= cursor.len(),
            pairs <= motion.len(),
            (view@, *mouse_svc) == mouse_motions_applied(
                rested,
                rested_service,
                cursor@,
                motion@,
                i as nat,
            ),
        decreases pairs - i,
    {
        mouse_svc.set_mouse_location(view, cursor[i].position, motion[i].delta);
        i += 1;
    }
    let ghost moved = view@;
    let mut j: usize = 0;
    assert(buttons@.take(0) == Seq::<MouseButtonInput>::empty());
    while j < buttons.len()
        invariant
            j <= buttons.len(),
            *mouse_svc == mouse_motions_applied(
                rested,
                rested_service,
                cursor@,
                motion@,
                pairs as nat,
            ).1,
            view@ == mouse_buttons_applied(moved, buttons@.take(j as int)),
        decreases buttons.len() - j,
    {
        let ev = buttons[j];
        proof {
            assert(buttons@.take(j + 1).drop_last() == buttons@.take(j as int));
            assert(buttons@.take(j + 1).last() == ev);
        }
        mouse_svc.set_mouse_button_state(view, ev.button, PressState::from(ev.state));
        j += 1;
    }
    assert(buttons@.take(buttons@.len() as int) == buttons@);
}

} // verus!
