//! Well-formedness of views: every operation on a well-formed view leaves a well-formed
//! view.

use vstd::prelude::*;
use crate::binding::{lemma_without_source_wf, BindingModel};
use crate::gamepad::{gamepad_event_applied, GamepadEvent, GamepadMarker};
use crate::keyboard::{
    keyboard_event_applied, keyboard_events_applied, keyboard_key_changed, KeyCode, KeyboardInput,
};
use crate::lookup::{lemma_filter_keeps_keys_distinct, lemma_index_of_first};
use crate::mouse::{
    mouse_button_changed, mouse_buttons_applied, mouse_motions_applied, mouse_moved, mouse_rested,
    mouse_stage, CursorMoved, EZInputMouseService, MouseButton, MouseButtonInput, MouseMotion,
};
use crate::receiver::InputReceiver;
use crate::state::{AxisState, PressState, Timestamp};
use crate::value::{AxisValue, Vec2};
use crate::view::{InputSource, InputViewModel, ReceiverDescriptor};

verus! {

/// An empty view is well formed.
pub proof fn lemma_empty_wf<Keys>(capacity: usize)
    ensures
        InputViewModel::<Keys>::empty(capacity).wf(),
{
    assert(InputViewModel::<Keys>::empty(capacity).inputs() == Seq::<InputReceiver>::empty());
}

/// Dropping the irrelevant descriptors keeps a view well formed.
pub proof fn lemma_cleaned_wf<Keys>(view: InputViewModel<Keys>, capacity: usize)
    requires
        view.wf(),
    ensures
        view.cleaned().wf(),
        view.resized(capacity).wf(),
{
    lemma_filter_keeps_keys_distinct(
        view.descriptors,
        |descriptor: ReceiverDescriptor| descriptor.input,
        |descriptor: ReceiverDescriptor| descriptor.is_relevant(),
    );
}

/// Adding a descriptor for a receiver that has none keeps a view well formed.
pub proof fn lemma_added_wf<Keys>(view: InputViewModel<Keys>, descriptor: ReceiverDescriptor)
    requires
        view.wf(),
        view.position(descriptor.input) is None,
    ensures
        view.added(descriptor).wf(),
{
    let receiver = descriptor.input;
    lemma_cleaned_wf(view, view.capacity);
    lemma_index_of_first(view.inputs(), receiver);
    let relevant = |descriptor: ReceiverDescriptor| descriptor.is_relevant();
    let kept = view.descriptors.filter(relevant);
    assert forall|j: int| 0 <= j < kept.len() implies kept[j].input != receiver by {
        assert(kept.contains(kept[j]));
        view.descriptors.lemma_filter_contains_rev(relevant, kept[j]);
        let k = choose|k: int| 0 <= k < view.descriptors.len() && view.descriptors[k] == kept[j];
        assert(view.inputs()[k] != receiver);
    }
    let base = if view.descriptors.len() >= view.capacity {
        view.cleaned()
    } else {
        view
    };
    let after = view.added(descriptor).inputs();
    assert forall|i: int, j: int|
        0 <= i < after.len() && 0 <= j < after.len() && i != j implies after[i] != after[j] by {
        if i < base.descriptors.len() && j < base.descriptors.len() {
            assert(base.inputs()[i] != base.inputs()[j]);
        } else if i < base.descriptors.len() {
            assert(base.inputs()[i] != receiver);
        } else {
            assert(base.inputs()[j] != receiver);
        }
    }
}

/// Giving a receiver its descriptor keeps a view well formed.
pub proof fn lemma_ensured_wf<Keys>(view: InputViewModel<Keys>, receiver: InputReceiver)
    requires
        view.wf(),
    ensures
        view.ensured(receiver).wf(),
{
    if view.position(receiver) is None {
        lemma_added_wf(view, ReceiverDescriptor::new(receiver, AxisValue::one()));
    }
}

/// Replacing a descriptor by one of the same receiver keeps a view well formed.
pub proof fn lemma_replaced_wf<Keys>(
    view: InputViewModel<Keys>,
    index: int,
    descriptor: ReceiverDescriptor,
)
    requires
        view.wf(),
        0 <= index < view.descriptors.len(),
        descriptor.input == view.descriptors[index].input,
    ensures
        view.with_descriptor_at(index, descriptor).wf(),
{
    assert(view.with_descriptor_at(index, descriptor).inputs() == view.inputs());
}

/// Recording what a receiver reported keeps a view well formed.
pub proof fn lemma_with_axis_wf<Keys>(
    view: InputViewModel<Keys>,
    receiver: InputReceiver,
    value: AxisValue,
    press: PressState,
)
    requires
        view.wf(),
    ensures
        view.with_axis(receiver, value, press).wf(),
{
    let base = view.ensured(receiver);
    lemma_ensured_wf(view, receiver);
    crate::laws::lemma_ensured_position(view, receiver);
    lemma_index_of_first(base.inputs(), receiver);
    let index = base.position(receiver).unwrap();
    lemma_replaced_wf(base, index, base.descriptors[index].with_axis(AxisState { value, press }));
}

/// Registering a default magnitude keeps a view well formed.
pub proof fn lemma_with_default_wf<Keys>(
    view: InputViewModel<Keys>,
    receiver: InputReceiver,
    value: AxisValue,
)
    requires
        view.wf(),
    ensures
        view.with_default(receiver, value).wf(),
{
    let base = view.ensured(receiver);
    lemma_ensured_wf(view, receiver);
    crate::laws::lemma_ensured_position(view, receiver);
    lemma_index_of_first(base.inputs(), receiver);
    let index = base.position(receiver).unwrap();
    lemma_replaced_wf(base, index, base.descriptors[index].with_default(value));
}

/// Registering a table of defaults keeps a view well formed.
pub proof fn lemma_with_defaults_wf<Keys>(
    view: InputViewModel<Keys>,
    defaults: Seq<(InputReceiver, AxisValue)>,
)
    requires
        view.wf(),
    ensures
        view.with_defaults(defaults).wf(),
        view.with_defaults(defaults).bindings == view.bindings,
    decreases defaults.len(),
{
    if defaults.len() > 0 {
        lemma_with_defaults_wf(view, defaults.drop_last());
        lemma_with_default_wf(
            view.with_defaults(defaults.drop_last()),
            defaults.last().0,
            defaults.last().1,
        );
    }
}

/// Recording a press or release of a digital receiver keeps a view well formed.
pub proof fn lemma_with_key_state_wf<Keys>(
    view: InputViewModel<Keys>,
    receiver: InputReceiver,
    press: PressState,
)
    requires
        view.wf(),
    ensures
        view.with_key_state(receiver, press).wf(),
{
    let base = view.ensured(receiver);
    lemma_ensured_wf(view, receiver);
    crate::laws::lemma_ensured_position(view, receiver);
    lemma_index_of_first(base.inputs(), receiver);
    let index = base.position(receiver).unwrap();
    let descriptor = base.descriptors[index];
    lemma_replaced_wf(
        base,
        index,
        descriptor.with_axis(AxisState { value: descriptor.default_axis_value, press }),
    );
    lemma_replaced_wf(
        base,
        index,
        descriptor.with_axis(AxisState { value: AxisValue::zero(), press }),
    );
}

/// Recording what a key or button reported keeps a view well formed.
pub proof fn lemma_with_button_wf<Keys>(
    view: InputViewModel<Keys>,
    receiver: InputReceiver,
    press: PressState,
)
    requires
        view.wf(),
    ensures
        view.with_button(receiver, press).wf(),
{
    let value = match press {
        PressState::Pressed { .. } => view.default_of(receiver),
        PressState::Released => AxisValue::zero(),
    };
    lemma_with_axis_wf(view, receiver, value, press);
}

/// Registering a well-formed binding keeps a view well formed.
pub proof fn lemma_with_binding_wf<Keys>(
    view: InputViewModel<Keys>,
    id: u64,
    binding: BindingModel<Keys>,
)
    requires
        view.wf(),
        binding.wf(),
    ensures
        view.with_binding(id, binding).wf(),
{
    lemma_with_defaults_wf(view, binding.default_axis_value);
    assert(crate::binding::default_keys(binding.without_defaults().default_axis_value) == Seq::<
        InputReceiver,
    >::empty());
}

/// A tick keeps a view well formed.
pub proof fn lemma_ticked_wf<Keys>(view: InputViewModel<Keys>, now: Timestamp)
    requires
        view.wf(),
    ensures
        view.ticked(now).wf(),
{
    assert(view.ticked(now).inputs() == view.inputs());
}

/// Restricting a view to the devices other than one class keeps it well formed.
pub proof fn lemma_cleared_wf<Keys>(view: InputViewModel<Keys>, source: InputSource)
    requires
        view.wf(),
    ensures
        view.cleared(source).wf(),
{
    lemma_filter_keeps_keys_distinct(
        view.descriptors,
        |descriptor: ReceiverDescriptor| descriptor.input,
        |descriptor: ReceiverDescriptor| descriptor.input.source() != source,
    );
    assert forall|id: u64| view.cleared(source).bindings.contains_key(id) implies (
    #[trigger] view.cleared(source).bindings[id]).wf() by {
        lemma_without_source_wf(view.bindings[id], source);
    }
}

/// A key event keeps a view well formed.
pub proof fn lemma_keyboard_key_changed_wf<Keys>(
    view: InputViewModel<Keys>,
    key: KeyCode,
    state: PressState,
)
    requires
        view.wf(),
    ensures
        keyboard_key_changed(view, key, state).wf(),
{
    lemma_with_button_wf(
        view.with_source(InputSource::Keyboard),
        InputReceiver::KeyboardKey(key),
        state,
    );
}

/// A run of keyboard events keeps a view well formed.
pub proof fn lemma_keyboard_events_applied_wf<Keys>(
    view: InputViewModel<Keys>,
    events: Seq<KeyboardInput>,
)
    requires
        view.wf(),
    ensures
        keyboard_events_applied(view, events).wf(),
    decreases events.len(),
{
    if events.len() > 0 {
        lemma_keyboard_events_applied_wf(view, events.drop_last());
        let before = keyboard_events_applied(view, events.drop_last());
        if let Some(key) = events.last().key_code {
            lemma_keyboard_key_changed_wf(before, key, events.last().state.press_state());
        }
    }
}

/// A motion of the pointer keeps a view well formed.
pub proof fn lemma_mouse_moved_wf<Keys>(view: InputViewModel<Keys>, position: Vec2, delta: Vec2)
    requires
        view.wf(),
    ensures
        mouse_moved(view, position, delta).wf(),
{
    let fresh = PressState::Pressed { started_pressing_instant: None };
    let x = InputReceiver::MouseAxis(crate::mouse::MouseAxisType::X);
    let y = InputReceiver::MouseAxis(crate::mouse::MouseAxisType::Y);
    let dx = InputReceiver::MouseAxisDelta(crate::mouse::MouseAxisType::X);
    let dy = InputReceiver::MouseAxisDelta(crate::mouse::MouseAxisType::Y);
    let first = view.with_axis(x, position.x, fresh);
    lemma_with_axis_wf(view, x, position.x, fresh);
    let second = first.with_axis(y, position.y, fresh);
    lemma_with_axis_wf(first, y, position.y, fresh);
    let third = second.with_axis(dx, delta.x, fresh);
    lemma_with_axis_wf(second, dx, delta.x, fresh);
    lemma_with_axis_wf(third, dy, delta.y, fresh);
}

/// Putting the pointer's axes at rest keeps a view well formed.
pub proof fn lemma_mouse_rested_wf<Keys>(view: InputViewModel<Keys>)
    requires
        view.wf(),
    ensures
        mouse_rested(view).wf(),
{
    let rest = PressState::Released;
    let zero = AxisValue::zero();
    let x = InputReceiver::MouseAxis(crate::mouse::MouseAxisType::X);
    let y = InputReceiver::MouseAxis(crate::mouse::MouseAxisType::Y);
    let dx = InputReceiver::MouseAxisDelta(crate::mouse::MouseAxisType::X);
    let dy = InputReceiver::MouseAxisDelta(crate::mouse::MouseAxisType::Y);
    let first = view.with_axis(x, zero, rest);
    lemma_with_axis_wf(view, x, zero, rest);
    let second = first.with_axis(y, zero, rest);
    lemma_with_axis_wf(first, y, zero, rest);
    let third = second.with_axis(dx, zero, rest);
    lemma_with_axis_wf(second, dx, zero, rest);
    lemma_with_axis_wf(third, dy, zero, rest);
}

/// A mouse button event keeps a view well formed.
pub proof fn lemma_mouse_button_changed_wf<Keys>(
    view: InputViewModel<Keys>,
    button: MouseButton,
    state: PressState,
)
    requires
        view.wf(),
    ensures
        mouse_button_changed(view, button, state).wf(),
{
    lemma_with_button_wf(
        view.with_source(InputSource::Mouse),
        InputReceiver::MouseButton(button),
        state,
    );
}

/// A run of pointer motions keeps a view well formed.
pub proof fn lemma_mouse_motions_applied_wf<Keys>(
    view: InputViewModel<Keys>,
    service: EZInputMouseService,
    cursor: Seq<CursorMoved>,
    motion: Seq<MouseMotion>,
    count: nat,
)
    requires
        view.wf(),
    ensures
        mouse_motions_applied(view, service, cursor, motion, count).0.wf(),
    decreases count,
{
    if count > 0 {
        lemma_mouse_motions_applied_wf(view, service, cursor, motion, (count - 1) as nat);
        lemma_mouse_moved_wf(
            mouse_motions_applied(view, service, cursor, motion, (count - 1) as nat).0,
            cursor[count - 1].position,
            motion[count - 1].delta,
        );
    }
}

/// A run of mouse button events keeps a view well formed.
pub proof fn lemma_mouse_buttons_applied_wf<Keys>(
    view: InputViewModel<Keys>,
    buttons: Seq<MouseButtonInput>,
)
    requires
        view.wf(),
    ensures
        mouse_buttons_applied(view, buttons).wf(),
    decreases buttons.len(),
{
    if buttons.len() > 0 {
        lemma_mouse_buttons_applied_wf(view, buttons.drop_last());
        lemma_mouse_button_changed_wf(
            mouse_buttons_applied(view, buttons.drop_last()),
            buttons.last().button,
            buttons.last().state.press_state(),
        );
    }
}

/// The mouse stage keeps a view well formed.
pub proof fn lemma_mouse_stage_wf<Keys>(
    view: InputViewModel<Keys>,
    service: EZInputMouseService,
    cursor: Seq<CursorMoved>,
    buttons: Seq<MouseButtonInput>,
    motion: Seq<MouseMotion>,
)
    requires
        view.wf(),
    ensures
        mouse_stage(view, service, cursor, buttons, motion).0.wf(),
{
    let pairs = if cursor.len() <= motion.len() {
        cursor.len()
    } else {
        motion.len()
    };
    lemma_mouse_rested_wf(view);
    lemma_mouse_motions_applied_wf(mouse_rested(view), service.rested(), cursor, motion, pairs);
    lemma_mouse_buttons_applied_wf(
        mouse_motions_applied(mouse_rested(view), service.rested(), cursor, motion, pairs).0,
        buttons,
    );
}

/// A gamepad event keeps a view well formed, taken or not.
pub proof fn lemma_gamepad_event_applied_wf<Keys>(
    view: InputViewModel<Keys>,
    marker: GamepadMarker,
    event: GamepadEvent,
)
    requires
        view.wf(),
    ensures
        gamepad_event_applied(view, marker, event).wf(),
{
    if let Some(update) = marker.reaction(event) {
        lemma_with_axis_wf(
            view.with_source(InputSource::Gamepad),
            update.receiver,
            update.value,
            update.press,
        );
    }
}

} // verus!
