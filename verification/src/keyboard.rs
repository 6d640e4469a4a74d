//! Keyboard support: key codes, raw key events, and the stage that applies them to a view.

use vstd::prelude::*;
use crate::binding::BindingTypeView;
use crate::receiver::InputReceiver;
use crate::state::{ButtonState, PressState};
use crate::value::AxisValue;
use crate::view::{InputSource, InputView, InputViewModel};

verus! {

/// The code of one key, as the host numbers its keys.
#[derive(PartialEq, Eq, Structural, Clone, Copy, Debug, Hash)]
pub struct KeyCode(pub u32);

/// A raw keyboard event.
#[derive(PartialEq, Eq, Structural, Clone, Copy, Debug)]
pub struct KeyboardInput {
    /// The scan code of the key.
    pub scan_code: u32,
    /// The key code of the key, where the host knows one.
    pub key_code: Option<KeyCode>,
    /// Whether the key went down or up.
    pub state: ButtonState,
}

/// The view after the key `key` reported `state`: the keyboard becomes the class that
/// reported last, and the key takes the state with its default magnitude when pressed and
/// zero when released.
pub open spec fn keyboard_key_changed<Keys>(
    view: InputViewModel<Keys>,
    key: KeyCode,
    state: PressState,
) -> InputViewModel<Keys> {
    view.with_source(InputSource::Keyboard).with_button(InputReceiver::KeyboardKey(key), state)
}

/// The view after one raw keyboard event: an event without a key code changes nothing.
pub open spec fn keyboard_event_applied<Keys>(
    view: InputViewModel<Keys>,
    event: KeyboardInput,
) -> InputViewModel<Keys> {
    match event.key_code {
        Some(key) => keyboard_key_changed(view, key, event.state.press_state()),
        None => view,
    }
}

/// The view after a run of raw keyboard events, applied in order.
pub open spec fn keyboard_events_applied<Keys>(
    view: InputViewModel<Keys>,
    events: Seq<KeyboardInput>,
) -> InputViewModel<Keys>
    decreases events.len(),
{
    if events.len() == 0 {
        view
    } else {
        keyboard_event_applied(keyboard_events_applied(view, events.drop_last()), events.last())
    }
}

/// Marks an entity whose view listens to the keyboard.
#[derive(PartialEq, Eq, Structural, Debug, Clone, Copy, Default)]
pub struct KeyboardMarker;

impl KeyboardMarker {
    /// Records the state of a key and makes the keyboard the class that reported last.
    pub fn set_keyboard_key_state<Keys>(
        &mut self,
        view: &mut InputView<Keys>,
        key: KeyCode,
        state: PressState,
    ) where Keys: BindingTypeView
        ensures
            final(view)@ == keyboard_key_changed(old(view)@, key, state),
            old(view)@.wf() ==> final(view)@.wf(),
    {
        proof {
            crate::laws::lemma_key_state_then_axis(
                old(view)@.with_source(InputSource::Keyboard),
                InputReceiver::KeyboardKey(key),
                state,
            );
            if old(view)@.wf() {
                crate::wellformed::lemma_keyboard_key_changed_wf(old(view)@, key, state);
            }
        }
        view.last_input_source = Some(InputSource::Keyboard);
        view.set_key_receiver_state(InputReceiver::KeyboardKey(key), state);
        let value = match state {
            PressState::Pressed { .. } => view.get_receiver_default_axis_value(
                InputReceiver::KeyboardKey(key),
            ),
            PressState::Released => AxisValue::zero(),
        };
        view.set_axis_value(InputReceiver::KeyboardKey(key), value, state);
    }
}

/// The keyboard stage for one entity: applies the step's raw keyboard events to the view,
/// in order. Events without a key code are passed over.
pub fn keyboard_input_system<Keys: BindingTypeView>(
    view: &mut InputView<Keys>,
    keyboard_svc: &mut KeyboardMarker,
    events: &Vec<KeyboardInput>,
)
    ensures
        final(view)@ == keyboard_events_applied(old(view)@, events@),
        old(view)@.wf() ==> final(view)@.wf(),
{
    proof {
        if old(view)@.wf() {
            crate::wellformed::lemma_keyboard_events_applied_wf(old(view)@, events@);
        }
    }
    let mut i: usize = 0;
    assert(events@.take(0) == Seq::<KeyboardInput>::empty());
    while i < events.len()
        invariant
            i <= events.len(),
            view@ == keyboard_events_applied(old(view)@, events@.take(i as int)),
        decreases events.len() - i,
    {
        let ev = events[i];
        proof {
            assert(events@.take(i + 1).drop_last() == events@.take(i as int));
            assert(events@.take(i + 1).last() == ev);
        }
        if let Some(key) = ev.key_code {
            keyboard_svc.set_keyboard_key_state(view, key, PressState::from(ev.state));
        }
        i += 1;
    }
    assert(events@.take(events@.len() as int) == events@);
}

} // verus!
