//! What a report of one receiver leaves alone: the other receivers, and the actions that
//! are not bound to it.
//!
//! A report can make a view at its capacity drop irrelevant descriptors. A released
//! receiver whose descriptor goes then reads zero where it read the magnitude it was
//! released at; nothing else is ever seen of a cleanup. `agrees_on` says so of one
//! receiver, and the laws below carry it from descriptors up to what actions resolve to.

use vstd::prelude::*;
use crate::laws::{lemma_ensured_position, lemma_with_axis_state};
use crate::mouse::{mouse_rested, MouseAxisType};
use crate::lookup::{lemma_first_occurrence, lemma_index_of_first, lemma_no_occurrence};
use crate::receiver::InputReceiver;
use crate::state::{AxisState, PressState};
use crate::value::AxisValue;
use crate::view::{lemma_resolve_winner, InputViewModel, ReceiverDescriptor};
use crate::wellformed::{lemma_cleaned_wf, lemma_ensured_wf, lemma_with_axis_wf};

verus! {

/// Whether `after` reads `receiver` as `before` does: with the same default magnitude,
/// and with the same state, but that a released receiver may have gone to zero.
pub open spec fn agrees_on<Keys>(
    before: InputViewModel<Keys>,
    after: InputViewModel<Keys>,
    receiver: InputReceiver,
) -> bool {
    &&& after.default_of(receiver) == before.default_of(receiver)
    &&& after.state_of(receiver) == before.state_of(receiver) || (before.state_of(
        receiver,
    ).press.is_released() && after.state_of(receiver) == AxisState::zero())
}

/// A view that reads a receiver as a second one does, which reads it as a third one does,
/// reads it as the third one does.
pub proof fn lemma_agrees_on_transitive<Keys>(
    first: InputViewModel<Keys>,
    second: InputViewModel<Keys>,
    third: InputViewModel<Keys>,
    receiver: InputReceiver,
)
    requires
        agrees_on(first, second, receiver),
        agrees_on(second, third, receiver),
    ensures
        agrees_on(first, third, receiver),
{
}

/// A cleanup of a well-formed view is not seen in any receiver, but for the magnitudes of
/// released receivers.
pub proof fn lemma_cleaned_agrees<Keys>(view: InputViewModel<Keys>, receiver: InputReceiver)
    requires
        view.wf(),
    ensures
        agrees_on(view, view.cleaned(), receiver),
{
    let relevant = |descriptor: ReceiverDescriptor| descriptor.is_relevant();
    let cleaned = view.cleaned();
    let kept = cleaned.descriptors;
    lemma_cleaned_wf(view, view.capacity);
    lemma_index_of_first(view.inputs(), receiver);
    lemma_index_of_first(cleaned.inputs(), receiver);
    assert forall|j: int| 0 <= j < kept.len() && kept[j].input == receiver implies view.position(
        receiver,
    ) is Some && kept[j] == view.descriptors[view.position(receiver).unwrap()]
        && kept[j].is_relevant() by {
        view.descriptors.lemma_filter_pred(relevant, j);
        assert(kept.contains(kept[j]));
        view.descriptors.lemma_filter_contains_rev(relevant, kept[j]);
        let m = choose|m: int| 0 <= m < view.descriptors.len() && view.descriptors[m] == kept[j];
        assert(view.inputs()[m] == receiver);
        let k = view.position(receiver).unwrap();
        assert(view.inputs()[k] == receiver);
    }
    match view.position(receiver) {
        Some(k) => {
            let descriptor = view.descriptors[k];
            if descriptor.is_relevant() {
                view.descriptors.lemma_filter_contains(relevant, k);
                let found = choose|found: int| 0 <= found < kept.len() && kept[found] == descriptor;
                assert(cleaned.inputs()[found] == receiver);
                let p = cleaned.position(receiver).unwrap();
                assert(kept[p].input == receiver);
            } else {
                if cleaned.position(receiver) is Some {
                    let p = cleaned.position(receiver).unwrap();
                    assert(kept[p].input == receiver);
                }
            }
        },
        None => {
            if cleaned.position(receiver) is Some {
                let p = cleaned.position(receiver).unwrap();
                assert(kept[p].input == receiver);
            }
        },
    }
}

/// A descriptor put at the end of the list is not seen in any other receiver.
pub proof fn lemma_pushed_agrees<Keys>(
    view: InputViewModel<Keys>,
    descriptor: ReceiverDescriptor,
    receiver: InputReceiver,
)
    requires
        receiver != descriptor.input,
    ensures
        agrees_on(
            view,
            InputViewModel { descriptors: view.descriptors.push(descriptor), ..view },
            receiver,
        ),
{
    let pushed = InputViewModel { descriptors: view.descriptors.push(descriptor), ..view };
    lemma_index_of_first(view.inputs(), receiver);
    match view.position(receiver) {
        Some(k) => {
            assert forall|j: int| 0 <= j < k implies pushed.inputs()[j] != receiver by {
                assert(view.inputs()[j] != receiver);
            }
            lemma_first_occurrence(pushed.inputs(), receiver, k);
        },
        None => {
            assert forall|j: int| 0 <= j < pushed.inputs().len() implies pushed.inputs()[j]
                != receiver by {
                if j < view.inputs().len() {
                    assert(view.inputs()[j] != receiver);
                }
            }
            lemma_no_occurrence(pushed.inputs(), receiver);
        },
    }
}

/// Adding a descriptor to a well-formed view is not seen in any other receiver, but for
/// the magnitudes of released receivers.
pub proof fn lemma_added_agrees<Keys>(
    view: InputViewModel<Keys>,
    descriptor: ReceiverDescriptor,
    receiver: InputReceiver,
)
    requires
        view.wf(),
        receiver != descriptor.input,
    ensures
        agrees_on(view, view.added(descriptor), receiver),
{
    if view.descriptors.len() >= view.capacity {
        lemma_cleaned_agrees(view, receiver);
        lemma_pushed_agrees(view.cleaned(), descriptor, receiver);
    } else {
        lemma_pushed_agrees(view, descriptor, receiver);
    }
}

/// Replacing a descriptor by one of the same receiver is not seen in any other receiver.
pub proof fn lemma_replaced_agrees<Keys>(
    view: InputViewModel<Keys>,
    index: int,
    descriptor: ReceiverDescriptor,
    receiver: InputReceiver,
)
    requires
        0 <= index < view.descriptors.len(),
        descriptor.input == view.descriptors[index].input,
        receiver != descriptor.input,
    ensures
        agrees_on(view, view.with_descriptor_at(index, descriptor), receiver),
{
    assert(view.with_descriptor_at(index, descriptor).inputs() == view.inputs());
    lemma_index_of_first(view.inputs(), receiver);
    if view.position(receiver) is Some {
        assert(view.inputs()[view.position(receiver).unwrap()] == receiver);
    }
}

/// Giving a receiver its descriptor is not seen in any other receiver, but for the
/// magnitudes of released receivers.
pub proof fn lemma_ensured_agrees<Keys>(
    view: InputViewModel<Keys>,
    receiver: InputReceiver,
    other: InputReceiver,
)
    requires
        view.wf(),
        other != receiver,
    ensures
        agrees_on(view, view.ensured(receiver), other),
{
    if view.position(receiver) is None {
        lemma_added_agrees(view, ReceiverDescriptor::new(receiver, AxisValue::one()), other);
    }
}

/// One receiver's report leaves every other receiver as it reads, but that a released
/// receiver may go to zero.
pub proof fn lemma_with_axis_agrees<Keys>(
    view: InputViewModel<Keys>,
    receiver: InputReceiver,
    value: AxisValue,
    press: PressState,
    other: InputReceiver,
)
    requires
        view.wf(),
        other != receiver,
    ensures
        agrees_on(view, view.with_axis(receiver, value, press), other),
{
    let base = view.ensured(receiver);
    lemma_ensured_agrees(view, receiver, other);
    lemma_ensured_position(view, receiver);
    lemma_index_of_first(base.inputs(), receiver);
    let index = base.position(receiver).unwrap();
    lemma_replaced_agrees(
        base,
        index,
        base.descriptors[index].with_axis(AxisState { value, press }),
        other,
    );
}

/// Registering one receiver's default leaves every other receiver as it reads, but that a
/// released receiver may go to zero.
pub proof fn lemma_with_default_agrees<Keys>(
    view: InputViewModel<Keys>,
    receiver: InputReceiver,
    value: AxisValue,
    other: InputReceiver,
)
    requires
        view.wf(),
        other != receiver,
    ensures
        agrees_on(view, view.with_default(receiver, value), other),
{
    let base = view.ensured(receiver);
    lemma_ensured_agrees(view, receiver, other);
    lemma_ensured_position(view, receiver);
    lemma_index_of_first(base.inputs(), receiver);
    let index = base.position(receiver).unwrap();
    lemma_replaced_agrees(base, index, base.descriptors[index].with_default(value), other);
}

/// A press or release of one key or button leaves every other receiver as it reads, but
/// that a released receiver may go to zero.
pub proof fn lemma_with_button_agrees<Keys>(
    view: InputViewModel<Keys>,
    receiver: InputReceiver,
    press: PressState,
    other: InputReceiver,
)
    requires
        view.wf(),
        other != receiver,
    ensures
        agrees_on(view, view.with_button(receiver, press), other),
{
    let value = match press {
        PressState::Pressed { .. } => view.default_of(receiver),
        PressState::Released => AxisValue::zero(),
    };
    lemma_with_axis_agrees(view, receiver, value, press, other);
}

/// Recording a press or release of one digital receiver leaves every other receiver as
/// it reads, but that a released receiver may go to zero.
pub proof fn lemma_with_key_state_agrees<Keys>(
    view: InputViewModel<Keys>,
    receiver: InputReceiver,
    press: PressState,
    other: InputReceiver,
)
    requires
        view.wf(),
        other != receiver,
    ensures
        agrees_on(view, view.with_key_state(receiver, press), other),
{
    let base = view.ensured(receiver);
    lemma_ensured_agrees(view, receiver, other);
    lemma_ensured_wf(view, receiver);
    lemma_ensured_position(view, receiver);
    lemma_index_of_first(base.inputs(), receiver);
    let index = base.position(receiver).unwrap();
    let descriptor = base.descriptors[index];
    lemma_replaced_agrees(
        base,
        index,
        descriptor.with_axis(AxisState { value: descriptor.default_axis_value, press }),
        other,
    );
    lemma_replaced_agrees(
        base,
        index,
        descriptor.with_axis(AxisState { value: AxisValue::zero(), press }),
        other,
    );
}

/// Two views that agree on every receiver of a chord agree on whether the chord counts,
/// and on its states where it does.
pub proof fn lemma_chord_agrees<Keys>(
    before: InputViewModel<Keys>,
    after: InputViewModel<Keys>,
    chord: Seq<InputReceiver>,
)
    requires
        forall|i: int| 0 <= i < chord.len() ==> agrees_on(before, after, #[trigger] chord[i]),
    ensures
        after.chord_active(chord) == before.chord_active(chord),
        before.chord_active(chord) ==> after.chord_states(chord) == before.chord_states(chord),
{
    if before.chord_active(chord) {
        assert forall|i: int| 0 <= i < chord.len() implies !after.state_of(
            #[trigger] chord[i],
        ).press.is_released() by {
            assert(agrees_on(before, after, chord[i]));
        }
        assert forall|i: int| 0 <= i < chord.len() implies after.chord_states(chord)[i]
            == before.chord_states(chord)[i] by {
            assert(agrees_on(before, after, chord[i]));
        }
        assert(after.chord_states(chord) == before.chord_states(chord));
    }
    if after.chord_active(chord) {
        assert forall|i: int| 0 <= i < chord.len() implies !before.state_of(
            #[trigger] chord[i],
        ).press.is_released() by {
            assert(agrees_on(before, after, chord[i]));
        }
    }
}

/// Two views that agree on every receiver of a set of alternatives resolve it alike.
pub proof fn lemma_alternatives_agree<Keys>(
    before: InputViewModel<Keys>,
    after: InputViewModel<Keys>,
    alternatives: Seq<Seq<InputReceiver>>,
)
    requires
        forall|a: int, i: int|
            0 <= a < alternatives.len() && 0 <= i < alternatives[a].len() ==> agrees_on(
                before,
                after,
                #[trigger] alternatives[a][i],
            ),
    ensures
        after.resolve_alternatives(alternatives) == before.resolve_alternatives(alternatives),
{
    assert forall|a: int| 0 <= a < alternatives.len() implies after.chord_active(
        #[trigger] alternatives[a],
    ) == before.chord_active(alternatives[a]) && (before.chord_active(alternatives[a])
        ==> after.chord_states(alternatives[a]) == before.chord_states(alternatives[a])) by {
        lemma_chord_agrees(before, after, alternatives[a]);
    }
    assert forall|index: int| after.wins(alternatives, index) == before.wins(
        alternatives,
        index,
    ) by {
        if 0 <= index < alternatives.len() {
            assert(after.chord_active(alternatives[index]) == before.chord_active(
                alternatives[index],
            ));
        }
    }
    if exists|index: int| before.wins(alternatives, index) {
        let index = choose|index: int| before.wins(alternatives, index);
        assert(after.wins(alternatives, index));
        lemma_resolve_winner(before, alternatives, index);
        lemma_resolve_winner(after, alternatives, index);
    } else {
        assert forall|index: int| !after.wins(alternatives, index) by {
            assert(!before.wins(alternatives, index));
        }
    }
}

/// Whether an action's binding listens to `receiver` in any of its alternatives.
pub open spec fn listens_to<Keys>(
    view: InputViewModel<Keys>,
    id: u64,
    receiver: InputReceiver,
) -> bool {
    view.bindings.contains_key(id) && exists|a: int, i: int|
        0 <= a < view.bindings[id].input_receivers.len() && 0 <= i
            < view.bindings[id].input_receivers[a].len()
            && #[trigger] view.bindings[id].input_receivers[a][i] == receiver
}

/// What an action resolves to depends only on the receivers it listens to: a report of
/// any other receiver leaves it as it is, in a well-formed view.
pub proof fn lemma_report_leaves_other_actions<Keys>(
    view: InputViewModel<Keys>,
    receiver: InputReceiver,
    value: AxisValue,
    press: PressState,
    id: u64,
)
    requires
        view.wf(),
        !listens_to(view, id, receiver),
    ensures
        view.with_axis(receiver, value, press).resolve(id) == view.resolve(id),
        view.with_axis(receiver, value, press).key_state(id) == view.key_state(id),
{
    let after = view.with_axis(receiver, value, press);
    if view.bindings.contains_key(id) {
        let alternatives = view.bindings[id].input_receivers;
        assert forall|a: int, i: int|
            0 <= a < alternatives.len() && 0 <= i < alternatives[a].len() implies agrees_on(
            view,
            after,
            #[trigger] alternatives[a][i],
        ) by {
            lemma_with_axis_agrees(view, receiver, value, press, alternatives[a][i]);
        }
        lemma_alternatives_agree(view, after, alternatives);
    }
}

/// A press or release of a key or button that an action does not listen to leaves what
/// the action resolves to as it is, in a well-formed view.
pub proof fn lemma_button_leaves_other_actions<Keys>(
    view: InputViewModel<Keys>,
    receiver: InputReceiver,
    press: PressState,
    id: u64,
)
    requires
        view.wf(),
        !listens_to(view, id, receiver),
    ensures
        view.with_button(receiver, press).resolve(id) == view.resolve(id),
        view.with_button(receiver, press).key_state(id) == view.key_state(id),
{
    let after = view.with_button(receiver, press);
    if view.bindings.contains_key(id) {
        let alternatives = view.bindings[id].input_receivers;
        assert forall|a: int, i: int|
            0 <= a < alternatives.len() && 0 <= i < alternatives[a].len() implies agrees_on(
            view,
            after,
            #[trigger] alternatives[a][i],
        ) by {
            lemma_with_button_agrees(view, receiver, press, alternatives[a][i]);
        }
        lemma_alternatives_agree(view, after, alternatives);
    }
}

/// The pointer's axes release themselves: at the start of the mouse stage all four read
/// zero and released, whatever they read before, in a well-formed view.
pub proof fn lemma_mouse_axes_release_themselves<Keys>(view: InputViewModel<Keys>)
    requires
        view.wf(),
    ensures
        mouse_rested(view).state_of(InputReceiver::MouseAxis(MouseAxisType::X))
            == AxisState::zero(),
        mouse_rested(view).state_of(InputReceiver::MouseAxis(MouseAxisType::Y))
            == AxisState::zero(),
        mouse_rested(view).state_of(InputReceiver::MouseAxisDelta(MouseAxisType::X))
            == AxisState::zero(),
        mouse_rested(view).state_of(InputReceiver::MouseAxisDelta(MouseAxisType::Y))
            == AxisState::zero(),
{
    let rest = PressState::Released;
    let zero = AxisValue::zero();
    let x = InputReceiver::MouseAxis(MouseAxisType::X);
    let y = InputReceiver::MouseAxis(MouseAxisType::Y);
    let dx = InputReceiver::MouseAxisDelta(MouseAxisType::X);
    let dy = InputReceiver::MouseAxisDelta(MouseAxisType::Y);
    let first = view.with_axis(x, zero, rest);
    lemma_with_axis_state(view, x, zero, rest);
    lemma_with_axis_wf(view, x, zero, rest);
    let second = first.with_axis(y, zero, rest);
    lemma_with_axis_state(first, y, zero, rest);
    lemma_with_axis_wf(first, y, zero, rest);
    lemma_with_axis_agrees(first, y, zero, rest, x);
    let third = second.with_axis(dx, zero, rest);
    lemma_with_axis_state(second, dx, zero, rest);
    lemma_with_axis_wf(second, dx, zero, rest);
    lemma_with_axis_agrees(second, dx, zero, rest, x);
    lemma_with_axis_agrees(second, dx, zero, rest, y);
    let fourth = third.with_axis(dy, zero, rest);
    lemma_with_axis_state(third, dy, zero, rest);
    lemma_with_axis_agrees(third, dy, zero, rest, x);
    lemma_with_axis_agrees(third, dy, zero, rest, y);
    lemma_with_axis_agrees(third, dy, zero, rest, dx);
    assert(fourth == mouse_rested(view));
}

} // verus!
