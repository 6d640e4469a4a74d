//! What holds of every view: the laws that the operations obey, each proved from the
//! model that the operations' contracts are stated in.

use vstd::prelude::*;
use crate::binding::{
    default_keys, insert_alternative, insert_default, lemma_distinct_alternatives_contains,
    lemma_without_source_idempotent, strip_chord, BindingModel,
};
use crate::frame::{agrees_on, lemma_with_button_agrees};
use crate::lookup::{lemma_filter_idempotent, lemma_index_of_first};
use crate::receiver::InputReceiver;
use crate::state::{AxisState, PressState, Timestamp};
use crate::value::AxisValue;
use crate::view::{
    lemma_added_position, lemma_resolve_winner, InputSource, InputViewModel, ReceiverDescriptor,
};
use crate::wellformed::{lemma_with_binding_wf, lemma_with_button_wf};

verus! {

/// A receiver that has a descriptor has it at a position of the list, and the descriptor
/// there is its own.
pub proof fn lemma_position<Keys>(view: InputViewModel<Keys>, receiver: InputReceiver)
    ensures
        match view.position(receiver) {
            Some(index) => 0 <= index < view.descriptors.len() && view.descriptors[index].input
                == receiver,
            None => !view.inputs().contains(receiver),
        },
{
    lemma_index_of_first(view.inputs(), receiver);
}

/// A receiver without a descriptor is at rest: its state is zero and released.
pub proof fn lemma_unknown_receiver_is_at_rest<Keys>(
    view: InputViewModel<Keys>,
    receiver: InputReceiver,
)
    requires
        !view.inputs().contains(receiver),
    ensures
        view.state_of(receiver) == AxisState::zero(),
        view.default_of(receiver) == AxisValue::one(),
{
    lemma_position(view, receiver);
    if view.position(receiver) is Some {
        assert(view.inputs()[view.position(receiver).unwrap()] == receiver);
    }
}

/// An action without a binding resolves to nothing, and its press state is released.
pub proof fn lemma_unbound_action_is_released<Keys>(view: InputViewModel<Keys>, id: u64)
    requires
        !view.bindings.contains_key(id),
    ensures
        view.resolve(id) == Seq::<AxisState>::empty(),
        view.key_state(id) == PressState::Released,
{
}

/// Replacing a descriptor by one of the same receiver moves no receiver's descriptor.
pub proof fn lemma_replacement_keeps_positions<Keys>(
    view: InputViewModel<Keys>,
    index: int,
    descriptor: ReceiverDescriptor,
    receiver: InputReceiver,
)
    requires
        0 <= index < view.descriptors.len(),
        descriptor.input == view.descriptors[index].input,
    ensures
        view.with_descriptor_at(index, descriptor).position(receiver) == view.position(receiver),
{
    assert(view.with_descriptor_at(index, descriptor).inputs() == view.inputs());
}

/// After `ensured`, the receiver has a descriptor.
pub proof fn lemma_ensured_position<Keys>(view: InputViewModel<Keys>, receiver: InputReceiver)
    ensures
        view.ensured(receiver).position(receiver) is Some,
{
    if view.position(receiver) is None {
        lemma_added_position(view, ReceiverDescriptor::new(receiver, AxisValue::one()));
    }
}

/// What a receiver reported is what its state reads afterwards.
pub proof fn lemma_with_axis_state<Keys>(
    view: InputViewModel<Keys>,
    receiver: InputReceiver,
    value: AxisValue,
    press: PressState,
)
    ensures
        view.with_axis(receiver, value, press).state_of(receiver) == (AxisState { value, press }),
{
    let base = view.ensured(receiver);
    lemma_ensured_position(view, receiver);
    lemma_position(base, receiver);
    let index = base.position(receiver).unwrap();
    lemma_replacement_keeps_positions(
        base,
        index,
        base.descriptors[index].with_axis(AxisState { value, press }),
        receiver,
    );
}

/// A default that was registered for a receiver is the default it has afterwards.
pub proof fn lemma_with_default<Keys>(
    view: InputViewModel<Keys>,
    receiver: InputReceiver,
    value: AxisValue,
)
    ensures
        view.with_default(receiver, value).default_of(receiver) == value,
{
    let base = view.ensured(receiver);
    lemma_ensured_position(view, receiver);
    lemma_position(base, receiver);
    let index = base.position(receiver).unwrap();
    lemma_replacement_keeps_positions(
        base,
        index,
        base.descriptors[index].with_default(value),
        receiver,
    );
}

/// A tick stamps the state of every receiver and does nothing else to it.
pub proof fn lemma_ticked_state<Keys>(
    view: InputViewModel<Keys>,
    now: Timestamp,
    receiver: InputReceiver,
)
    ensures
        view.ticked(now).state_of(receiver) == (AxisState {
            value: view.state_of(receiver).value,
            press: view.state_of(receiver).press.stamped(now),
        }),
        view.ticked(now).default_of(receiver) == view.default_of(receiver),
{
    assert(view.ticked(now).inputs() == view.inputs());
    lemma_position(view, receiver);
}

/// A press is fresh until the next tick and held from that tick on: right after the
/// report the receiver reads as just pressed; after one tick at `now` it no longer does,
/// and at any reading `later` of the clock that is not before `now` the time it has been
/// held is `later - now`.
pub proof fn lemma_press_then_tick<Keys>(
    view: InputViewModel<Keys>,
    receiver: InputReceiver,
    value: AxisValue,
    now: Timestamp,
    later: Timestamp,
)
    requires
        now <= later,
    ensures
        ({
            let pressed = view.with_axis(
                receiver,
                value,
                PressState::Pressed { started_pressing_instant: None },
            );
            let ticked = pressed.ticked(now);
            &&& pressed.state_of(receiver).press.is_just_pressed()
            &&& ticked.state_of(receiver).press.is_pressed()
            &&& !ticked.state_of(receiver).press.is_just_pressed()
            &&& ticked.state_of(receiver).press.elapsed_at(later) == Some((later - now) as u64)
            &&& ticked.state_of(receiver).value == value
        }),
{
    let fresh = PressState::Pressed { started_pressing_instant: None };
    let pressed = view.with_axis(receiver, value, fresh);
    lemma_with_axis_state(view, receiver, value, fresh);
    lemma_ticked_state(pressed, now, receiver);
}

/// A key or button reads as what it last reported: pressed with its default magnitude, or
/// released at zero.
pub proof fn lemma_with_button_state<Keys>(
    view: InputViewModel<Keys>,
    receiver: InputReceiver,
    press: PressState,
)
    ensures
        view.with_button(receiver, press).state_of(receiver).press == press,
        press.is_released() ==> view.with_button(receiver, press).state_of(receiver).value
            == AxisValue::zero(),
        press.is_pressed() ==> view.with_button(receiver, press).state_of(receiver).value
            == view.default_of(receiver),
{
    let value = match press {
        PressState::Pressed { .. } => view.default_of(receiver),
        PressState::Released => AxisValue::zero(),
    };
    lemma_with_axis_state(view, receiver, value, press);
}

/// Recording a key or button as a transition first and as a report of its default
/// magnitude afterwards comes to one report: the receiver takes the state, with its
/// default magnitude when pressed and zero when released.
pub proof fn lemma_key_state_then_axis<Keys>(
    view: InputViewModel<Keys>,
    receiver: InputReceiver,
    press: PressState,
)
    ensures
        ({
            let keyed = view.with_key_state(receiver, press);
            let value = match press {
                PressState::Pressed { .. } => keyed.default_of(receiver),
                PressState::Released => AxisValue::zero(),
            };
            keyed.with_axis(receiver, value, press) == view.with_button(receiver, press)
        }),
{
    let keyed = view.with_key_state(receiver, press);
    let base = view.ensured(receiver);
    lemma_ensured_position(view, receiver);
    lemma_position(base, receiver);
    lemma_position(view, receiver);
    let index = base.position(receiver).unwrap();
    let descriptor = base.descriptors[index];
    if view.position(receiver) is None {
        lemma_added_position(view, ReceiverDescriptor::new(receiver, AxisValue::one()));
        assert(descriptor == ReceiverDescriptor::new(receiver, AxisValue::one()));
    }
    lemma_replacement_keeps_positions(
        base,
        index,
        descriptor.with_axis(AxisState { value: descriptor.default_axis_value, press }),
        receiver,
    );
    lemma_replacement_keeps_positions(
        base,
        index,
        descriptor.with_axis(AxisState { value: AxisValue::zero(), press }),
        receiver,
    );
    assert(keyed.position(receiver) == Some(index));
    assert(keyed.default_of(receiver) == view.default_of(receiver));
    let value = match press {
        PressState::Pressed { .. } => view.default_of(receiver),
        PressState::Released => AxisValue::zero(),
    };
    assert(keyed.with_axis(receiver, value, press).descriptors == view.with_axis(
        receiver,
        value,
        press,
    ).descriptors);
}

/// A digital receiver with a registered default takes that magnitude when it is pressed,
/// and zero when it is released.
pub proof fn lemma_default_axis_value<Keys>(
    view: InputViewModel<Keys>,
    receiver: InputReceiver,
    default: AxisValue,
)
    ensures
        ({
            let configured = view.with_default(receiver, default);
            let fresh = PressState::Pressed { started_pressing_instant: None };
            &&& configured.with_button(receiver, fresh).state_of(receiver) == (AxisState {
                value: default,
                press: fresh,
            })
            &&& configured.with_button(receiver, PressState::Released).state_of(receiver)
                == AxisState::zero()
        }),
{
    let configured = view.with_default(receiver, default);
    let fresh = PressState::Pressed { started_pressing_instant: None };
    lemma_with_default(view, receiver, default);
    lemma_with_button_state(configured, receiver, fresh);
    lemma_with_button_state(configured, receiver, PressState::Released);
}

/// A chord with a released receiver does not count, and neither does an empty chord.
pub proof fn lemma_chord_needs_every_receiver<Keys>(
    view: InputViewModel<Keys>,
    chord: Seq<InputReceiver>,
    index: int,
)
    requires
        0 <= index < chord.len(),
        view.state_of(chord[index]).press.is_released(),
    ensures
        !view.chord_active(chord),
        !view.chord_active(Seq::empty()),
{
}

/// An action bound to a single chord resolves to nothing while a receiver of the chord is
/// released, and to the states of all the chord's receivers, none of them released, once
/// every receiver is active.
pub proof fn lemma_single_chord<Keys>(
    view: InputViewModel<Keys>,
    id: u64,
    chord: Seq<InputReceiver>,
)
    requires
        view.bindings.contains_key(id),
        view.bindings[id].input_receivers == seq![chord],
    ensures
        !view.chord_active(chord) ==> view.resolve(id) == Seq::<AxisState>::empty(),
        view.chord_active(chord) ==> {
            &&& view.resolve(id).len() == chord.len()
            &&& forall|i: int|
                0 <= i < chord.len() ==> (#[trigger] view.resolve(id)[i]) == view.state_of(
                    chord[i],
                ) && !view.resolve(id)[i].press.is_released()
        },
{
    let alternatives = view.bindings[id].input_receivers;
    assert(alternatives[0] == chord);
    if view.chord_active(chord) {
        assert(view.wins(alternatives, 0));
        lemma_resolve_winner(view, alternatives, 0);
    } else {
        assert forall|index: int| !view.wins(alternatives, index) by {
            if 0 <= index < alternatives.len() {
                assert(alternatives[index] == chord);
            }
        }
    }
}

/// Of the alternatives that count, the one registered first gives the result: an action
/// resolves to the states of an alternative whenever that alternative counts and none
/// before it does, whatever the alternatives after it do.
pub proof fn lemma_alternatives_precedence<Keys>(
    view: InputViewModel<Keys>,
    id: u64,
    index: int,
)
    requires
        view.bindings.contains_key(id),
        0 <= index < view.bindings[id].input_receivers.len(),
        view.chord_active(view.bindings[id].input_receivers[index]),
        forall|j: int| 0 <= j < index ==> !view.chord_active(view.bindings[id].input_receivers[j]),
    ensures
        view.resolve(id) == view.chord_states(view.bindings[id].input_receivers[index]),
        view.key_state(id) == view.state_of(view.bindings[id].input_receivers[index][0]).press,
{
    lemma_resolve_winner(view, view.bindings[id].input_receivers, index);
}

/// An action resolves to nothing exactly when none of its alternatives counts.
pub proof fn lemma_resolves_to_nothing<Keys>(view: InputViewModel<Keys>, id: u64)
    requires
        view.bindings.contains_key(id),
    ensures
        view.resolve(id).len() == 0 <==> forall|j: int|
            0 <= j < view.bindings[id].input_receivers.len() ==> !view.chord_active(
                #[trigger] view.bindings[id].input_receivers[j],
            ),
{
    let alternatives = view.bindings[id].input_receivers;
    if exists|j: int| 0 <= j < alternatives.len() && view.chord_active(#[trigger] alternatives[j]) {
        let j = choose|j: int|
            0 <= j < alternatives.len() && view.chord_active(#[trigger] alternatives[j]);
        lemma_some_alternative_wins(view, alternatives, j);
        let index = choose|index: int| view.wins(alternatives, index);
        lemma_resolve_winner(view, alternatives, index);
    }
}

/// Where an alternative counts, some alternative wins: the first that counts.
pub proof fn lemma_some_alternative_wins<Keys>(
    view: InputViewModel<Keys>,
    alternatives: Seq<Seq<InputReceiver>>,
    index: int,
)
    requires
        0 <= index < alternatives.len(),
        view.chord_active(alternatives[index]),
    ensures
        exists|winner: int| view.wins(alternatives, winner),
    decreases index,
{
    if exists|j: int| 0 <= j < index && view.chord_active(#[trigger] alternatives[j]) {
        let j = choose|j: int| 0 <= j < index && view.chord_active(#[trigger] alternatives[j]);
        lemma_some_alternative_wins(view, alternatives, j);
    } else {
        assert(view.wins(alternatives, index));
    }
}

/// Restricting a view to the devices other than one class a second time changes nothing.
pub proof fn lemma_clear_idempotent<Keys>(view: InputViewModel<Keys>, source: InputSource)
    ensures
        view.cleared(source).cleared(source) == view.cleared(source),
{
    let once = view.cleared(source);
    let twice = once.cleared(source);
    lemma_filter_idempotent(
        view.descriptors,
        |descriptor: ReceiverDescriptor| descriptor.input.source() != source,
    );
    assert forall|id: u64| once.bindings.contains_key(id) implies #[trigger] twice.bindings[id]
        == once.bindings[id] by {
        lemma_without_source_idempotent(view.bindings[id], source);
    }
    assert(twice.bindings == once.bindings);
}

/// Registering a chord that is registered already changes nothing, and so does
/// registering a default a second time.
pub proof fn lemma_builders_idempotent<InputKey>(
    binding: BindingModel<InputKey>,
    chord: Seq<InputReceiver>,
    receiver: InputReceiver,
    value: AxisValue,
)
    ensures
        binding.with_alternative(chord).with_alternative(chord) == binding.with_alternative(chord),
        binding.with_default(receiver, value).with_default(receiver, value)
            == binding.with_default(receiver, value),
{
    let alternatives = binding.input_receivers;
    if !alternatives.contains(chord) {
        assert(alternatives.push(chord)[alternatives.len() as int] == chord);
    }
    let defaults = binding.default_axis_value;
    let once = insert_default(defaults, receiver, value);
    lemma_index_of_first(default_keys(defaults), receiver);
    lemma_index_of_first(default_keys(once), receiver);
    match default_keys(defaults).index_of_first(receiver) {
        Some(index) => {
            assert(default_keys(once) == default_keys(defaults));
            assert(once.update(index, (receiver, value)) == once);
        },
        None => {
            let last = defaults.len() as int;
            assert(default_keys(once)[last] == receiver);
            assert forall|j: int| 0 <= j < last implies default_keys(once)[j] != receiver by {
                assert(default_keys(defaults)[j] != receiver);
            }
            assert(default_keys(once).index_of_first(receiver) == Some(last));
            assert(once.update(last, (receiver, value)) == once);
        },
    }
}

/// A later alternative and a later default never take the place of an earlier one:
/// what was registered stays where it is, and a new chord goes to the end.
pub proof fn lemma_builders_accumulate<InputKey>(
    binding: BindingModel<InputKey>,
    chord: Seq<InputReceiver>,
    index: int,
)
    requires
        0 <= index < binding.input_receivers.len(),
    ensures
        binding.with_alternative(chord).input_receivers.len() >= binding.input_receivers.len(),
        binding.with_alternative(chord).input_receivers[index] == binding.input_receivers[index],
        binding.with_alternative(chord).input_receivers.contains(chord),
{
    let alternatives = binding.input_receivers;
    if !alternatives.contains(chord) {
        assert(insert_alternative(alternatives, chord)[alternatives.len() as int] == chord);
    }
}

/// An action bound to the single digital receiver `receiver`, with `default` registered
/// as its default magnitude, resolves to that magnitude when the receiver is pressed and
/// to nothing when it is released; the released receiver reads zero.
pub proof fn lemma_default_axis_value_of_action<Keys>(
    view: InputViewModel<Keys>,
    id: u64,
    key: Keys,
    receiver: InputReceiver,
    default: AxisValue,
)
    ensures
        ({
            let binding = BindingModel::empty(key).with_alternative(seq![receiver]).with_default(
                receiver,
                default,
            );
            let bound = view.with_binding(id, binding);
            let fresh = PressState::Pressed { started_pressing_instant: None };
            &&& bound.with_button(receiver, fresh).resolve(id) == seq![
                AxisState { value: default, press: fresh },
            ]
            &&& bound.with_button(receiver, PressState::Released).resolve(id) == Seq::<
                AxisState,
            >::empty()
            &&& bound.with_button(receiver, PressState::Released).state_of(receiver)
                == AxisState::zero()
        }),
{
    let empty = BindingModel::empty(key);
    let binding = empty.with_alternative(seq![receiver]).with_default(receiver, default);
    let fresh = PressState::Pressed { started_pressing_instant: None };
    assert(default_keys(Seq::<(InputReceiver, AxisValue)>::empty()) == Seq::<
        InputReceiver,
    >::empty());
    lemma_index_of_first(default_keys(Seq::<(InputReceiver, AxisValue)>::empty()), receiver);
    assert(binding.default_axis_value == seq![(receiver, default)]);
    assert(binding.input_receivers == seq![seq![receiver]]);
    let defaults = binding.default_axis_value;
    assert(defaults.drop_last() == Seq::<(InputReceiver, AxisValue)>::empty());
    assert(view.with_defaults(defaults.drop_last()) == view);
    assert(view.with_defaults(defaults) == view.with_default(receiver, default));
    let bound = view.with_binding(id, binding);
    lemma_with_default(view, receiver, default);
    assert(bound.inputs() == view.with_default(receiver, default).inputs());
    assert(bound.default_of(receiver) == default);
    lemma_position(bound, receiver);
    lemma_with_button_state(bound, receiver, fresh);
    lemma_with_button_state(bound, receiver, PressState::Released);
    let pressed = bound.with_button(receiver, fresh);
    let released = bound.with_button(receiver, PressState::Released);
    assert(pressed.bindings == bound.bindings);
    assert(released.bindings == bound.bindings);
    let chord = seq![receiver];
    assert(chord[0] == receiver);
    lemma_single_chord(pressed, id, chord);
    lemma_single_chord(released, id, chord);
    assert(pressed.chord_active(chord));
    assert(!released.chord_active(chord));
    assert(pressed.resolve(id)[0] == pressed.state_of(chord[0]));
    assert(pressed.resolve(id) == seq![AxisState { value: default, press: fresh }]);
}

/// A chord of two receivers resolves to nothing while one of them is pressed and the
/// other released, and to the states of both, neither released, once both are pressed.
pub proof fn lemma_chord_of_two<Keys>(
    view: InputViewModel<Keys>,
    id: u64,
    key: Keys,
    first: InputReceiver,
    second: InputReceiver,
)
    requires
        view.wf(),
        first != second,
    ensures
        ({
            let binding = BindingModel::empty(key).with_alternative(seq![first, second]);
            let bound = view.with_binding(id, binding);
            let fresh = PressState::Pressed { started_pressing_instant: None };
            let one = bound.with_button(first, fresh).with_button(second, PressState::Released);
            let both = bound.with_button(first, fresh).with_button(second, fresh);
            &&& one.resolve(id) == Seq::<AxisState>::empty()
            &&& both.resolve(id) == seq![both.state_of(first), both.state_of(second)]
            &&& both.state_of(first).press == fresh
            &&& both.state_of(second).press == fresh
        }),
{
    let chord = seq![first, second];
    let binding = BindingModel::empty(key).with_alternative(chord);
    let fresh = PressState::Pressed { started_pressing_instant: None };
    assert(default_keys(Seq::<(InputReceiver, AxisValue)>::empty()) == Seq::<
        InputReceiver,
    >::empty());
    assert(binding.input_receivers == seq![chord]);
    assert(binding.wf());
    let bound = view.with_binding(id, binding);
    lemma_with_binding_wf(view, id, binding);
    let pressed = bound.with_button(first, fresh);
    lemma_with_button_wf(bound, first, fresh);
    lemma_with_button_state(bound, first, fresh);
    let one = pressed.with_button(second, PressState::Released);
    let both = pressed.with_button(second, fresh);
    lemma_with_button_state(pressed, second, PressState::Released);
    lemma_with_button_state(pressed, second, fresh);
    lemma_with_button_agrees(pressed, second, fresh, first);
    assert(agrees_on(pressed, both, first));
    assert(one.bindings == bound.bindings);
    assert(both.bindings == bound.bindings);
    assert(chord[0] == first && chord[1] == second);
    lemma_single_chord(one, id, chord);
    lemma_single_chord(both, id, chord);
    assert(both.chord_active(chord)) by {
        assert forall|i: int| 0 <= i < chord.len() implies !both.state_of(
            #[trigger] chord[i],
        ).press.is_released() by {
            if i == 0 {
            } else {
                assert(i == 1);
            }
        }
    }
    assert(both.resolve(id)[0] == both.state_of(chord[0]));
    assert(both.resolve(id)[1] == both.state_of(chord[1]));
    assert(both.resolve(id) == seq![both.state_of(first), both.state_of(second)]);
}

/// Of two alternatives that are both pressed, the one registered first gives the result.
pub proof fn lemma_first_of_two_alternatives<Keys>(
    view: InputViewModel<Keys>,
    id: u64,
    key: Keys,
    first: InputReceiver,
    second: InputReceiver,
)
    requires
        view.wf(),
        first != second,
    ensures
        ({
            let binding = BindingModel::empty(key).with_alternative(seq![first]).with_alternative(
                seq![second],
            );
            let bound = view.with_binding(id, binding);
            let fresh = PressState::Pressed { started_pressing_instant: None };
            let both = bound.with_button(first, fresh).with_button(second, fresh);
            &&& both.resolve(id) == seq![both.state_of(first)]
            &&& both.key_state(id) == fresh
        }),
{
    let one = BindingModel::empty(key).with_alternative(seq![first]);
    assert(one.input_receivers == seq![seq![first]]);
    assert(seq![first][0] == first);
    assert(seq![second][0] == second);
    assert(!one.input_receivers.contains(seq![second])) by {
        assert forall|i: int| 0 <= i < one.input_receivers.len() implies one.input_receivers[i]
            != seq![second] by {
            assert(one.input_receivers[i][0] == first);
        }
    }
    let binding = one.with_alternative(seq![second]);
    assert(binding.input_receivers == seq![seq![first], seq![second]]);
    assert(default_keys(Seq::<(InputReceiver, AxisValue)>::empty()) == Seq::<
        InputReceiver,
    >::empty());
    assert(binding.wf()) by {
        crate::binding::lemma_insert_alternative_no_duplicates(
            one.input_receivers,
            seq![second],
        );
    }
    let fresh = PressState::Pressed { started_pressing_instant: None };
    let bound = view.with_binding(id, binding);
    lemma_with_binding_wf(view, id, binding);
    let pressed = bound.with_button(first, fresh);
    lemma_with_button_wf(bound, first, fresh);
    lemma_with_button_state(bound, first, fresh);
    let both = pressed.with_button(second, fresh);
    lemma_with_button_agrees(pressed, second, fresh, first);
    assert(agrees_on(pressed, both, first));
    assert(both.bindings == bound.bindings);
    let alternatives = both.bindings[id].input_receivers;
    assert(alternatives[0] == seq![first]);
    assert(both.chord_active(alternatives[0]));
    assert(both.wins(alternatives, 0));
    lemma_resolve_winner(both, alternatives, 0);
    assert(both.chord_states(seq![first]) == seq![both.state_of(first)]);
}

/// A press is stamped once: a tick after the tick that stamped it leaves the stamp, so
/// that a second tick changes nothing unless something was pressed in between.
pub proof fn lemma_tick_stamps_once<Keys>(view: InputViewModel<Keys>, first: Timestamp, second: Timestamp)
    ensures
        view.ticked(first).ticked(second) == view.ticked(first),
{
    assert(view.ticked(first).ticked(second).descriptors == view.ticked(first).descriptors);
}

/// The time that a stamped press has been held grows with the clock: a later reading
/// never gives less than an earlier one.
pub proof fn lemma_elapsed_grows(state: PressState, earlier: Timestamp, later: Timestamp)
    requires
        earlier <= later,
    ensures
        state.elapsed_at(earlier) is Some <==> state.elapsed_at(later) is Some,
        state.elapsed_at(earlier) is Some ==> state.elapsed_at(earlier).unwrap()
            <= state.elapsed_at(later).unwrap(),
        state.elapsed_at(earlier) is Some <==> state.is_pressed() && !state.is_just_pressed(),
{
}

/// The order of press states is total: every two states compare, a state equals itself,
/// two states that equal each other in the order are the same, and the order is
/// transitive.
pub proof fn lemma_press_order_total(a: PressState, b: PressState, c: PressState)
    ensures
        a.compare(a) == std::cmp::Ordering::Equal,
        a.compare(b) == std::cmp::Ordering::Equal <==> a == b,
        a.compare(b) == std::cmp::Ordering::Less <==> b.compare(a) == std::cmp::Ordering::Greater,
        a.compare(b) == std::cmp::Ordering::Less && b.compare(c) == std::cmp::Ordering::Less
            ==> a.compare(c) == std::cmp::Ordering::Less,
        a.is_released() && b.is_pressed() ==> a.compare(b) == std::cmp::Ordering::Less,
{
}

/// After a view was restricted to the devices other than one class, nothing of that class
/// is left in it: no descriptor, no receiver in any chord, no default; and no chord is
/// empty.
pub proof fn lemma_cleared_holds_nothing_of_source<Keys>(
    view: InputViewModel<Keys>,
    source: InputSource,
)
    ensures
        forall|i: int|
            0 <= i < view.cleared(source).descriptors.len() ==> (#[trigger] view.cleared(
                source,
            ).descriptors[i]).input.source() != source,
        forall|id: u64, a: int|
            view.cleared(source).bindings.contains_key(id) && 0 <= a < view.cleared(
                source,
            ).bindings[id].input_receivers.len() ==> (#[trigger] view.cleared(
                source,
            ).bindings[id].input_receivers[a]).len() > 0,
        forall|id: u64, a: int, i: int|
            view.cleared(source).bindings.contains_key(id) && 0 <= a < view.cleared(
                source,
            ).bindings[id].input_receivers.len() && 0 <= i < view.cleared(
                source,
            ).bindings[id].input_receivers[a].len() ==> (#[trigger] view.cleared(
                source,
            ).bindings[id].input_receivers[a][i]).source() != source,
        forall|id: u64, i: int|
            view.cleared(source).bindings.contains_key(id) && 0 <= i < view.cleared(
                source,
            ).bindings[id].default_axis_value.len() ==> (#[trigger] view.cleared(
                source,
            ).bindings[id].default_axis_value[i]).0.source() != source,
{
    let cleared = view.cleared(source);
    let keep = |descriptor: ReceiverDescriptor| descriptor.input.source() != source;
    assert forall|i: int| 0 <= i < cleared.descriptors.len() implies (
    #[trigger] cleared.descriptors[i]).input.source() != source by {
        view.descriptors.lemma_filter_pred(keep, i);
    }
    assert forall|id: u64, a: int|
        cleared.bindings.contains_key(id) && 0 <= a
            < cleared.bindings[id].input_receivers.len() implies (
    #[trigger] cleared.bindings[id].input_receivers[a]).len() > 0 && forall|i: int|
        0 <= i < cleared.bindings[id].input_receivers[a].len()
            ==> cleared.bindings[id].input_receivers[a][i].source() != source by {
        lemma_stripped_chord(view.bindings[id].input_receivers, source, a);
    }
    assert forall|id: u64, i: int|
        cleared.bindings.contains_key(id) && 0 <= i
            < cleared.bindings[id].default_axis_value.len() implies (
    #[trigger] cleared.bindings[id].default_axis_value[i]).0.source() != source by {
        view.bindings[id].default_axis_value.lemma_filter_pred(
            |entry: (InputReceiver, AxisValue)| entry.0.source() != source,
            i,
        );
    }
}

/// Every chord of a stripped set of alternatives has a receiver, and none of the class
/// that was stripped.
pub proof fn lemma_stripped_chord(
    alternatives: Seq<Seq<InputReceiver>>,
    source: InputSource,
    index: int,
)
    requires
        0 <= index < crate::binding::strip_alternatives(alternatives, source).len(),
    ensures
        crate::binding::strip_alternatives(alternatives, source)[index].len() > 0,
        forall|i: int|
            0 <= i < crate::binding::strip_alternatives(alternatives, source)[index].len()
                ==> crate::binding::strip_alternatives(alternatives, source)[index][i].source()
                != source,
{
    let strip = |chord: Seq<InputReceiver>| strip_chord(chord, source);
    let occupied = |chord: Seq<InputReceiver>| chord.len() > 0;
    let keep = |receiver: InputReceiver| receiver.source() != source;
    let mapped = alternatives.map_values(strip);
    let filtered = mapped.filter(occupied);
    let stripped = crate::binding::strip_alternatives(alternatives, source);
    let chord = stripped[index];
    assert(stripped.contains(chord));
    lemma_distinct_alternatives_contains(filtered, chord);
    let k = choose|k: int| 0 <= k < filtered.len() && filtered[k] == chord;
    mapped.lemma_filter_pred(occupied, k);
    mapped.lemma_filter_contains_rev(occupied, chord);
    let m = choose|m: int| 0 <= m < mapped.len() && mapped[m] == chord;
    assert(chord == alternatives[m].filter(keep));
    assert forall|i: int| 0 <= i < chord.len() implies chord[i].source() != source by {
        alternatives[m].lemma_filter_pred(keep, i);
    }
}

} // verus!
