//! The per-entity input view: the bindings of one set of actions, the live state of every
//! receiver that has reported, and the device class that reported last.

use std::collections::HashMap;
use vstd::prelude::*;
use crate::binding::{ActionBinding, BindingModel, BindingTypeView};
use crate::lookup::{lemma_first_occurrence, lemma_index_of_first, lemma_no_occurrence};
use crate::receiver::InputReceiver;
use crate::state::{AxisState, PressState, PressStateExt, Timestamp};
use crate::value::AxisValue;
use crate::wellformed::{
    lemma_added_wf, lemma_cleaned_wf, lemma_cleared_wf, lemma_empty_wf, lemma_with_axis_wf,
    lemma_with_binding_wf, lemma_with_key_state_wf,
};

verus! {

/// A class of input device.
#[derive(PartialEq, Eq, Structural, Hash, Debug, Clone, Copy)]
pub enum InputSource {
    Gamepad,
    Keyboard,
    Mouse,
}

impl InputSource {
    /// Whether this is the gamepad class.
    pub fn is_gamepad(&self) -> (is: bool)
        ensures
            is == (*self == InputSource::Gamepad),
    {
        *self == InputSource::Gamepad
    }

    /// Whether this is the keyboard class.
    pub fn is_keyboard(&self) -> (is: bool)
        ensures
            is == (*self == InputSource::Keyboard),
    {
        *self == InputSource::Keyboard
    }

    /// Whether this is the mouse class.
    pub fn is_mouse(&self) -> (is: bool)
        ensures
            is == (*self == InputSource::Mouse),
    {
        *self == InputSource::Mouse
    }
}

/// What a view knows of one receiver: its live state and its default magnitude.
#[derive(Debug, PartialEq, Eq, Structural, Clone, Copy)]
pub struct ReceiverDescriptor {
    pub axis: AxisState,
    pub default_axis_value: AxisValue,
    pub input: InputReceiver,
}

impl ReceiverDescriptor {
    /// The descriptor of a receiver at rest with the given default, in specifications.
    pub open spec fn spec_new(input: InputReceiver, default_axis_value: AxisValue) -> Self {
        ReceiverDescriptor { axis: AxisState::zero(), default_axis_value, input }
    }

    /// The descriptor of a receiver at rest with the given default.
    #[verifier::when_used_as_spec(spec_new)]
    pub fn new(input: InputReceiver, default_axis_value: AxisValue) -> (descriptor: Self)
        ensures
            descriptor == Self::spec_new(input, default_axis_value),
    {
        Self { axis: AxisState::zero(), default_axis_value, input }
    }

    /// Whether the descriptor has to be kept: its receiver is pressed, or its default is
    /// not the one that a missing descriptor stands for.
    pub open spec fn spec_is_relevant(&self) -> bool {
        self.default_axis_value != AxisValue::one() || self.axis.press.is_pressed()
    }

    /// Whether the descriptor has to be kept.
    #[verifier::when_used_as_spec(spec_is_relevant)]
    pub fn is_relevant(&self) -> (relevant: bool)
        ensures
            relevant == self.spec_is_relevant(),
    {
        self.default_axis_value != AxisValue::one() || self.axis.press.pressed()
    }

    /// The descriptor with another live state.
    pub open spec fn with_axis(self, axis: AxisState) -> Self {
        ReceiverDescriptor { axis, ..self }
    }

    /// The descriptor with another default magnitude.
    pub open spec fn with_default(self, default_axis_value: AxisValue) -> Self {
        ReceiverDescriptor { default_axis_value, ..self }
    }

    /// The descriptor after one tick at `now`.
    pub open spec fn stamped(self, now: Timestamp) -> Self {
        self.with_axis(AxisState { press: self.axis.press.stamped(now), ..self.axis })
    }
}

/// What a view holds, as plain data.
///
/// The descriptors are a list; of two descriptors for one receiver only the first is ever
/// read or written.
#[verifier::ext_equal]
pub struct InputViewModel<Keys> {
    pub last_input_source: Option<InputSource>,
    /// The bindings, by the number of their action.
    pub bindings: Map<u64, BindingModel<Keys>>,
    pub descriptors: Seq<ReceiverDescriptor>,
    /// The number of descriptors from which adding one more first drops the irrelevant
    /// ones.
    pub capacity: usize,
}

impl<Keys> InputViewModel<Keys> {
    /// The view with no binding and no descriptor.
    pub open spec fn empty(capacity: usize) -> Self {
        InputViewModel {
            last_input_source: None,
            bindings: Map::empty(),
            descriptors: Seq::empty(),
            capacity,
        }
    }

    /// The receivers of the descriptors, in order.
    pub open spec fn inputs(self) -> Seq<InputReceiver> {
        self.descriptors.map_values(|descriptor: ReceiverDescriptor| descriptor.input)
    }

    /// No receiver has two descriptors, and every binding is well formed.
    pub open spec fn wf(self) -> bool {
        &&& self.inputs().no_duplicates()
        &&& forall|id: u64| self.bindings.contains_key(id) ==> (#[trigger] self.bindings[id]).wf()
    }

    /// Where the descriptor of `receiver` stands, if it has one.
    pub open spec fn position(self, receiver: InputReceiver) -> Option<int> {
        self.inputs().index_of_first(receiver)
    }

    /// The live state of `receiver`: zero and released when it has no descriptor.
    pub open spec fn state_of(self, receiver: InputReceiver) -> AxisState {
        match self.position(receiver) {
            Some(index) => self.descriptors[index].axis,
            None => AxisState::zero(),
        }
    }

    /// The default magnitude of `receiver`: one when it has no descriptor.
    pub open spec fn default_of(self, receiver: InputReceiver) -> AxisValue {
        match self.position(receiver) {
            Some(index) => self.descriptors[index].default_axis_value,
            None => AxisValue::one(),
        }
    }

    /// The view with `source` as the class that reported last.
    pub open spec fn with_source(self, source: InputSource) -> Self {
        InputViewModel { last_input_source: Some(source), ..self }
    }

    /// The view with the descriptor at `index` replaced.
    pub open spec fn with_descriptor_at(self, index: int, descriptor: ReceiverDescriptor) -> Self {
        InputViewModel { descriptors: self.descriptors.update(index, descriptor), ..self }
    }

    /// The view without its irrelevant descriptors.
    pub open spec fn cleaned(self) -> Self {
        InputViewModel {
            descriptors: self.descriptors.filter(
                |descriptor: ReceiverDescriptor| descriptor.is_relevant(),
            ),
            ..self
        }
    }

    /// The cleaned view with another capacity.
    pub open spec fn resized(self, capacity: usize) -> Self {
        InputViewModel { capacity, ..self.cleaned() }
    }

    /// The view with `descriptor` put at the end; a view that is at its capacity is
    /// cleaned first.
    pub open spec fn added(self, descriptor: ReceiverDescriptor) -> Self {
        let base = if self.descriptors.len() >= self.capacity {
            self.cleaned()
        } else {
            self
        };
        InputViewModel { descriptors: base.descriptors.push(descriptor), ..base }
    }

    /// The view in which `receiver` has a descriptor: the view itself, or the view with a
    /// fresh descriptor added.
    pub open spec fn ensured(self, receiver: InputReceiver) -> Self {
        if self.position(receiver) is Some {
            self
        } else {
            self.added(ReceiverDescriptor::new(receiver, AxisValue::one()))
        }
    }

    /// The view after `receiver` reported the magnitude `value` and the state `press`.
    pub open spec fn with_axis(
        self,
        receiver: InputReceiver,
        value: AxisValue,
        press: PressState,
    ) -> Self {
        let base = self.ensured(receiver);
        let index = base.position(receiver).unwrap();
        base.with_descriptor_at(
            index,
            base.descriptors[index].with_axis(AxisState { value, press }),
        )
    }

    /// The view with `value` as the default magnitude of `receiver`.
    pub open spec fn with_default(self, receiver: InputReceiver, value: AxisValue) -> Self {
        let base = self.ensured(receiver);
        let index = base.position(receiver).unwrap();
        base.with_descriptor_at(index, base.descriptors[index].with_default(value))
    }

    /// The view with the entries of a table of defaults registered one after another.
    pub open spec fn with_defaults(self, defaults: Seq<(InputReceiver, AxisValue)>) -> Self
        decreases defaults.len(),
    {
        if defaults.len() == 0 {
            self
        } else {
            self.with_defaults(defaults.drop_last()).with_default(
                defaults.last().0,
                defaults.last().1,
            )
        }
    }

    /// The view after the digital receiver `receiver` reported `press`: a release puts it
    /// at zero, a press puts a receiver that was not pressed at its default magnitude, and
    /// a press of a receiver that is pressed already changes nothing.
    pub open spec fn with_key_state(self, receiver: InputReceiver, press: PressState) -> Self {
        let base = self.ensured(receiver);
        let index = base.position(receiver).unwrap();
        let descriptor = base.descriptors[index];
        match press {
            PressState::Pressed { .. } => if descriptor.axis.press.is_pressed() {
                base
            } else {
                base.with_descriptor_at(
                    index,
                    descriptor.with_axis(
                        AxisState { value: descriptor.default_axis_value, press },
                    ),
                )
            },
            PressState::Released => base.with_descriptor_at(
                index,
                descriptor.with_axis(AxisState { value: AxisValue::zero(), press }),
            ),
        }
    }

    /// The view after a key or button reported `press`: the receiver takes the state
    /// `press`, with its default magnitude when pressed and zero when released.
    pub open spec fn with_button(self, receiver: InputReceiver, press: PressState) -> Self {
        let value = match press {
            PressState::Pressed { .. } => self.default_of(receiver),
            PressState::Released => AxisValue::zero(),
        };
        self.with_axis(receiver, value, press)
    }

    /// Whether a chord counts: it has a receiver, and none of its receivers is released.
    pub open spec fn chord_active(self, chord: Seq<InputReceiver>) -> bool {
        &&& chord.len() > 0
        &&& forall|i: int|
            0 <= i < chord.len() ==> !self.state_of(#[trigger] chord[i]).press.is_released()
    }

    /// The live states of the receivers of a chord, in the chord's order.
    pub open spec fn chord_states(self, chord: Seq<InputReceiver>) -> Seq<AxisState> {
        chord.map_values(|receiver: InputReceiver| self.state_of(receiver))
    }

    /// Whether the alternative at `index` is the one that resolves: it counts, and no
    /// alternative registered before it does.
    pub open spec fn wins(self, alternatives: Seq<Seq<InputReceiver>>, index: int) -> bool {
        &&& 0 <= index < alternatives.len()
        &&& self.chord_active(alternatives[index])
        &&& forall|j: int| 0 <= j < index ==> !self.chord_active(#[trigger] alternatives[j])
    }

    /// What a set of alternatives resolves to: the live states of the first alternative
    /// that counts, and nothing when none does. Alternatives are never merged.
    pub open spec fn resolve_alternatives(
        self,
        alternatives: Seq<Seq<InputReceiver>>,
    ) -> Seq<AxisState> {
        if exists|index: int| self.wins(alternatives, index) {
            self.chord_states(alternatives[choose|index: int| self.wins(alternatives, index)])
        } else {
            Seq::empty()
        }
    }

    /// What the action with the number `id` resolves to: nothing when it has no binding.
    pub open spec fn resolve(self, id: u64) -> Seq<AxisState> {
        if self.bindings.contains_key(id) {
            self.resolve_alternatives(self.bindings[id].input_receivers)
        } else {
            Seq::empty()
        }
    }

    /// The press state of the action with the number `id`: that of the first receiver of
    /// the chord it resolves to, and released when it resolves to nothing.
    pub open spec fn key_state(self, id: u64) -> PressState {
        if self.resolve(id).len() > 0 {
            self.resolve(id)[0].press
        } else {
            PressState::Released
        }
    }

    /// What the actions with the numbers `ids` resolve to, one after another.
    pub open spec fn resolve_all(self, ids: Seq<u64>) -> Seq<AxisState>
        decreases ids.len(),
    {
        if ids.len() == 0 {
            Seq::empty()
        } else {
            self.resolve_all(ids.drop_last()) + self.resolve(ids.last())
        }
    }

    /// The first state of what an action resolves to, where it resolves to something.
    pub open spec fn resolve_first(self, id: u64) -> Option<AxisState> {
        if self.resolve(id).len() > 0 {
            Some(self.resolve(id)[0])
        } else {
            None
        }
    }

    /// The view with `binding` registered under the number of its action, in place of an
    /// earlier binding of that action. The binding's defaults go to the descriptors, and
    /// the binding is stored without them.
    pub open spec fn with_binding(self, id: u64, binding: BindingModel<Keys>) -> Self {
        let applied = self.with_defaults(binding.default_axis_value);
        InputViewModel {
            bindings: applied.bindings.insert(id, binding.without_defaults()),
            ..applied
        }
    }

    /// The view restricted to the devices other than `source`: every binding loses the
    /// receivers of that class, and so does the list of descriptors.
    pub open spec fn cleared(self, source: InputSource) -> Self {
        InputViewModel {
            bindings: self.bindings.map_values(
                |binding: BindingModel<Keys>| binding.without_source(source),
            ),
            descriptors: self.descriptors.filter(
                |descriptor: ReceiverDescriptor| descriptor.input.source() != source,
            ),
            ..self
        }
    }

    /// The view after one tick at `now`: every fresh press is stamped.
    pub open spec fn ticked(self, now: Timestamp) -> Self {
        InputViewModel {
            descriptors: self.descriptors.map_values(
                |descriptor: ReceiverDescriptor| descriptor.stamped(now),
            ),
            ..self
        }
    }
}

/// A descriptor that was added for a receiver without one is the receiver's descriptor,
/// and stands last.
pub proof fn lemma_added_position<Keys>(view: InputViewModel<Keys>, descriptor: ReceiverDescriptor)
    requires
        view.position(descriptor.input) is None,
    ensures
        view.added(descriptor).position(descriptor.input) == Some(
            view.added(descriptor).descriptors.len() - 1,
        ),
{
    let receiver = descriptor.input;
    let added = view.added(descriptor);
    lemma_index_of_first(view.inputs(), receiver);
    let relevant = |descriptor: ReceiverDescriptor| descriptor.is_relevant();
    let kept = view.descriptors.filter(relevant);
    assert forall|j: int| 0 <= j < kept.len() implies kept[j].input != receiver by {
        view.descriptors.lemma_filter_contains_rev(relevant, kept[j]);
        let k = choose|k: int| 0 <= k < view.descriptors.len() && view.descriptors[k] == kept[j];
        assert(view.inputs()[k] != receiver);
    }
    let last = added.descriptors.len() - 1;
    assert forall|j: int| 0 <= j < last implies added.inputs()[j] != receiver by {
        if view.descriptors.len() >= view.capacity {
            assert(added.descriptors[j] == kept[j]);
        } else {
            assert(added.descriptors[j] == view.descriptors[j]);
            assert(view.inputs()[j] != receiver);
        }
    }
    lemma_first_occurrence(added.inputs(), receiver, last);
}

/// The numbers of a list of action keys.
pub open spec fn action_ids<Keys: BindingTypeView>(keys: Seq<&Keys>) -> Seq<u64> {
    keys.map_values(|key: &Keys| key.action_id())
}

/// Only one alternative can win.
pub proof fn lemma_winner_unique<Keys>(
    view: InputViewModel<Keys>,
    alternatives: Seq<Seq<InputReceiver>>,
    first: int,
    second: int,
)
    requires
        view.wins(alternatives, first),
        view.wins(alternatives, second),
    ensures
        first == second,
{
}

/// The alternative that wins is the one that the view resolves to.
pub proof fn lemma_resolve_winner<Keys>(
    view: InputViewModel<Keys>,
    alternatives: Seq<Seq<InputReceiver>>,
    index: int,
)
    requires
        view.wins(alternatives, index),
    ensures
        view.resolve_alternatives(alternatives) == view.chord_states(alternatives[index]),
{
    let chosen = choose|index: int| view.wins(alternatives, index);
    lemma_winner_unique(view, alternatives, index, chosen);
}

/// A view of bindings and live receiver states, one per controllable entity.
#[derive(PartialEq, Debug)]
pub struct InputView<Keys> where Keys: BindingTypeView {
    pub last_input_source: Option<InputSource>,
    /// The bindings, by the number of their action.
    pub bindings: HashMap<u64, ActionBinding<Keys>>,
    pub descriptors: Vec<ReceiverDescriptor>,
    /// The number of descriptors from which adding one more first drops the irrelevant
    /// ones.
    pub capacity: usize,
}

impl<Keys> View for InputView<Keys> where Keys: BindingTypeView {
    type V = InputViewModel<Keys>;

    open spec fn view(&self) -> InputViewModel<Keys> {
        InputViewModel {
            last_input_source: self.last_input_source,
            bindings: self.bindings@.map_values(|binding: ActionBinding<Keys>| binding@),
            descriptors: self.descriptors@,
            capacity: self.capacity,
        }
    }
}

impl<Keys> Default for InputView<Keys> where Keys: BindingTypeView {
    /// An empty view with a capacity of no descriptors.
    fn default() -> (view: Self)
        ensures
            view@ == InputViewModel::<Keys>::empty(0),
            view@.wf(),
    {
        Self::with_capacity(0)
    }
}

impl<Keys> Clone for InputView<Keys> where Keys: BindingTypeView {
    fn clone(&self) -> (copy: Self)
        ensures
            copy@ == self@,
    {
        let copy = Self {
            last_input_source: self.last_input_source,
            bindings: self.bindings.clone(),
            descriptors: self.descriptors.clone(),
            capacity: self.capacity,
        };
        assert(copy.descriptors@ == self.descriptors@);
        assert(copy@.bindings == self@.bindings);
        copy
    }
}

impl<Keys> InputView<Keys> where Keys: BindingTypeView {
    /// An empty view with a capacity of 16 descriptors.
    pub fn new() -> (view: Self)
        ensures
            view@ == InputViewModel::<Keys>::empty(16),
            view@.wf(),
    {
        Self::with_capacity(16)
    }

    /// An empty view with the given capacity. The capacity is a count that the view
    /// keeps, not memory that it takes: a view of any capacity starts without storage.
    pub fn with_capacity(capacity: usize) -> (view: Self)
        ensures
            view@ == InputViewModel::<Keys>::empty(capacity),
            view@.wf(),
    {
        proof {
            lemma_empty_wf::<Keys>(capacity);
        }
        let view = Self {
            last_input_source: None,
            bindings: HashMap::new(),
            descriptors: Vec::new(),
            capacity,
        };
        assert(view@.bindings == Map::<u64, BindingModel<Keys>>::empty());
        view
    }

    /// The capacity of the view.
    pub fn capacity(&self) -> (capacity: usize)
        ensures
            capacity == self@.capacity,
    {
        self.capacity
    }

    /// The relevant descriptors, in their order.
    fn relevant_descriptors(&self) -> (kept: Vec<ReceiverDescriptor>)
        ensures
            kept@ == self@.cleaned().descriptors,
    {
        let mut kept: Vec<ReceiverDescriptor> = Vec::new();
        let ghost relevant = |descriptor: ReceiverDescriptor| descriptor.is_relevant();
        let mut i: usize = 0;
        proof {
            reveal(Seq::filter);
            assert(self.descriptors@.take(0).filter(relevant) == Seq::<
                ReceiverDescriptor,
            >::empty());
        }
        while i < self.descriptors.len()
            invariant
                i <= self.descriptors.len(),
                relevant == |descriptor: ReceiverDescriptor| descriptor.is_relevant(),
                kept@ == self.descriptors@.take(i as int).filter(relevant),
            decreases self.descriptors.len() - i,
        {
            let descriptor = self.descriptors[i];
            proof {
                let all = self.descriptors@;
                assert(all.take(i + 1) == all.take(i as int).push(descriptor));
                all.take(i as int).lemma_filter_push(descriptor, relevant);
            }
            if descriptor.is_relevant() {
                kept.push(descriptor);
            }
            i += 1;
        }
        assert(self.descriptors@.take(self.descriptors@.len() as int) == self.descriptors@);
        kept
    }

    /// Drops the irrelevant descriptors and sets another capacity.
    pub fn set_capacity(&mut self, capacity: usize)
        ensures
            final(self)@ == old(self)@.resized(capacity),
            old(self)@.wf() ==> final(self)@.wf(),
    {
        proof {
            if old(self)@.wf() {
                lemma_cleaned_wf(old(self)@, capacity);
            }
        }
        self.descriptors = self.relevant_descriptors();
        self.capacity = capacity;
    }

    /// Drops the irrelevant descriptors: those of released receivers whose default
    /// magnitude is one.
    pub fn cleanup(&mut self)
        ensures
            final(self)@ == old(self)@.cleaned(),
            old(self)@.wf() ==> final(self)@.wf(),
    {
        proof {
            if old(self)@.wf() {
                lemma_cleaned_wf(old(self)@, old(self)@.capacity);
            }
        }
        self.descriptors = self.relevant_descriptors();
    }

    /// Puts a descriptor at the end of the list, after a cleanup when the view is at its
    /// capacity. Nothing is done about an earlier descriptor of the same receiver, which
    /// keeps hiding the new one.
    pub fn add_descriptor(&mut self, descriptor: ReceiverDescriptor)
        ensures
            final(self)@ == old(self)@.added(descriptor),
            old(self)@.wf() && old(self)@.position(descriptor.input) is None ==> final(self)@.wf(),
    {
        proof {
            if old(self)@.wf() && old(self)@.position(descriptor.input) is None {
                lemma_added_wf(old(self)@, descriptor);
            }
        }
        if self.descriptors.len() >= self.capacity {
            self.cleanup();
        }
        self.descriptors.push(descriptor);
    }

    /// Where the descriptor of `rcv` stands.
    fn index_of(&self, rcv: &InputReceiver) -> (found: Option<usize>)
        ensures
            match found {
                Some(index) => index < self.descriptors.len() && self@.position(*rcv) == Some(
                    index as int,
                ),
                None => self@.position(*rcv) is None,
            },
    {
        let mut i: usize = 0;
        while i < self.descriptors.len()
            invariant
                i <= self.descriptors.len(),
                forall|j: int| 0 <= j < i ==> self@.inputs()[j] != *rcv,
            decreases self.descriptors.len() - i,
        {
            if self.descriptors[i].input == *rcv {
                proof {
                    lemma_first_occurrence(self@.inputs(), *rcv, i as int);
                }
                return Some(i);
            }
            i += 1;
        }
        proof {
            lemma_no_occurrence(self@.inputs(), *rcv);
        }
        None
    }

    /// The descriptor of `rcv`, if it has one.
    pub fn descriptor(&self, rcv: &InputReceiver) -> (found: Option<&ReceiverDescriptor>)
        ensures
            match found {
                Some(descriptor) => self@.position(*rcv) is Some && *descriptor
                    == self@.descriptors[self@.position(*rcv).unwrap()],
                None => self@.position(*rcv) is None,
            },
    {
        match self.index_of(rcv) {
            Some(index) => Some(&self.descriptors[index]),
            None => None,
        }
    }

    /// The descriptor of `rcv`, if it has one, for writing: what the caller leaves in it
    /// is what the view holds afterwards.
    pub fn descriptor_mut(&mut self, rcv: &InputReceiver) -> (found: Option<
        &mut ReceiverDescriptor,
    >)
        ensures
            match found {
                Some(descriptor) => old(self)@.position(*rcv) is Some && *descriptor == old(
                    self,
                )@.descriptors[old(self)@.position(*rcv).unwrap()] && final(self)@ == old(
                    self,
                )@.with_descriptor_at(old(self)@.position(*rcv).unwrap(), *final(descriptor)),
                None => old(self)@.position(*rcv) is None && final(self)@ == old(self)@,
            },
    {
        match self.index_of(rcv) {
            Some(index) => Some(&mut self.descriptors[index]),
            None => None,
        }
    }

    /// The descriptor of `input` for writing; a receiver without one gets a fresh
    /// descriptor first, at rest and with a default magnitude of one.
    pub fn descriptor_or_insert(&mut self, input: InputReceiver) -> (descriptor:
        &mut ReceiverDescriptor)
        ensures
            old(self)@.ensured(input).position(input) is Some,
            *descriptor == old(self)@.ensured(input).descriptors[old(self)@.ensured(
                input,
            ).position(input).unwrap()],
            final(self)@ == old(self)@.ensured(input).with_descriptor_at(
                old(self)@.ensured(input).position(input).unwrap(),
                *final(descriptor),
            ),
    {
        match self.index_of(&input) {
            Some(index) => &mut self.descriptors[index],
            None => {
                let descriptor = ReceiverDescriptor::new(input, AxisValue::one());
                self.add_descriptor(descriptor);
                let last = self.descriptors.len() - 1;
                proof {
                    lemma_added_position(old(self)@, descriptor);
                }
                &mut self.descriptors[last]
            },
        }
    }

    /// The live state of `key`: zero and released for a receiver that never reported.
    pub fn state(&self, key: &InputReceiver) -> (state: AxisState)
        ensures
            state == self@.state_of(*key),
            !self@.inputs().contains(*key) ==> state == AxisState::zero(),
    {
        proof {
            lemma_index_of_first(self@.inputs(), *key);
        }
        match self.descriptor(key) {
            Some(descriptor) => descriptor.axis,
            None => AxisState::zero(),
        }
    }

    /// The default magnitude of `input`: one for a receiver without a registered default.
    pub fn get_receiver_default_axis_value(&self, input: InputReceiver) -> (value: AxisValue)
        ensures
            value == self@.default_of(input),
            !self@.inputs().contains(input) ==> value == AxisValue::one(),
    {
        proof {
            lemma_index_of_first(self@.inputs(), input);
        }
        match self.descriptor(&input) {
            Some(descriptor) => descriptor.default_axis_value,
            None => AxisValue::one(),
        }
    }

    /// Records that `input` reported the magnitude `value` and the state `element_state`.
    pub fn set_axis_value(&mut self, input: InputReceiver, value: AxisValue, element_state: PressState)
        ensures
            final(self)@ == old(self)@.with_axis(input, value, element_state),
            old(self)@.wf() ==> final(self)@.wf(),
    {
        proof {
            if old(self)@.wf() {
                lemma_with_axis_wf(old(self)@, input, value, element_state);
            }
        }
        self.descriptor_or_insert(input).axis.set(value, element_state);
    }

    /// Records a press or release of the digital receiver `input`: a release puts it at
    /// zero, a press puts a receiver that was not pressed at its default magnitude, and a
    /// press of a receiver that is pressed already changes nothing.
    pub fn set_key_receiver_state(&mut self, input: InputReceiver, state: PressState)
        ensures
            final(self)@ == old(self)@.with_key_state(input, state),
            old(self)@.wf() ==> final(self)@.wf(),
    {
        proof {
            if old(self)@.wf() {
                lemma_with_key_state_wf(old(self)@, input, state);
            }
        }
        let descriptor = self.descriptor_or_insert(input);
        let value = match state {
            PressState::Pressed { .. } => {
                if descriptor.axis.press.pressed() {
                    proof {
                        let base = old(self)@.ensured(input);
                        let index = base.position(input).unwrap();
                        lemma_index_of_first(base.inputs(), input);
                        assert(base.descriptors.update(index, base.descriptors[index])
                            == base.descriptors);
                    }
                    return ;
                }
                descriptor.default_axis_value
            },
            PressState::Released => AxisValue::zero(),
        };
        descriptor.axis.set(value, state);
    }

    /// Registers `binding` under its action key, in place of an earlier binding of that
    /// action. The binding's defaults are moved out of it to the view's descriptors; the
    /// view is handed back for chaining.
    pub fn add_binding(&mut self, binding: &mut ActionBinding<Keys>) -> (view: &mut Self)
        ensures
            final(binding)@ == old(binding)@.without_defaults(),
            view@ == old(self)@.with_binding(old(binding)@.key.action_id(), old(binding)@),
            old(self)@.wf() && old(binding)@.wf() ==> view@.wf(),
            *final(self) == *final(view),
    {
        proof {
            if old(self)@.wf() && old(binding)@.wf() {
                lemma_with_binding_wf(old(self)@, old(binding)@.key.action_id(), old(binding)@);
            }
        }
        binding.apply_default_axis_to_all_receivers(self);
        let id = binding.key.id();
        let stored = binding.clone();
        self.bindings.insert(id, stored);
        assert(self@.bindings == old(self)@.with_binding(
            old(binding)@.key.action_id(),
            old(binding)@,
        ).bindings);
        self
    }

    /// Whether every receiver of `chord` is active, and their live states if so.
    fn chord_states(&self, chord: &Vec<InputReceiver>) -> (found: Option<Vec<AxisState>>)
        ensures
            match found {
                Some(states) => self@.chord_active(chord@) && states@ == self@.chord_states(chord@),
                None => !self@.chord_active(chord@),
            },
    {
        if chord.len() == 0 {
            return None;
        }
        let mut output: Vec<AxisState> = Vec::with_capacity(chord.len());
        let mut i: usize = 0;
        while i < chord.len()
            invariant
                i <= chord.len(),
                output@ == self@.chord_states(chord@.take(i as int)),
                forall|j: int| 0 <= j < i ==> !self@.state_of(#[trigger] chord@[j]).press.is_released(),
            decreases chord.len() - i,
        {
            let state = self.state(&chord[i]);
            if state.press.released() {
                return None;
            }
            output.push(state);
            assert(chord@.take(i + 1) == chord@.take(i as int).push(chord@[i as int]));
            i += 1;
        }
        assert(chord@.take(chord@.len() as int) == chord@);
        Some(output)
    }

    /// The live states that the action `kind` resolves to.
    ///
    /// The alternatives of its binding are taken in the order they were registered. The
    /// first whose receivers are all active gives the result: the live states of its
    /// receivers, in the chord's order. An empty chord never counts. An action without a
    /// binding, or with no alternative that counts, resolves to nothing.
    pub fn axis(&self, kind: &Keys) -> (states: Vec<AxisState>)
        ensures
            states@ == self@.resolve(kind.action_id()),
            !self@.bindings.contains_key(kind.action_id()) ==> states@.len() == 0,
    {
        let id = kind.id();
        if let Some(binding) = self.bindings.get(&id) {
            let ghost alternatives = binding@.input_receivers;
            let mut i: usize = 0;
            while i < binding.input_receivers.len()
                invariant
                    i <= binding.input_receivers.len(),
                    id == kind.action_id(),
                    self@.bindings.contains_key(id),
                    self@.bindings[id].input_receivers == alternatives,
                    alternatives == binding@.input_receivers,
                    forall|j: int| 0 <= j < i ==> !self@.chord_active(#[trigger] alternatives[j]),
                decreases binding.input_receivers.len() - i,
            {
                if let Some(states) = self.chord_states(&binding.input_receivers[i].0) {
                    proof {
                        assert(alternatives[i as int] == binding.input_receivers@[i as int]@);
                        lemma_resolve_winner(self@, alternatives, i as int);
                    }
                    return states;
                }
                assert(alternatives[i as int] == binding.input_receivers@[i as int]@);
                i += 1;
            }
        }
        Vec::new()
    }

    /// The press state of the action `kind`: that of the first receiver of the chord it
    /// resolves to, and released when it resolves to nothing.
    pub fn key(&self, kind: &Keys) -> (state: PressState)
        ensures
            state == self@.key_state(kind.action_id()),
            !self@.bindings.contains_key(kind.action_id()) ==> state == PressState::Released,
    {
        let states = self.axis(kind);
        if states.len() > 0 {
            states[0].press
        } else {
            PressState::Released
        }
    }

    /// What the actions of `array` resolve to, one after another.
    pub fn combine<const T: usize>(&self, array: &[&Keys; T]) -> (states: Vec<AxisState>)
        ensures
            states@ == self@.resolve_all(action_ids(array@)),
    {
        let mut output: Vec<AxisState> = Vec::with_capacity(T);
        let mut i: usize = 0;
        assert(action_ids(array@).take(0) == Seq::<u64>::empty());
        while i < T
            invariant
                i <= T,
                T == array@.len(),
                output@ == self@.resolve_all(action_ids(array@).take(i as int)),
            decreases T - i,
        {
            let mut states = self.axis(array[i]);
            proof {
                let ids = action_ids(array@);
                assert(ids.take(i + 1).drop_last() == ids.take(i as int));
                assert(ids.take(i + 1).last() == array@[i as int].action_id());
            }
            output.append(&mut states);
            i += 1;
        }
        assert(action_ids(array@).take(T as int) == action_ids(array@));
        output
    }

    /// The first state of what each action of `array` resolves to, in the order of the
    /// array, where the action resolves to something.
    pub fn combine_first<const T: usize>(&self, array: &[&Keys; T]) -> (states: Vec<
        Option<AxisState>,
    >)
        ensures
            states@ == action_ids(array@).map_values(|id: u64| self@.resolve_first(id)),
    {
        let mut output: Vec<Option<AxisState>> = Vec::with_capacity(T);
        let mut i: usize = 0;
        while i < T
            invariant
                i <= T,
                T == array@.len(),
                output@.len() == i,
                forall|j: int|
                    0 <= j < i ==> output@[j] == self@.resolve_first(
                        #[trigger] array@[j].action_id(),
                    ),
            decreases T - i,
        {
            let states = self.axis(array[i]);
            if states.len() > 0 {
                output.push(Some(states[0]));
            } else {
                output.push(None);
            }
            i += 1;
        }
        output
    }

    /// Restricts the view to the devices other than `source`.
    ///
    /// In every binding, each chord loses its receivers of that class; chords that lose
    /// all their receivers are dropped, and so are the defaults of such receivers. The
    /// descriptors of such receivers are dropped as well.
    pub fn clear_from_specific_source(&mut self, source: InputSource)
        ensures
            final(self)@ == old(self)@.cleared(source),
            old(self)@.wf() ==> final(self)@.wf(),
    {
        proof {
            if old(self)@.wf() {
                lemma_cleared_wf(old(self)@, source);
            }
        }
        let mut bindings: HashMap<u64, ActionBinding<Keys>> = HashMap::new();
        for entry in it: self.bindings.iter()
            invariant
                forall|id: u64| #[trigger]
                    bindings@.contains_key(id) ==> self.bindings@.contains_key(id)
                        && bindings@[id]@ == self.bindings@[id]@.without_source(source),
                forall|j: int|
                    0 <= j < it.index() ==> bindings@.contains_key(*(#[trigger] it.seq()[j]).0),
        {
            let (id, binding) = entry;
            bindings.insert(*id, binding.without_source(source));
        }
        let ghost keep = |descriptor: ReceiverDescriptor| descriptor.input.source() != source;
        let mut descriptors: Vec<ReceiverDescriptor> = Vec::new();
        let mut i: usize = 0;
        proof {
            reveal(Seq::filter);
            assert(self.descriptors@.take(0).filter(keep) == Seq::<ReceiverDescriptor>::empty());
        }
        while i < self.descriptors.len()
            invariant
                i <= self.descriptors.len(),
                keep == |descriptor: ReceiverDescriptor| descriptor.input.source() != source,
                descriptors@ == self.descriptors@.take(i as int).filter(keep),
            decreases self.descriptors.len() - i,
        {
            let descriptor = self.descriptors[i];
            proof {
                let all = self.descriptors@;
                assert(all.take(i + 1) == all.take(i as int).push(descriptor));
                all.take(i as int).lemma_filter_push(descriptor, keep);
            }
            if descriptor.input.source() != source {
                descriptors.push(descriptor);
            }
            i += 1;
        }
        assert(self.descriptors@.take(self.descriptors@.len() as int) == self.descriptors@);
        self.bindings = bindings;
        self.descriptors = descriptors;
        assert(self@.bindings == old(self)@.cleared(source).bindings);
    }
}

} // verus!
