//! Action keys and bindings: which chords of receivers trigger which action.

use vstd::prelude::*;
use crate::lookup::{
    lemma_filter_all, lemma_filter_idempotent, lemma_filter_keeps_keys_distinct,
    lemma_first_occurrence, lemma_index_of_first, lemma_no_occurrence,
};
use crate::receiver::InputReceiver;
use crate::value::AxisValue;
use crate::view::{InputSource, InputView};

verus! {

/// An application's action key. Actions are told apart by their number: two keys with the
/// same number name the same action.
///
/// Everything that a view promises of an action is stated of its number. An
/// implementation has to give `id` the value that it gives `action_id`, on every call;
/// what is proved of views holds of no other implementation.
pub trait BindingTypeView: Copy {
    /// The number that identifies the action, in specifications.
    spec fn action_id(&self) -> u64;

    /// The number that identifies the action.
    fn id(&self) -> (id: u64)
        ensures
            id == self.action_id(),
    ;
}

impl BindingTypeView for u8 {
    open spec fn action_id(&self) -> u64 {
        *self as u64
    }

    fn id(&self) -> (id: u64) {
        *self as u64
    }
}

impl BindingTypeView for u16 {
    open spec fn action_id(&self) -> u64 {
        *self as u64
    }

    fn id(&self) -> (id: u64) {
        *self as u64
    }
}

impl BindingTypeView for u32 {
    open spec fn action_id(&self) -> u64 {
        *self as u64
    }

    fn id(&self) -> (id: u64) {
        *self as u64
    }
}

impl BindingTypeView for u64 {
    open spec fn action_id(&self) -> u64 {
        *self
    }

    fn id(&self) -> (id: u64) {
        *self
    }
}

/// A chord: receivers that must all be active together, in the order they were given.
#[derive(Debug, Hash, Default)]
pub struct InputReceivers(pub Vec<InputReceiver>);

impl View for InputReceivers {
    type V = Seq<InputReceiver>;

    open spec fn view(&self) -> Seq<InputReceiver> {
        self.0@
    }
}

impl Clone for InputReceivers {
    fn clone(&self) -> (copy: Self)
        ensures
            copy@ == self@,
    {
        let mut list: Vec<InputReceiver> = Vec::with_capacity(self.0.len());
        let mut i: usize = 0;
        while i < self.0.len()
            invariant
                i <= self.0.len(),
                list@ == self.0@.take(i as int),
            decreases self.0.len() - i,
        {
            list.push(self.0[i]);
            i += 1;
        }
        InputReceivers(list)
    }
}

impl PartialEq for InputReceivers {
    /// Two chords are equal when they hold the same receivers in the same order.
    fn eq(&self, other: &Self) -> (same: bool) {
        if self.0.len() != other.0.len() {
            return false;
        }
        let mut i: usize = 0;
        while i < self.0.len()
            invariant
                i <= self.0.len(),
                self.0.len() == other.0.len(),
                self.0@.take(i as int) == other.0@.take(i as int),
            decreases self.0.len() - i,
        {
            if self.0[i] != other.0[i] {
                assert(self.0@[i as int] != other.0@[i as int]);
                return false;
            }
            assert(self.0@.take(i + 1) == self.0@.take(i as int).push(self.0@[i as int]));
            assert(other.0@.take(i + 1) == other.0@.take(i as int).push(other.0@[i as int]));
            i += 1;
        }
        assert(self.0@ == self.0@.take(self.0@.len() as int));
        assert(other.0@ == other.0@.take(other.0@.len() as int));
        true
    }
}

impl vstd::std_specs::cmp::PartialEqSpecImpl for InputReceivers {
    open spec fn obeys_eq_spec() -> bool {
        true
    }

    open spec fn eq_spec(&self, other: &Self) -> bool {
        self@ == other@
    }
}

impl Eq for InputReceivers {

}

impl vstd::std_specs::convert::FromSpecImpl<Vec<InputReceiver>> for InputReceivers {
    open spec fn obeys_from_spec() -> bool {
        true
    }

    open spec fn from_spec(input_receivers: Vec<InputReceiver>) -> Self {
        InputReceivers(input_receivers)
    }
}

impl From<Vec<InputReceiver>> for InputReceivers {
    fn from(input_receivers: Vec<InputReceiver>) -> (chord: Self) {
        Self(input_receivers)
    }
}

/// A set of alternative chords with `chord` put in: an equal chord that is already there
/// keeps its place, a new one goes to the end.
pub open spec fn insert_alternative(
    alternatives: Seq<Seq<InputReceiver>>,
    chord: Seq<InputReceiver>,
) -> Seq<Seq<InputReceiver>> {
    if alternatives.contains(chord) {
        alternatives
    } else {
        alternatives.push(chord)
    }
}

/// The chords of a list put one after another into an empty set of alternatives: each
/// chord stands where it first occurs, and later repetitions are gone.
pub open spec fn distinct_alternatives(chords: Seq<Seq<InputReceiver>>) -> Seq<Seq<InputReceiver>>
    decreases chords.len(),
{
    if chords.len() == 0 {
        Seq::empty()
    } else {
        insert_alternative(distinct_alternatives(chords.drop_last()), chords.last())
    }
}

/// The receivers of a table of default magnitudes, in the table's order.
pub open spec fn default_keys(defaults: Seq<(InputReceiver, AxisValue)>) -> Seq<InputReceiver> {
    defaults.map_values(|entry: (InputReceiver, AxisValue)| entry.0)
}

/// A table of default magnitudes with `value` registered for `receiver`: the receiver's
/// first entry is overwritten in place, or a new entry goes to the end.
pub open spec fn insert_default(
    defaults: Seq<(InputReceiver, AxisValue)>,
    receiver: InputReceiver,
    value: AxisValue,
) -> Seq<(InputReceiver, AxisValue)> {
    match default_keys(defaults).index_of_first(receiver) {
        Some(index) => defaults.update(index, (receiver, value)),
        None => defaults.push((receiver, value)),
    }
}

/// A chord without its receivers of the class `source`.
pub open spec fn strip_chord(chord: Seq<InputReceiver>, source: InputSource) -> Seq<InputReceiver> {
    chord.filter(|receiver: InputReceiver| receiver.source() != source)
}

/// A set of alternatives without the receivers of the class `source`: every chord loses
/// them, chords that lose all their receivers are gone, and of chords that become equal
/// the first one stays.
pub open spec fn strip_alternatives(
    alternatives: Seq<Seq<InputReceiver>>,
    source: InputSource,
) -> Seq<Seq<InputReceiver>> {
    distinct_alternatives(
        alternatives.map_values(|chord: Seq<InputReceiver>| strip_chord(chord, source)).filter(
            |chord: Seq<InputReceiver>| chord.len() > 0,
        ),
    )
}

/// A table of defaults without the entries of receivers of the class `source`.
pub open spec fn strip_defaults(
    defaults: Seq<(InputReceiver, AxisValue)>,
    source: InputSource,
) -> Seq<(InputReceiver, AxisValue)> {
    defaults.filter(|entry: (InputReceiver, AxisValue)| entry.0.source() != source)
}

/// What a binding holds: its action key, its alternative chords in the order they were
/// registered, and its table of default magnitudes.
#[verifier::ext_equal]
pub struct BindingModel<InputKey> {
    pub key: InputKey,
    pub input_receivers: Seq<Seq<InputReceiver>>,
    pub default_axis_value: Seq<(InputReceiver, AxisValue)>,
}

impl<InputKey> BindingModel<InputKey> {
    /// The binding of `key` with no chord and no default.
    pub open spec fn empty(key: InputKey) -> Self {
        BindingModel { key, input_receivers: Seq::empty(), default_axis_value: Seq::empty() }
    }

    /// No chord occurs twice among the alternatives, and no receiver twice in the table of
    /// defaults.
    pub open spec fn wf(self) -> bool {
        &&& self.input_receivers.no_duplicates()
        &&& default_keys(self.default_axis_value).no_duplicates()
    }

    /// The binding with another action key.
    pub open spec fn with_key(self, key: InputKey) -> Self {
        BindingModel { key, ..self }
    }

    /// The binding with `chord` among its alternatives.
    pub open spec fn with_alternative(self, chord: Seq<InputReceiver>) -> Self {
        BindingModel {
            input_receivers: insert_alternative(self.input_receivers, chord),
            ..self
        }
    }

    /// The binding with `value` registered as the default magnitude of `receiver`.
    pub open spec fn with_default(self, receiver: InputReceiver, value: AxisValue) -> Self {
        BindingModel {
            default_axis_value: insert_default(self.default_axis_value, receiver, value),
            ..self
        }
    }

    /// The binding without the receivers of the class `source`, among its alternatives and
    /// in its table of defaults.
    pub open spec fn without_source(self, source: InputSource) -> Self {
        BindingModel {
            key: self.key,
            input_receivers: strip_alternatives(self.input_receivers, source),
            default_axis_value: strip_defaults(self.default_axis_value, source),
        }
    }

    /// The binding with its table of defaults emptied.
    pub open spec fn without_defaults(self) -> Self {
        BindingModel { default_axis_value: Seq::empty(), ..self }
    }
}

/// The chords of a list of lists of receivers.
pub open spec fn chords_of_lists(lists: Seq<Vec<InputReceiver>>) -> Seq<Seq<InputReceiver>> {
    lists.map_values(|list: Vec<InputReceiver>| list@)
}

/// The chords of a list of chords.
pub open spec fn chords_of(list: Seq<InputReceivers>) -> Seq<Seq<InputReceiver>> {
    list.map_values(|chord: InputReceivers| chord@)
}

/// `distinct_alternatives` never holds a chord twice.
pub proof fn lemma_distinct_alternatives_no_duplicates(chords: Seq<Seq<InputReceiver>>)
    ensures
        distinct_alternatives(chords).no_duplicates(),
    decreases chords.len(),
{
    if chords.len() > 0 {
        lemma_distinct_alternatives_no_duplicates(chords.drop_last());
    }
}

/// `distinct_alternatives` holds exactly the chords of the list it was made from.
pub proof fn lemma_distinct_alternatives_contains(
    chords: Seq<Seq<InputReceiver>>,
    chord: Seq<InputReceiver>,
)
    ensures
        distinct_alternatives(chords).contains(chord) <==> chords.contains(chord),
    decreases chords.len(),
{
    if chords.len() > 0 {
        let rest = chords.drop_last();
        lemma_distinct_alternatives_contains(rest, chord);
        let before = distinct_alternatives(rest);
        let after = distinct_alternatives(chords);
        if chords.contains(chord) {
            let i = choose|i: int| 0 <= i < chords.len() && chords[i] == chord;
            if i < chords.len() - 1 {
                assert(rest[i] == chord);
                let j = choose|j: int| 0 <= j < before.len() && before[j] == chord;
                assert(after[j] == chord);
            } else {
                if before.contains(chord) {
                } else {
                    assert(after[before.len() as int] == chord);
                }
            }
        }
        if after.contains(chord) {
            let j = choose|j: int| 0 <= j < after.len() && after[j] == chord;
            if j < before.len() {
                assert(before[j] == chord);
                let i = choose|i: int| 0 <= i < rest.len() && rest[i] == chord;
                assert(chords[i] == chord);
            } else {
                assert(chords[chords.len() - 1] == chord);
            }
        }
    }
}

/// A list in which no chord occurs twice is its own `distinct_alternatives`.
pub proof fn lemma_distinct_alternatives_fixpoint(chords: Seq<Seq<InputReceiver>>)
    requires
        chords.no_duplicates(),
    ensures
        distinct_alternatives(chords) == chords,
    decreases chords.len(),
{
    if chords.len() > 0 {
        let rest = chords.drop_last();
        lemma_distinct_alternatives_fixpoint(rest);
        if rest.contains(chords.last()) {
            let i = choose|i: int| 0 <= i < rest.len() && rest[i] == chords.last();
            assert(chords[i] == chords[chords.len() - 1]);
        }
        assert(rest.push(chords.last()) == chords);
    }
}

/// Putting a chord into a set of alternatives leaves a set: no chord occurs twice.
pub proof fn lemma_insert_alternative_no_duplicates(
    alternatives: Seq<Seq<InputReceiver>>,
    chord: Seq<InputReceiver>,
)
    requires
        alternatives.no_duplicates(),
    ensures
        insert_alternative(alternatives, chord).no_duplicates(),
{
}

/// Registering a default leaves a table in which no receiver occurs twice.
pub proof fn lemma_insert_default_no_duplicates(
    defaults: Seq<(InputReceiver, AxisValue)>,
    receiver: InputReceiver,
    value: AxisValue,
)
    requires
        default_keys(defaults).no_duplicates(),
    ensures
        default_keys(insert_default(defaults, receiver, value)).no_duplicates(),
{
    let keys = default_keys(defaults);
    lemma_index_of_first(keys, receiver);
    match keys.index_of_first(receiver) {
        Some(index) => {
            assert(default_keys(defaults.update(index, (receiver, value))) == keys);
        },
        None => {
            let after = default_keys(defaults.push((receiver, value)));
            assert forall|i: int, j: int|
                0 <= i < after.len() && 0 <= j < after.len() && i != j implies after[i]
                != after[j] by {
                if i < keys.len() && j < keys.len() {
                    assert(keys[i] != keys[j]);
                } else if i < keys.len() {
                    assert(keys[i] != receiver);
                } else {
                    assert(keys[j] != receiver);
                }
            }
        },
    }
}

/// A well-formed binding stays well formed when a device class is stripped from it.
pub proof fn lemma_without_source_wf<InputKey>(binding: BindingModel<InputKey>, source: InputSource)
    requires
        binding.wf(),
    ensures
        binding.without_source(source).wf(),
{
    lemma_distinct_alternatives_no_duplicates(
        binding.input_receivers.map_values(
            |chord: Seq<InputReceiver>| strip_chord(chord, source),
        ).filter(|chord: Seq<InputReceiver>| chord.len() > 0),
    );
    lemma_filter_keeps_keys_distinct(
        binding.default_axis_value,
        |entry: (InputReceiver, AxisValue)| entry.0,
        |entry: (InputReceiver, AxisValue)| entry.0.source() != source,
    );
}

/// One action's binding: the alternative chords that trigger it, and the default
/// magnitudes of digital receivers that stand in for an axis.
///
/// The alternatives are a set kept in registration order; within one alternative every
/// receiver has to be active for the chord to count.
#[derive(PartialEq, Debug, Default)]
pub struct ActionBinding<InputKey> where InputKey: BindingTypeView {
    pub key: InputKey,
    pub input_receivers: Vec<InputReceivers>,
    pub default_axis_value: Vec<(InputReceiver, AxisValue)>,
}

impl<InputKey> View for ActionBinding<InputKey> where InputKey: BindingTypeView {
    type V = BindingModel<InputKey>;

    open spec fn view(&self) -> BindingModel<InputKey> {
        BindingModel {
            key: self.key,
            input_receivers: chords_of(self.input_receivers@),
            default_axis_value: self.default_axis_value@,
        }
    }
}

/// Whether `chord` is among `alternatives`.
fn holds_chord(alternatives: &Vec<InputReceivers>, chord: &InputReceivers) -> (found: bool)
    ensures
        found == chords_of(alternatives@).contains(chord@),
{
    let mut i: usize = 0;
    while i < alternatives.len()
        invariant
            i <= alternatives.len(),
            forall|j: int| 0 <= j < i ==> chords_of(alternatives@)[j] != chord@,
        decreases alternatives.len() - i,
    {
        if alternatives[i] == *chord {
            assert(chords_of(alternatives@)[i as int] == chord@);
            return true;
        }
        i += 1;
    }
    false
}

/// Puts `chord` among `alternatives` unless an equal chord is already there.
fn insert_chord(alternatives: &mut Vec<InputReceivers>, chord: InputReceivers)
    ensures
        chords_of(final(alternatives)@) == insert_alternative(
            chords_of(old(alternatives)@),
            chord@,
        ),
{
    if !holds_chord(alternatives, &chord) {
        alternatives.push(chord);
        assert(chords_of(alternatives@) == chords_of(old(alternatives)@).push(chord@));
    }
}

/// Where the first entry for `receiver` stands in a table of defaults.
fn default_index(defaults: &Vec<(InputReceiver, AxisValue)>, receiver: InputReceiver) -> (found:
    Option<usize>)
    ensures
        match found {
            Some(index) => index < defaults.len() && default_keys(defaults@).index_of_first(
                receiver,
            ) == Some(index as int),
            None => default_keys(defaults@).index_of_first(receiver) is None,
        },
{
    let mut i: usize = 0;
    while i < defaults.len()
        invariant
            i <= defaults.len(),
            forall|j: int| 0 <= j < i ==> default_keys(defaults@)[j] != receiver,
        decreases defaults.len() - i,
    {
        if defaults[i].0 == receiver {
            proof {
                lemma_first_occurrence(default_keys(defaults@), receiver, i as int);
            }
            return Some(i);
        }
        i += 1;
    }
    proof {
        lemma_no_occurrence(default_keys(defaults@), receiver);
    }
    None
}

impl<InputKey> vstd::std_specs::convert::FromSpecImpl<InputKey> for ActionBinding<InputKey> where InputKey: BindingTypeView {
    /// The result is not a term of the specification language: `from` states it by its
    /// model.
    open spec fn obeys_from_spec() -> bool {
        false
    }

    open spec fn from_spec(key: InputKey) -> Self {
        arbitrary()
    }
}

impl<InputKey> From<InputKey> for ActionBinding<InputKey> where InputKey: BindingTypeView {
    /// The binding of `key` with no chord and no default.
    fn from(key: InputKey) -> (binding: Self)
        ensures
            binding@ == BindingModel::empty(key),
            binding@.wf(),
    {
        let binding = Self { key, input_receivers: Vec::new(), default_axis_value: Vec::new() };
        assert(binding@.input_receivers == Seq::<Seq<InputReceiver>>::empty());
        assert(default_keys(binding@.default_axis_value) == Seq::<InputReceiver>::empty());
        binding
    }
}

impl<InputKey> Clone for ActionBinding<InputKey> where InputKey: BindingTypeView {
    fn clone(&self) -> (copy: Self)
        ensures
            copy@ == self@,
    {
        let mut input_receivers: Vec<InputReceivers> = Vec::with_capacity(
            self.input_receivers.len(),
        );
        let mut i: usize = 0;
        while i < self.input_receivers.len()
            invariant
                i <= self.input_receivers.len(),
                chords_of(input_receivers@) == chords_of(self.input_receivers@).take(i as int),
            decreases self.input_receivers.len() - i,
        {
            let chord = self.input_receivers[i].clone();
            let ghost before = input_receivers@;
            input_receivers.push(chord);
            assert(chords_of(input_receivers@) == chords_of(before).push(chord@));
            i += 1;
        }
        let mut default_axis_value: Vec<(InputReceiver, AxisValue)> = Vec::with_capacity(
            self.default_axis_value.len(),
        );
        let mut j: usize = 0;
        while j < self.default_axis_value.len()
            invariant
                j <= self.default_axis_value.len(),
                default_axis_value@ == self.default_axis_value@.take(j as int),
            decreases self.default_axis_value.len() - j,
        {
            default_axis_value.push(self.default_axis_value[j]);
            j += 1;
        }
        let copy = Self { key: self.key, input_receivers, default_axis_value };
        assert(copy@.input_receivers == self@.input_receivers);
        assert(copy@.default_axis_value == self@.default_axis_value);
        copy
    }
}

impl<InputKey> ActionBinding<InputKey> where InputKey: BindingTypeView {
    /// The binding of `key` whose alternatives are the chords of `receivers`, each where
    /// it first occurs.
    pub fn new(key: InputKey, receivers: Vec<InputReceivers>) -> (binding: Self)
        ensures
            binding@ == (BindingModel {
                key,
                input_receivers: distinct_alternatives(chords_of(receivers@)),
                default_axis_value: Seq::empty(),
            }),
            binding@.wf(),
    {
        proof {
            lemma_distinct_alternatives_no_duplicates(chords_of(receivers@));
            assert(default_keys(Seq::<(InputReceiver, AxisValue)>::empty()) == Seq::<
                InputReceiver,
            >::empty());
        }
        let mut input_receivers: Vec<InputReceivers> = Vec::new();
        let mut i: usize = 0;
        assert(chords_of(receivers@).take(0) == Seq::<Seq<InputReceiver>>::empty());
        while i < receivers.len()
            invariant
                i <= receivers.len(),
                chords_of(input_receivers@) == distinct_alternatives(
                    chords_of(receivers@).take(i as int),
                ),
            decreases receivers.len() - i,
        {
            let chord = receivers[i].clone();
            insert_chord(&mut input_receivers, chord);
            proof {
                let all = chords_of(receivers@);
                assert(all.take(i + 1).drop_last() == all.take(i as int));
                assert(all.take(i + 1).last() == receivers@[i as int]@);
            }
            i += 1;
        }
        assert(chords_of(receivers@).take(receivers@.len() as int) == chords_of(receivers@));
        Self { key, input_receivers, default_axis_value: Vec::new() }
    }

    /// The binding of `key` whose alternatives are the lists of `receiver`, each where it
    /// first occurs.
    pub fn new_from_vec(key: InputKey, receiver: Vec<Vec<InputReceiver>>) -> (binding: Self)
        ensures
            binding@ == (BindingModel {
                key,
                input_receivers: distinct_alternatives(chords_of_lists(receiver@)),
                default_axis_value: Seq::empty(),
            }),
            binding@.wf(),
    {
        proof {
            lemma_distinct_alternatives_no_duplicates(chords_of_lists(receiver@));
            assert(default_keys(Seq::<(InputReceiver, AxisValue)>::empty()) == Seq::<
                InputReceiver,
            >::empty());
        }
        let mut input_receivers: Vec<InputReceivers> = Vec::new();
        let mut i: usize = 0;
        assert(chords_of_lists(receiver@).take(0) == Seq::<Seq<InputReceiver>>::empty());
        while i < receiver.len()
            invariant
                i <= receiver.len(),
                chords_of(input_receivers@) == distinct_alternatives(
                    chords_of_lists(receiver@).take(i as int),
                ),
            decreases receiver.len() - i,
        {
            let chord = InputReceivers(receiver[i].clone());
            assert(chord@ == receiver@[i as int]@);
            insert_chord(&mut input_receivers, chord);
            proof {
                let all = chords_of_lists(receiver@);
                assert(all.take(i + 1).drop_last() == all.take(i as int));
                assert(all.take(i + 1).last() == receiver@[i as int]@);
            }
            i += 1;
        }
        assert(chords_of_lists(receiver@).take(receiver@.len() as int) == chords_of_lists(
            receiver@,
        ));
        Self { key, input_receivers, default_axis_value: Vec::new() }
    }

    /// Sets the action key; the binding is handed back for chaining.
    pub fn kind(&mut self, key: InputKey) -> (binding: &mut Self)
        ensures
            binding@ == old(self)@.with_key(key),
            old(self)@.wf() ==> binding@.wf(),
            *final(self) == *final(binding),
    {
        self.key = key;
        self
    }

    /// Adds the chord of the single receiver `receiver` as an alternative; the binding is
    /// handed back for chaining.
    pub fn receiver(&mut self, receiver: InputReceiver) -> (binding: &mut Self)
        ensures
            binding@ == old(self)@.with_alternative(seq![receiver]),
            old(self)@.wf() ==> binding@.wf(),
            *final(self) == *final(binding),
    {
        proof {
            if old(self)@.wf() {
                lemma_insert_alternative_no_duplicates(old(self)@.input_receivers, seq![receiver]);
            }
        }
        let chord = InputReceivers(vec![receiver]);
        assert(chord@ == seq![receiver]);
        insert_chord(&mut self.input_receivers, chord);
        self
    }

    /// Adds the chord `receivers` as one alternative; the binding is handed back for
    /// chaining.
    pub fn receivers(&mut self, receivers: Vec<InputReceiver>) -> (binding: &mut Self)
        ensures
            binding@ == old(self)@.with_alternative(receivers@),
            old(self)@.wf() ==> binding@.wf(),
            *final(self) == *final(binding),
    {
        proof {
            if old(self)@.wf() {
                lemma_insert_alternative_no_duplicates(old(self)@.input_receivers, receivers@);
            }
        }
        insert_chord(&mut self.input_receivers, InputReceivers(receivers));
        self
    }

    /// Moves the defaults of the binding to the descriptors of `view`, entry by entry,
    /// and leaves the binding's table empty; the binding is handed back.
    pub fn apply_default_axis_to_all_receivers(&mut self, view: &mut InputView<InputKey>) -> (binding:
        &Self)
        ensures
            final(view)@ == old(view)@.with_defaults(old(self)@.default_axis_value),
            old(view)@.wf() ==> final(view)@.wf(),
            final(self)@ == old(self)@.without_defaults(),
            old(self)@.wf() ==> final(self)@.wf(),
            *binding == *final(self),
    {
        proof {
            if old(view)@.wf() {
                crate::wellformed::lemma_with_defaults_wf(old(view)@, old(self)@.default_axis_value);
            }
        }
        let mut i: usize = 0;
        assert(self.default_axis_value@.take(0) == Seq::<(InputReceiver, AxisValue)>::empty());
        while i < self.default_axis_value.len()
            invariant
                i <= self.default_axis_value.len(),
                *self == *old(self),
                view@ == old(view)@.with_defaults(self.default_axis_value@.take(i as int)),
            decreases self.default_axis_value.len() - i,
        {
            let (input, value) = self.default_axis_value[i];
            proof {
                let all = self.default_axis_value@;
                assert(all.take(i + 1).drop_last() == all.take(i as int));
                assert(all.take(i + 1).last() == (input, value));
            }
            view.descriptor_or_insert(input).default_axis_value = value;
            i += 1;
        }
        assert(self.default_axis_value@.take(self.default_axis_value@.len() as int)
            == self.default_axis_value@);
        self.default_axis_value.clear();
        assert(default_keys(self@.default_axis_value) == Seq::<InputReceiver>::empty());
        self
    }

    /// Registers `value` as the default magnitude of `receiver`, in place of an earlier
    /// one; the binding is handed back for chaining.
    pub fn default_axis_value(&mut self, receiver: InputReceiver, value: AxisValue) -> (binding:
        &mut Self)
        ensures
            binding@ == old(self)@.with_default(receiver, value),
            old(self)@.wf() ==> binding@.wf(),
            *final(self) == *final(binding),
    {
        proof {
            if old(self)@.wf() {
                lemma_insert_default_no_duplicates(
                    old(self)@.default_axis_value,
                    receiver,
                    value,
                );
            }
        }
        match default_index(&self.default_axis_value, receiver) {
            Some(index) => {
                self.default_axis_value[index] = (receiver, value);
            },
            None => {
                self.default_axis_value.push((receiver, value));
            },
        }
        self
    }
}

/// The receivers of `chord` that are not of the class `source`, in the chord's order.
fn chord_without_source(chord: &Vec<InputReceiver>, source: InputSource) -> (kept: Vec<
    InputReceiver,
>)
    ensures
        kept@ == strip_chord(chord@, source),
{
    let mut kept: Vec<InputReceiver> = Vec::new();
    let ghost keep = |receiver: InputReceiver| receiver.source() != source;
    let mut i: usize = 0;
    proof {
        reveal(Seq::filter);
        assert(chord@.take(0).filter(keep) == Seq::<InputReceiver>::empty());
    }
    while i < chord.len()
        invariant
            i <= chord.len(),
            keep == |receiver: InputReceiver| receiver.source() != source,
            kept@ == chord@.take(i as int).filter(keep),
        decreases chord.len() - i,
    {
        let receiver = chord[i];
        proof {
            assert(chord@.take(i + 1) == chord@.take(i as int).push(receiver));
            chord@.take(i as int).lemma_filter_push(receiver, keep);
        }
        if receiver.source() != source {
            kept.push(receiver);
        }
        i += 1;
    }
    assert(chord@.take(chord@.len() as int) == chord@);
    kept
}

impl<InputKey> ActionBinding<InputKey> where InputKey: BindingTypeView {
    /// A copy of the binding without the receivers of the class `source`.
    pub fn without_source(&self, source: InputSource) -> (binding: Self)
        ensures
            binding@ == self@.without_source(source),
            self@.wf() ==> binding@.wf(),
    {
        proof {
            if self@.wf() {
                lemma_without_source_wf(self@, source);
            }
        }
        let ghost strip = |chord: Seq<InputReceiver>| strip_chord(chord, source);
        let ghost occupied = |chord: Seq<InputReceiver>| chord.len() > 0;
        let ghost all = self@.input_receivers;
        let mut input_receivers: Vec<InputReceivers> = Vec::new();
        let mut i: usize = 0;
        proof {
            reveal(Seq::filter);
            assert(all.take(0).map_values(strip).filter(occupied) == Seq::<
                Seq<InputReceiver>,
            >::empty());
        }
        while i < self.input_receivers.len()
            invariant
                i <= self.input_receivers.len(),
                all == self@.input_receivers,
                strip == |chord: Seq<InputReceiver>| strip_chord(chord, source),
                occupied == |chord: Seq<InputReceiver>| chord.len() > 0,
                chords_of(input_receivers@) == distinct_alternatives(
                    all.take(i as int).map_values(strip).filter(occupied),
                ),
            decreases self.input_receivers.len() - i,
        {
            let kept = chord_without_source(&self.input_receivers[i].0, source);
            proof {
                let before = all.take(i as int).map_values(strip);
                assert(all[i as int] == self.input_receivers@[i as int]@);
                assert(all.take(i + 1).map_values(strip) == before.push(kept@));
                before.lemma_filter_push(kept@, occupied);
                if kept@.len() > 0 {
                    let next = before.filter(occupied).push(kept@);
                    assert(next.drop_last() == before.filter(occupied));
                    assert(next.last() == kept@);
                }
            }
            if kept.len() > 0 {
                insert_chord(&mut input_receivers, InputReceivers(kept));
            }
            i += 1;
        }
        assert(all.take(all.len() as int) == all);

        let ghost keep = |entry: (InputReceiver, AxisValue)| entry.0.source() != source;
        let mut default_axis_value: Vec<(InputReceiver, AxisValue)> = Vec::new();
        let mut j: usize = 0;
        proof {
            reveal(Seq::filter);
            assert(self.default_axis_value@.take(0).filter(keep) == Seq::<
                (InputReceiver, AxisValue),
            >::empty());
        }
        while j < self.default_axis_value.len()
            invariant
                j <= self.default_axis_value.len(),
                keep == |entry: (InputReceiver, AxisValue)| entry.0.source() != source,
                default_axis_value@ == self.default_axis_value@.take(j as int).filter(keep),
            decreases self.default_axis_value.len() - j,
        {
            let entry = self.default_axis_value[j];
            proof {
                let entries = self.default_axis_value@;
                assert(entries.take(j + 1) == entries.take(j as int).push(entry));
                entries.take(j as int).lemma_filter_push(entry, keep);
            }
            if entry.0.source() != source {
                default_axis_value.push(entry);
            }
            j += 1;
        }
        assert(self.default_axis_value@.take(self.default_axis_value@.len() as int)
            == self.default_axis_value@);
        Self { key: self.key, input_receivers, default_axis_value }
    }
}

/// Stripping a device class from a set of alternatives a second time changes nothing.
pub proof fn lemma_strip_alternatives_idempotent(
    alternatives: Seq<Seq<InputReceiver>>,
    source: InputSource,
)
    ensures
        strip_alternatives(strip_alternatives(alternatives, source), source) == strip_alternatives(
            alternatives,
            source,
        ),
{
    let strip = |chord: Seq<InputReceiver>| strip_chord(chord, source);
    let occupied = |chord: Seq<InputReceiver>| chord.len() > 0;
    let keep = |receiver: InputReceiver| receiver.source() != source;
    let mapped = alternatives.map_values(strip);
    let filtered = mapped.filter(occupied);
    let once = distinct_alternatives(filtered);
    assert(once == strip_alternatives(alternatives, source));
    lemma_distinct_alternatives_no_duplicates(filtered);
    assert forall|i: int| 0 <= i < once.len() implies strip(#[trigger] once[i]) == once[i]
        && occupied(once[i]) by {
        let chord = once[i];
        lemma_distinct_alternatives_contains(filtered, chord);
        assert(filtered.contains(chord));
        let k = choose|k: int| 0 <= k < filtered.len() && filtered[k] == chord;
        mapped.lemma_filter_pred(occupied, k);
        mapped.lemma_filter_contains_rev(occupied, chord);
        let m = choose|m: int| 0 <= m < mapped.len() && mapped[m] == chord;
        assert(chord == alternatives[m].filter(keep));
        lemma_filter_idempotent(alternatives[m], keep);
    }
    assert(once.map_values(strip) == once);
    lemma_filter_all(once, occupied);
    lemma_distinct_alternatives_fixpoint(once);
}

/// Stripping a device class from a binding a second time changes nothing.
pub proof fn lemma_without_source_idempotent<InputKey>(
    binding: BindingModel<InputKey>,
    source: InputSource,
)
    ensures
        binding.without_source(source).without_source(source) == binding.without_source(source),
{
    lemma_strip_alternatives_idempotent(binding.input_receivers, source);
    lemma_filter_idempotent(
        binding.default_axis_value,
        |entry: (InputReceiver, AxisValue)| entry.0.source() != source,
    );
}

} // verus!
