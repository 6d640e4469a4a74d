//! Press states and axis states.
//!
//! A press state says whether a receiver is released, was pressed since the last tick, or
//! has been held since a known instant. An axis state pairs a press state with a magnitude.

use std::cmp::Ordering;
use vstd::prelude::*;
use crate::value::AxisValue;

verus! {

/// A reading of the host's monotonic clock, in nanoseconds since an origin the host chooses.
pub type Timestamp = u64;

/// A raw transition of a key or button, as the host's event source reports it.
#[derive(PartialEq, Eq, Structural, Clone, Copy, Debug, Hash)]
pub enum ButtonState {
    Pressed,
    Released,
}

impl ButtonState {
    /// The press state that the transition leads to: a fresh press, or released.
    pub open spec fn press_state(self) -> PressState {
        match self {
            ButtonState::Pressed => PressState::Pressed { started_pressing_instant: None },
            ButtonState::Released => PressState::Released,
        }
    }
}

/// The current state of one receiver or action.
///
/// A press enters as `Pressed` without an instant, which reads as "just pressed"; the next
/// tick stamps it, after which the hold duration can be told. The variants are declared in
/// ascending order, so the derived total order agrees with `partial_cmp`.
#[derive(PartialEq, Eq, Structural, Hash, Clone, Copy, Debug, Ord)]
pub enum PressState {
    /// The button or axis is at rest.
    Released,
    /// The button or axis is active; the instant is absent until the first tick after the
    /// press.
    Pressed { started_pressing_instant: Option<Timestamp> },
}

impl PressState {
    /// Whether the state is `Released`.
    pub open spec fn is_released(self) -> bool {
        self is Released
    }

    /// Whether the state is `Pressed`, stamped or not.
    pub open spec fn is_pressed(self) -> bool {
        self is Pressed
    }

    /// Whether the state is `Pressed` and not yet stamped.
    pub open spec fn is_just_pressed(self) -> bool {
        self == (PressState::Pressed { started_pressing_instant: None })
    }

    /// The time held at the reading `now`: absent unless the press has been stamped, and
    /// zero when the stamp lies after `now`.
    pub open spec fn elapsed_at(self, now: Timestamp) -> Option<u64> {
        match self {
            PressState::Pressed { started_pressing_instant: Some(start) } => Some(
                if now >= start {
                    (now - start) as u64
                } else {
                    0
                },
            ),
            _ => None,
        }
    }

    /// Whether the press has been stamped and held for at least `duration` at `now`.
    pub open spec fn held_for(self, now: Timestamp, duration: u64) -> bool {
        match self.elapsed_at(now) {
            Some(held) => held >= duration,
            None => false,
        }
    }

    /// The state after one tick at `now`: a fresh press gets its stamp, everything else
    /// stays.
    pub open spec fn stamped(self, now: Timestamp) -> PressState {
        if self.is_just_pressed() {
            PressState::Pressed { started_pressing_instant: Some(now) }
        } else {
            self
        }
    }

    /// The rank of the state in the total order: released first, then the fresh press,
    /// then stamped presses by ascending instant.
    pub open spec fn rank(self) -> int {
        match self {
            PressState::Released => 0,
            PressState::Pressed { started_pressing_instant: None } => 1,
            PressState::Pressed { started_pressing_instant: Some(start) } => 2 + start,
        }
    }

    /// How `self` compares with `other`: by rank.
    pub open spec fn compare(self, other: PressState) -> Ordering {
        if self.rank() < other.rank() {
            Ordering::Less
        } else if self.rank() == other.rank() {
            Ordering::Equal
        } else {
            Ordering::Greater
        }
    }

    /// Makes the state `Pressed` with the given instant.
    pub fn press(&mut self, started_pressing_instant: Option<Timestamp>)
        ensures
            *final(self) == (PressState::Pressed { started_pressing_instant }),
    {
        *self = PressState::Pressed { started_pressing_instant };
    }

    /// Makes the state `Released`.
    pub fn release(&mut self)
        ensures
            *final(self) == PressState::Released,
    {
        *self = PressState::Released;
    }

    /// Stamps a fresh press with `now`; leaves every other state as it is.
    pub fn stamp(&mut self, now: Timestamp)
        ensures
            *final(self) == old(self).stamped(now),
    {
        match *self {
            PressState::Pressed { started_pressing_instant: None } => {
                *self = PressState::Pressed { started_pressing_instant: Some(now) };
            },
            _ => {},
        }
    }
}

impl PartialOrd for PressState {
    /// Released sorts lowest; among presses the fresh one sorts before every stamped one,
    /// and stamped ones sort by instant. Every two states are comparable.
    fn partial_cmp(&self, other: &Self) -> (order: Option<Ordering>) {
        match (*self, *other) {
            (PressState::Released, PressState::Released) => Some(Ordering::Equal),
            (PressState::Released, PressState::Pressed { .. }) => Some(Ordering::Less),
            (PressState::Pressed { .. }, PressState::Released) => Some(Ordering::Greater),
            (
                PressState::Pressed { started_pressing_instant: a },
                PressState::Pressed { started_pressing_instant: b },
            ) => match (a, b) {
                (None, None) => Some(Ordering::Equal),
                (None, Some(_)) => Some(Ordering::Less),
                (Some(_), None) => Some(Ordering::Greater),
                (Some(x), Some(y)) => if x < y {
                    Some(Ordering::Less)
                } else if x == y {
                    Some(Ordering::Equal)
                } else {
                    Some(Ordering::Greater)
                },
            },
        }
    }
}

impl vstd::std_specs::cmp::PartialOrdSpecImpl for PressState {
    open spec fn obeys_partial_cmp_spec() -> bool {
        true
    }

    open spec fn partial_cmp_spec(&self, other: &Self) -> Option<Ordering> {
        Some(self.compare(*other))
    }
}

impl vstd::std_specs::convert::FromSpecImpl<ButtonState> for PressState {
    open spec fn obeys_from_spec() -> bool {
        true
    }

    open spec fn from_spec(value: ButtonState) -> Self {
        value.press_state()
    }
}

impl From<ButtonState> for PressState {
    /// A raw press becomes a fresh, unstamped press; a raw release becomes `Released`.
    fn from(value: ButtonState) -> (state: PressState) {
        match value {
            ButtonState::Pressed => PressState::Pressed { started_pressing_instant: None },
            ButtonState::Released => PressState::Released,
        }
    }
}

/// Queries on anything that carries a press state.
pub trait PressStateExt {
    /// The press state that the queries read.
    spec fn press_state(&self) -> PressState;

    /// Whether the state is released.
    fn released(&self) -> (released: bool)
        ensures
            released == self.press_state().is_released(),
    ;

    /// Whether the press has been stamped and, at the clock reading `now`, held for at
    /// least `duration` nanoseconds.
    fn is_pressed_for(&self, now: Timestamp, duration: u64) -> (held: bool)
        ensures
            held == self.press_state().held_for(now, duration),
    ;

    /// Whether the press arrived since the last tick.
    fn just_pressed(&self) -> (fresh: bool)
        ensures
            fresh == self.press_state().is_just_pressed(),
    ;

    /// Whether the state is pressed, fresh or stamped.
    fn pressed(&self) -> (pressed: bool)
        ensures
            pressed == self.press_state().is_pressed(),
    ;

    /// The nanoseconds held at the clock reading `now`, once the press has been stamped.
    fn elapsed(&self, now: Timestamp) -> (held: Option<u64>)
        ensures
            held == self.press_state().elapsed_at(now),
    ;
}

impl PressStateExt for PressState {
    open spec fn press_state(&self) -> PressState {
        *self
    }

    fn released(&self) -> (released: bool) {
        match *self {
            PressState::Released => true,
            PressState::Pressed { .. } => false,
        }
    }

    fn is_pressed_for(&self, now: Timestamp, duration: u64) -> (held: bool) {
        match self.elapsed(now) {
            Some(held) => held >= duration,
            None => false,
        }
    }

    fn just_pressed(&self) -> (fresh: bool) {
        match *self {
            PressState::Pressed { started_pressing_instant } => started_pressing_instant.is_none(),
            PressState::Released => false,
        }
    }

    fn pressed(&self) -> (pressed: bool) {
        match *self {
            PressState::Pressed { .. } => true,
            PressState::Released => false,
        }
    }

    fn elapsed(&self, now: Timestamp) -> (held: Option<u64>) {
        match *self {
            PressState::Pressed { started_pressing_instant: Some(start) } => {
                if now >= start {
                    Some(now - start)
                } else {
                    Some(0)
                }
            },
            _ => None,
        }
    }
}

/// The magnitude and press state of one receiver.
#[derive(PartialEq, Eq, Structural, Clone, Copy, Debug, Hash)]
pub struct AxisState {
    pub value: AxisValue,
    pub press: PressState,
}

impl AxisState {
    /// The state of a receiver that never reported: zero and released, in specifications.
    pub open spec fn spec_zero() -> AxisState {
        AxisState { value: AxisValue::spec_zero(), press: PressState::Released }
    }

    /// The state of a receiver that never reported: zero and released.
    #[verifier::when_used_as_spec(spec_zero)]
    pub fn zero() -> (state: AxisState)
        ensures
            state == Self::spec_zero(),
    {
        AxisState { value: AxisValue::zero(), press: PressState::Released }
    }

    /// The state with the given magnitude and press state.
    pub fn new(value: AxisValue, press: PressState) -> (state: AxisState)
        ensures
            state.value == value,
            state.press == press,
    {
        AxisState { value, press }
    }

    /// Overwrites both the magnitude and the press state.
    pub fn set(&mut self, value: AxisValue, press: PressState)
        ensures
            final(self).value == value,
            final(self).press == press,
    {
        self.value = value;
        self.press = press;
    }
}

impl PressStateExt for AxisState {
    open spec fn press_state(&self) -> PressState {
        self.press
    }

    fn released(&self) -> (released: bool) {
        self.press.released()
    }

    fn is_pressed_for(&self, now: Timestamp, duration: u64) -> (held: bool) {
        self.press.is_pressed_for(now, duration)
    }

    fn just_pressed(&self) -> (fresh: bool) {
        self.press.just_pressed()
    }

    fn pressed(&self) -> (pressed: bool) {
        self.press.pressed()
    }

    fn elapsed(&self, now: Timestamp) -> (held: Option<u64>) {
        self.press.elapsed(now)
    }
}

/// Whether every state of the sequence is pressed.
pub open spec fn all_pressed(states: Seq<PressState>) -> bool {
    forall|i: int| 0 <= i < states.len() ==> (#[trigger] states[i]).is_pressed()
}

/// Whether every state of the sequence is a fresh press.
pub open spec fn all_just_pressed(states: Seq<PressState>) -> bool {
    forall|i: int| 0 <= i < states.len() ==> (#[trigger] states[i]).is_just_pressed()
}

/// Whether every state of the sequence is released.
pub open spec fn all_released(states: Seq<PressState>) -> bool {
    forall|i: int| 0 <= i < states.len() ==> (#[trigger] states[i]).is_released()
}

/// Queries on a group of states taken together: each holds when it holds of every member,
/// so all three hold of an empty group.
pub trait AxisStateVecExt {
    /// The press states of the members, in order.
    spec fn press_states(&self) -> Seq<PressState>;

    /// Whether every member is pressed.
    fn pressed(&self) -> (all: bool)
        ensures
            all == all_pressed(self.press_states()),
    ;

    /// Whether every member is a fresh press.
    fn just_pressed(&self) -> (all: bool)
        ensures
            all == all_just_pressed(self.press_states()),
    ;

    /// Whether every member is released.
    fn released(&self) -> (all: bool)
        ensures
            all == all_released(self.press_states()),
    ;
}

impl AxisStateVecExt for Vec<AxisState> {
    open spec fn press_states(&self) -> Seq<PressState> {
        self@.map_values(|state: AxisState| state.press)
    }

    fn pressed(&self) -> (all: bool) {
        let mut i: usize = 0;
        while i < self.len()
            invariant
                i <= self.len(),
                forall|j: int| 0 <= j < i ==> (#[trigger] self.press_states()[j]).is_pressed(),
            decreases self.len() - i,
        {
            if !self[i].press.pressed() {
                assert(!self.press_states()[i as int].is_pressed());
                return false;
            }
            i += 1;
        }
        true
    }

    fn just_pressed(&self) -> (all: bool) {
        let mut i: usize = 0;
        while i < self.len()
            invariant
                i <= self.len(),
                forall|j: int| 0 <= j < i ==> (#[trigger] self.press_states()[j]).is_just_pressed(),
            decreases self.len() - i,
        {
            if !self[i].press.just_pressed() {
                assert(!self.press_states()[i as int].is_just_pressed());
                return false;
            }
            i += 1;
        }
        true
    }

    fn released(&self) -> (all: bool) {
        let mut i: usize = 0;
        while i < self.len()
            invariant
                i <= self.len(),
                forall|j: int| 0 <= j < i ==> (#[trigger] self.press_states()[j]).is_released(),
            decreases self.len() - i,
        {
            if !self[i].press.released() {
                assert(!self.press_states()[i as int].is_released());
                return false;
            }
            i += 1;
        }
        true
    }
}

impl AxisStateVecExt for (&PressState, &PressState) {
    open spec fn press_states(&self) -> Seq<PressState> {
        seq![*self.0, *self.1]
    }

    fn pressed(&self) -> (all: bool) {
        proof {
            let states = self.press_states();
            assert(states[0] == *self.0);
            assert(states[1] == *self.1);
        }
        self.0.pressed()
            && self.1.pressed()
    }

    fn just_pressed(&self) -> (all: bool) {
        proof {
            let states = self.press_states();
            assert(states[0] == *self.0);
            assert(states[1] == *self.1);
        }
        self.0.just_pressed()
            && self.1.just_pressed()
    }

    fn released(&self) -> (all: bool) {
        proof {
            let states = self.press_states();
            assert(states[0] == *self.0);
            assert(states[1] == *self.1);
        }
        self.0.released()
            && self.1.released()
    }
}

impl AxisStateVecExt for (&PressState, &PressState, &PressState) {
    open spec fn press_states(&self) -> Seq<PressState> {
        seq![*self.0, *self.1, *self.2]
    }

    fn pressed(&self) -> (all: bool) {
        proof {
            let states = self.press_states();
            assert(states[0] == *self.0);
            assert(states[1] == *self.1);
            assert(states[2] == *self.2);
        }
        self.0.pressed()
            && self.1.pressed()
            && self.2.pressed()
    }

    fn just_pressed(&self) -> (all: bool) {
        proof {
            let states = self.press_states();
            assert(states[0] == *self.0);
            assert(states[1] == *self.1);
            assert(states[2] == *self.2);
        }
        self.0.just_pressed()
            && self.1.just_pressed()
            && self.2.just_pressed()
    }

    fn released(&self) -> (all: bool) {
        proof {
            let states = self.press_states();
            assert(states[0] == *self.0);
            assert(states[1] == *self.1);
            assert(states[2] == *self.2);
        }
        self.0.released()
            && self.1.released()
            && self.2.released()
    }
}

impl AxisStateVecExt for (&PressState, &PressState, &PressState, &PressState) {
    open spec fn press_states(&self) -> Seq<PressState> {
        seq![*self.0, *self.1, *self.2, *self.3]
    }

    fn pressed(&self) -> (all: bool) {
        proof {
            let states = self.press_states();
            assert(states[0] == *self.0);
            assert(states[1] == *self.1);
            assert(states[2] == *self.2);
            assert(states[3] == *self.3);
        }
        self.0.pressed()
            && self.1.pressed()
            && self.2.pressed()
            && self.3.pressed()
    }

    fn just_pressed(&self) -> (all: bool) {
        proof {
            let states = self.press_states();
            assert(states[0] == *self.0);
            assert(states[1] == *self.1);
            assert(states[2] == *self.2);
            assert(states[3] == *self.3);
        }
        self.0.just_pressed()
            && self.1.just_pressed()
            && self.2.just_pressed()
            && self.3.just_pressed()
    }

    fn released(&self) -> (all: bool) {
        proof {
            let states = self.press_states();
            assert(states[0] == *self.0);
            assert(states[1] == *self.1);
            assert(states[2] == *self.2);
            assert(states[3] == *self.3);
        }
        self.0.released()
            && self.1.released()
            && self.2.released()
            && self.3.released()
    }
}

impl AxisStateVecExt for (&PressState, &PressState, &PressState, &PressState, &PressState) {
    open spec fn press_states(&self) -> Seq<PressState> {
        seq![*self.0, *self.1, *self.2, *self.3, *self.4]
    }

    fn pressed(&self) -> (all: bool) {
        proof {
            let states = self.press_states();
            assert(states[0] == *self.0);
            assert(states[1] == *self.1);
            assert(states[2] == *self.2);
            assert(states[3] == *self.3);
            assert(states[4] == *self.4);
        }
        self.0.pressed()
            && self.1.pressed()
            && self.2.pressed()
            && self.3.pressed()
            && self.4.pressed()
    }

    fn just_pressed(&self) -> (all: bool) {
        proof {
            let states = self.press_states();
            assert(states[0] == *self.0);
            assert(states[1] == *self.1);
            assert(states[2] == *self.2);
            assert(states[3] == *self.3);
            assert(states[4] == *self.4);
        }
        self.0.just_pressed()
            && self.1.just_pressed()
            && self.2.just_pressed()
            && self.3.just_pressed()
            && self.4.just_pressed()
    }

    fn released(&self) -> (all: bool) {
        proof {
            let states = self.press_states();
            assert(states[0] == *self.0);
            assert(states[1] == *self.1);
            assert(states[2] == *self.2);
            assert(states[3] == *self.3);
            assert(states[4] == *self.4);
        }
        self.0.released()
            && self.1.released()
            && self.2.released()
            && self.3.released()
            && self.4.released()
    }
}

impl AxisStateVecExt for (&AxisState, &AxisState) {
    open spec fn press_states(&self) -> Seq<PressState> {
        seq![self.0.press, self.1.press]
    }

    fn pressed(&self) -> (all: bool) {
        proof {
            let states = self.press_states();
            assert(states[0] == self.0.press);
            assert(states[1] == self.1.press);
        }
        self.0.press.pressed()
            && self.1.press.pressed()
    }

    fn just_pressed(&self) -> (all: bool) {
        proof {
            let states = self.press_states();
            assert(states[0] == self.0.press);
            assert(states[1] == self.1.press);
        }
        self.0.press.just_pressed()
            && self.1.press.just_pressed()
    }

    fn released(&self) -> (all: bool) {
        proof {
            let states = self.press_states();
            assert(states[0] == self.0.press);
            assert(states[1] == self.1.press);
        }
        self.0.press.released()
            && self.1.press.released()
    }
}

impl AxisStateVecExt for (&AxisState, &AxisState, &AxisState) {
    open spec fn press_states(&self) -> Seq<PressState> {
        seq![self.0.press, self.1.press, self.2.press]
    }

    fn pressed(&self) -> (all: bool) {
        proof {
            let states = self.press_states();
            assert(states[0] == self.0.press);
            assert(states[1] == self.1.press);
            assert(states[2] == self.2.press);
        }
        self.0.press.pressed()
            && self.1.press.pressed()
            && self.2.press.pressed()
    }

    fn just_pressed(&self) -> (all: bool) {
        proof {
            let states = self.press_states();
            assert(states[0] == self.0.press);
            assert(states[1] == self.1.press);
            assert(states[2] == self.2.press);
        }
        self.0.press.just_pressed()
            && self.1.press.just_pressed()
            && self.2.press.just_pressed()
    }

    fn released(&self) -> (all: bool) {
        proof {
            let states = self.press_states();
            assert(states[0] == self.0.press);
            assert(states[1] == self.1.press);
            assert(states[2] == self.2.press);
        }
        self.0.press.released()
            && self.1.press.released()
            && self.2.press.released()
    }
}

impl AxisStateVecExt for (&AxisState, &AxisState, &AxisState, &AxisState) {
    open spec fn press_states(&self) -> Seq<PressState> {
        seq![self.0.press, self.1.press, self.2.press, self.3.press]
    }

    fn pressed(&self) -> (all: bool) {
        proof {
            let states = self.press_states();
            assert(states[0] == self.0.press);
            assert(states[1] == self.1.press);
            assert(states[2] == self.2.press);
            assert(states[3] == self.3.press);
        }
        self.0.press.pressed()
            && self.1.press.pressed()
            && self.2.press.pressed()
            && self.3.press.pressed()
    }

    fn just_pressed(&self) -> (all: bool) {
        proof {
            let states = self.press_states();
            assert(states[0] == self.0.press);
            assert(states[1] == self.1.press);
            assert(states[2] == self.2.press);
            assert(states[3] == self.3.press);
        }
        self.0.press.just_pressed()
            && self.1.press.just_pressed()
            && self.2.press.just_pressed()
            && self.3.press.just_pressed()
    }

    fn released(&self) -> (all: bool) {
        proof {
            let states = self.press_states();
            assert(states[0] == self.0.press);
            assert(states[1] == self.1.press);
            assert(states[2] == self.2.press);
            assert(states[3] == self.3.press);
        }
        self.0.press.released()
            && self.1.press.released()
            && self.2.press.released()
            && self.3.press.released()
    }
}

impl AxisStateVecExt for (&AxisState, &AxisState, &AxisState, &AxisState, &AxisState) {
    open spec fn press_states(&self) -> Seq<PressState> {
        seq![self.0.press, self.1.press, self.2.press, self.3.press, self.4.press]
    }

    fn pressed(&self) -> (all: bool) {
        proof {
            let states = self.press_states();
            assert(states[0] == self.0.press);
            assert(states[1] == self.1.press);
            assert(states[2] == self.2.press);
            assert(states[3] == self.3.press);
            assert(states[4] == self.4.press);
        }
        self.0.press.pressed()
            && self.1.press.pressed()
            && self.2.press.pressed()
            && self.3.press.pressed()
            && self.4.press.pressed()
    }

    fn just_pressed(&self) -> (all: bool) {
        proof {
            let states = self.press_states();
            assert(states[0] == self.0.press);
            assert(states[1] == self.1.press);
            assert(states[2] == self.2.press);
            assert(states[3] == self.3.press);
            assert(states[4] == self.4.press);
        }
        self.0.press.just_pressed()
            && self.1.press.just_pressed()
            && self.2.press.just_pressed()
            && self.3.press.just_pressed()
            && self.4.press.just_pressed()
    }

    fn released(&self) -> (all: bool) {
        proof {
            let states = self.press_states();
            assert(states[0] == self.0.press);
            assert(states[1] == self.1.press);
            assert(states[2] == self.2.press);
            assert(states[3] == self.3.press);
            assert(states[4] == self.4.press);
        }
        self.0.press.released()
            && self.1.press.released()
            && self.2.press.released()
            && self.3.press.released()
            && self.4.press.released()
    }
}

} // verus!
