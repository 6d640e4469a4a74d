use std::cmp::Ordering;
use std::time::{Duration, Instant};

use ezinput::state::{AxisState, ButtonState, PressState, PressStateExt};
use ezinput::value::AxisValue;

fn stamped(at: u64) -> PressState {
    PressState::Pressed { started_pressing_instant: Some(at) }
}

fn fresh() -> PressState {
    PressState::Pressed { started_pressing_instant: None }
}

#[test]
fn press_state_partial_ord_press_state_test() {
    let origin = Instant::now();
    let now = origin.elapsed();
    let a = PressState::Pressed { started_pressing_instant: Some(now.as_nanos() as u64) };
    let b = PressState::Pressed {
        started_pressing_instant: Some((now + Duration::from_secs(342534)).as_nanos() as u64),
    };
    let value = a.cmp(&b);
    assert_eq!(value, Ordering::Less);
}

#[test]
fn state_partial_ord_press_state_test() {
    let origin = Instant::now();
    let now = origin.elapsed();
    let a = PressState::Pressed { started_pressing_instant: Some(now.as_nanos() as u64) };
    let b = PressState::Pressed {
        started_pressing_instant: Some((now + Duration::from_secs(342534)).as_nanos() as u64),
    };
    let value = a.cmp(&b);
    assert_eq!(value, Ordering::Less);
    assert_eq!(a.partial_cmp(&b), Some(Ordering::Less));
    assert!(a < b);
}

#[test]
fn released_sorts_below_every_press() {
    assert_eq!(PressState::Released.partial_cmp(&fresh()), Some(Ordering::Less));
    assert_eq!(PressState::Released.partial_cmp(&stamped(0)), Some(Ordering::Less));
    assert_eq!(fresh().partial_cmp(&PressState::Released), Some(Ordering::Greater));
    assert_eq!(stamped(7).partial_cmp(&PressState::Released), Some(Ordering::Greater));
    assert_eq!(
        PressState::Released.partial_cmp(&PressState::Released),
        Some(Ordering::Equal)
    );
}

#[test]
fn fresh_press_sorts_below_stamped_presses() {
    assert_eq!(fresh().partial_cmp(&stamped(0)), Some(Ordering::Less));
    assert_eq!(stamped(0).partial_cmp(&fresh()), Some(Ordering::Greater));
    assert_eq!(fresh().partial_cmp(&fresh()), Some(Ordering::Equal));
}

#[test]
fn stamped_presses_sort_by_instant() {
    assert_eq!(stamped(5).partial_cmp(&stamped(9)), Some(Ordering::Less));
    assert_eq!(stamped(9).partial_cmp(&stamped(5)), Some(Ordering::Greater));
    assert_eq!(stamped(9).partial_cmp(&stamped(9)), Some(Ordering::Equal));
    assert_eq!(stamped(u64::MAX).partial_cmp(&stamped(0)), Some(Ordering::Greater));
}

#[test]
fn derived_order_agrees_with_partial_cmp() {
    let states = [
        PressState::Released,
        fresh(),
        stamped(0),
        stamped(1),
        stamped(342534),
        stamped(u64::MAX),
    ];
    for a in states.iter() {
        for b in states.iter() {
            assert_eq!(a.partial_cmp(b), Some(a.cmp(b)));
        }
    }
    assert_eq!(*states.iter().max().unwrap(), stamped(u64::MAX));
    assert_eq!(*states.iter().min().unwrap(), PressState::Released);
}

#[test]
fn released_queries() {
    let state = PressState::Released;
    assert!(state.released());
    assert!(!state.pressed());
    assert!(!state.just_pressed());
    assert_eq!(state.elapsed(100), None);
    assert!(!state.is_pressed_for(100, 0));
}

#[test]
fn fresh_press_queries() {
    let state = fresh();
    assert!(!state.released());
    assert!(state.pressed());
    assert!(state.just_pressed());
    assert_eq!(state.elapsed(100), None);
    assert!(!state.is_pressed_for(100, 0));
}

#[test]
fn stamped_press_queries() {
    let state = stamped(1_000);
    assert!(!state.released());
    assert!(state.pressed());
    assert!(!state.just_pressed());
    assert_eq!(state.elapsed(1_500), Some(500));
    assert_eq!(state.elapsed(1_000), Some(0));
    assert!(state.is_pressed_for(1_500, 500));
    assert!(state.is_pressed_for(1_500, 0));
    assert!(!state.is_pressed_for(1_500, 501));
}

#[test]
fn elapsed_is_zero_before_the_stamp() {
    let state = stamped(1_000);
    assert_eq!(state.elapsed(999), Some(0));
    assert_eq!(state.elapsed(0), Some(0));
    assert!(state.is_pressed_for(0, 0));
    assert!(!state.is_pressed_for(0, 1));
}

#[test]
fn elapsed_reaches_the_whole_clock() {
    assert_eq!(stamped(0).elapsed(u64::MAX), Some(u64::MAX));
    assert!(stamped(0).is_pressed_for(u64::MAX, u64::MAX));
}

#[test]
fn press_and_release_overwrite() {
    let mut state = PressState::Released;
    state.press(None);
    assert_eq!(state, fresh());
    state.press(Some(12));
    assert_eq!(state, stamped(12));
    state.release();
    assert_eq!(state, PressState::Released);
}

#[test]
fn stamp_touches_only_fresh_presses() {
    let mut state = fresh();
    state.stamp(40);
    assert_eq!(state, stamped(40));
    state.stamp(90);
    assert_eq!(state, stamped(40));
    let mut released = PressState::Released;
    released.stamp(40);
    assert_eq!(released, PressState::Released);
}

#[test]
fn raw_transitions_become_press_states() {
    assert_eq!(PressState::from(ButtonState::Pressed), fresh());
    assert_eq!(PressState::from(ButtonState::Released), PressState::Released);
    let converted: PressState = ButtonState::Pressed.into();
    assert!(converted.just_pressed());
}

#[test]
fn axis_state_zero_is_released_at_zero() {
    let zero = AxisState::zero();
    assert_eq!(f32::from_bits(zero.value.to_bits()), 0.0);
    assert_eq!(zero.press, PressState::Released);
    assert!(zero.released());
}

#[test]
fn axis_state_new_and_set() {
    let half = AxisValue::from_bits(0.5f32.to_bits());
    let mut state = AxisState::new(half, fresh());
    assert_eq!(f32::from_bits(state.value.to_bits()), 0.5);
    assert!(state.just_pressed());
    assert!(state.pressed());
    state.set(AxisValue::zero(), stamped(3));
    assert_eq!(state.value, AxisValue::zero());
    assert_eq!(state.elapsed(10), Some(7));
    assert!(state.is_pressed_for(10, 7));
    assert!(!state.is_pressed_for(10, 8));
    assert!(!state.just_pressed());
    assert!(!state.released());
}
