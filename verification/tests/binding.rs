use ezinput::binding::{ActionBinding, BindingTypeView, InputReceivers};
use ezinput::gamepad::GamepadButtonType;
use ezinput::keyboard::KeyCode;
use ezinput::mouse::MouseButton;
use ezinput::receiver::InputReceiver;
use ezinput::value::AxisValue;
use ezinput::view::InputView;

#[derive(Clone, Copy, Debug, PartialEq, Eq)]
enum Action {
    Jump,
    Crouch,
}

impl BindingTypeView for Action {
    fn action_id(&self) -> u64 {
        self.id()
    }

    fn id(&self) -> u64 {
        match self {
            Action::Jump => 0,
            Action::Crouch => 1,
        }
    }
}

fn key(code: u32) -> InputReceiver {
    InputReceiver::KeyboardKey(KeyCode(code))
}

fn value(x: f32) -> AxisValue {
    AxisValue::from_bits(x.to_bits())
}

fn chords(binding: &ActionBinding<Action>) -> Vec<Vec<InputReceiver>> {
    binding.input_receivers.iter().map(|chord| chord.0.clone()).collect()
}

#[test]
fn integers_are_their_own_action_numbers() {
    assert_eq!(7u8.id(), 7);
    assert_eq!(700u16.id(), 700);
    assert_eq!(70_000u32.id(), 70_000);
    assert_eq!(u64::MAX.id(), u64::MAX);
}

#[test]
fn from_key_is_empty() {
    let binding = ActionBinding::from(Action::Jump);
    assert_eq!(binding.key, Action::Jump);
    assert!(binding.input_receivers.is_empty());
    assert!(binding.default_axis_value.is_empty());
}

#[test]
fn receiver_adds_a_singleton_chord() {
    let mut binding = ActionBinding::from(Action::Jump);
    binding.receiver(key(1));
    assert_eq!(chords(&binding), vec![vec![key(1)]]);
}

#[test]
fn receivers_adds_one_chord() {
    let mut binding = ActionBinding::from(Action::Jump);
    binding.receivers(vec![key(1), key(2)]);
    assert_eq!(chords(&binding), vec![vec![key(1), key(2)]]);
}

#[test]
fn builder_calls_chain_and_accumulate() {
    let mut binding = ActionBinding::from(Action::Jump);
    binding
        .receiver(key(1))
        .receivers(vec![key(2), key(3)])
        .receiver(InputReceiver::GamepadButton(GamepadButtonType::South))
        .default_axis_value(key(1), value(-1.0))
        .kind(Action::Crouch);
    assert_eq!(binding.key, Action::Crouch);
    assert_eq!(
        chords(&binding),
        vec![
            vec![key(1)],
            vec![key(2), key(3)],
            vec![InputReceiver::GamepadButton(GamepadButtonType::South)],
        ]
    );
    assert_eq!(binding.default_axis_value, vec![(key(1), value(-1.0))]);
}

#[test]
fn alternatives_keep_registration_order() {
    let mut binding = ActionBinding::from(Action::Jump);
    binding.receiver(key(9)).receiver(key(3)).receiver(key(5));
    assert_eq!(chords(&binding), vec![vec![key(9)], vec![key(3)], vec![key(5)]]);
}

#[test]
fn an_equal_chord_is_not_added_twice() {
    let mut binding = ActionBinding::from(Action::Jump);
    binding.receiver(key(1)).receiver(key(2)).receiver(key(1));
    assert_eq!(chords(&binding), vec![vec![key(1)], vec![key(2)]]);
    binding.receivers(vec![key(2)]);
    assert_eq!(chords(&binding), vec![vec![key(1)], vec![key(2)]]);
}

#[test]
fn chords_differ_by_order_and_length() {
    let mut binding = ActionBinding::from(Action::Jump);
    binding
        .receivers(vec![key(1), key(2)])
        .receivers(vec![key(2), key(1)])
        .receivers(vec![key(1)])
        .receivers(vec![key(1), key(2)]);
    assert_eq!(
        chords(&binding),
        vec![vec![key(1), key(2)], vec![key(2), key(1)], vec![key(1)]]
    );
}

#[test]
fn an_empty_chord_can_be_registered() {
    let mut binding = ActionBinding::from(Action::Jump);
    binding.receivers(vec![]).receivers(vec![]);
    assert_eq!(chords(&binding), vec![Vec::<InputReceiver>::new()]);
}

#[test]
fn a_default_is_overwritten_in_place() {
    let mut binding = ActionBinding::from(Action::Jump);
    binding
        .default_axis_value(key(1), value(-1.0))
        .default_axis_value(key(2), value(0.5))
        .default_axis_value(key(1), value(0.25));
    assert_eq!(
        binding.default_axis_value,
        vec![(key(1), value(0.25)), (key(2), value(0.5))]
    );
}

#[test]
fn new_takes_each_chord_once() {
    let binding = ActionBinding::new(
        Action::Jump,
        vec![
            InputReceivers(vec![key(1)]),
            InputReceivers(vec![key(2), key(3)]),
            InputReceivers(vec![key(1)]),
        ],
    );
    assert_eq!(binding.key, Action::Jump);
    assert_eq!(chords(&binding), vec![vec![key(1)], vec![key(2), key(3)]]);
    assert!(binding.default_axis_value.is_empty());
}

#[test]
fn new_from_vec_takes_each_list_once() {
    let binding = ActionBinding::new_from_vec(
        Action::Crouch,
        vec![vec![key(4)], vec![key(4)], vec![key(5), key(6)], vec![]],
    );
    assert_eq!(binding.key, Action::Crouch);
    assert_eq!(chords(&binding), vec![vec![key(4)], vec![key(5), key(6)], vec![]]);
}

#[test]
fn chords_compare_by_their_receivers() {
    assert!(InputReceivers(vec![key(1), key(2)]) == InputReceivers(vec![key(1), key(2)]));
    assert!(InputReceivers(vec![key(1), key(2)]) != InputReceivers(vec![key(2), key(1)]));
    assert!(InputReceivers(vec![key(1)]) != InputReceivers(vec![key(1), key(1)]));
    assert!(InputReceivers(vec![]) == InputReceivers(vec![]));
    assert!(InputReceivers::from(vec![key(7)]) == InputReceivers(vec![key(7)]));
    assert!(InputReceivers(vec![key(7)]).clone() == InputReceivers(vec![key(7)]));
}

#[test]
fn a_binding_clone_holds_the_same() {
    let mut binding = ActionBinding::from(Action::Jump);
    binding.receiver(key(1)).receivers(vec![key(2), key(3)]).default_axis_value(key(1), value(2.0));
    let copy = binding.clone();
    assert!(copy == binding);
    assert_eq!(chords(&copy), vec![vec![key(1)], vec![key(2), key(3)]]);
    assert_eq!(copy.default_axis_value, vec![(key(1), value(2.0))]);
}

#[test]
fn applying_defaults_moves_them_to_the_view() {
    let mut view: InputView<Action> = InputView::new();
    let mut binding = ActionBinding::from(Action::Jump);
    binding
        .receiver(key(1))
        .default_axis_value(key(1), value(-1.0))
        .default_axis_value(InputReceiver::MouseButton(MouseButton::Left), value(0.5));
    binding.apply_default_axis_to_all_receivers(&mut view);
    assert!(binding.default_axis_value.is_empty());
    assert_eq!(chords(&binding), vec![vec![key(1)]]);
    assert_eq!(view.get_receiver_default_axis_value(key(1)), value(-1.0));
    assert_eq!(
        view.get_receiver_default_axis_value(InputReceiver::MouseButton(MouseButton::Left)),
        value(0.5)
    );
    assert_eq!(view.get_receiver_default_axis_value(key(2)), value(1.0));
}

#[test]
fn without_source_strips_chords_and_defaults() {
    let south = InputReceiver::GamepadButton(GamepadButtonType::South);
    let left = InputReceiver::MouseButton(MouseButton::Left);
    let mut binding = ActionBinding::from(Action::Jump);
    binding
        .receivers(vec![key(1), south])
        .receiver(south)
        .receiver(key(2))
        .receivers(vec![left, key(3)])
        .default_axis_value(key(1), value(-1.0))
        .default_axis_value(south, value(0.5));
    let stripped = binding.without_source(ezinput::view::InputSource::Keyboard);
    assert_eq!(stripped.key, Action::Jump);
    assert_eq!(chords(&stripped), vec![vec![south], vec![left]]);
    assert_eq!(stripped.default_axis_value, vec![(south, value(0.5))]);
    assert_eq!(chords(&binding).len(), 4);
}
