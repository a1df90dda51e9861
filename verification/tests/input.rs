use bevy::input::Input;
use bevy_3ds::input::axis::{Axis3ds, Axis3dsType};
use bevy_3ds::input::button::{
    Button3ds, Button3dsType, KeyPad, KEY_A, KEY_B, KEY_CPAD_DOWN, KEY_CPAD_LEFT, KEY_CPAD_RIGHT,
    KEY_CPAD_UP, KEY_CSTICK_DOWN, KEY_CSTICK_LEFT, KEY_CSTICK_RIGHT, KEY_CSTICK_UP,
    KEY_DPAD_DOWN, KEY_DPAD_LEFT, KEY_DPAD_RIGHT, KEY_DPAD_UP, KEY_L, KEY_R, KEY_SELECT,
    KEY_START, KEY_TOUCH, KEY_X, KEY_Y, KEY_ZL, KEY_ZR,
};
use bevy_3ds::input::event::{
    button_3ds_event_system, event_system_3ds, Axis3dsChangedEvent, Button3dsChangedEvent,
    ButtonState, CtruButtonChangedEvent, Event3ds,
};
use bevy_3ds::input::{ctru_event_system, stick_in_deadzone, AxisReadings};

#[test]
fn buttons_and_axes_are_made_of_their_types() {
    assert_eq!(Button3ds::new(Button3dsType::ZL).button_type, Button3dsType::ZL);
    assert_eq!(Axis3ds::new(Axis3dsType::Volume).axis_type, Axis3dsType::Volume);
    assert_eq!(Axis3ds::new(Axis3dsType::CPadX), Axis3ds { axis_type: Axis3dsType::CPadX });
}

#[test]
fn every_button_has_its_key() {
    let keys = [
        (KEY_A, Button3dsType::A),
        (KEY_B, Button3dsType::B),
        (KEY_SELECT, Button3dsType::Select),
        (KEY_START, Button3dsType::Start),
        (KEY_DPAD_RIGHT, Button3dsType::DPadRight),
        (KEY_DPAD_LEFT, Button3dsType::DPadLeft),
        (KEY_DPAD_UP, Button3dsType::DPadUp),
        (KEY_DPAD_DOWN, Button3dsType::DPadDown),
        (KEY_R, Button3dsType::R),
        (KEY_L, Button3dsType::L),
        (KEY_X, Button3dsType::X),
        (KEY_Y, Button3dsType::Y),
        (KEY_ZL, Button3dsType::ZL),
        (KEY_ZR, Button3dsType::ZR),
        (KEY_CSTICK_RIGHT, Button3dsType::CStickRight),
        (KEY_CSTICK_LEFT, Button3dsType::CStickLeft),
        (KEY_CSTICK_UP, Button3dsType::CStickUp),
        (KEY_CSTICK_DOWN, Button3dsType::CStickDown),
        (KEY_CPAD_RIGHT, Button3dsType::CPadRight),
        (KEY_CPAD_LEFT, Button3dsType::CPadLeft),
        (KEY_CPAD_UP, Button3dsType::CPadUp),
        (KEY_CPAD_DOWN, Button3dsType::CPadDown),
    ];
    for (i, (key, button)) in keys.iter().enumerate() {
        assert_eq!(Button3dsType::try_from(KeyPad(*key)), Ok(*button));
        assert_eq!(key.count_ones(), 1);
        for (other, _) in &keys[..i] {
            assert!(other != key);
        }
    }
    assert_eq!(KEY_A, 1);
    assert_eq!(KEY_CPAD_DOWN, 1 << 31);
    assert_eq!(Button3dsType::try_from(KeyPad(KEY_TOUCH)), Err(()));
    assert_eq!(Button3dsType::try_from(KeyPad(0)), Err(()));
    assert_eq!(Button3dsType::try_from(KeyPad(KEY_A | KEY_B)), Err(()));
    assert_eq!(Button3dsType::try_from(KeyPad(KEY_DPAD_UP | KEY_CPAD_UP)), Err(()));
    assert_eq!(Button3dsType::try_from(KeyPad(1 << 12)), Err(()));
}

#[test]
fn deadzone_is_a_circle_of_twenty() {
    assert!(stick_in_deadzone(0, 0));
    assert!(stick_in_deadzone(19, 0));
    assert!(stick_in_deadzone(-12, 15));
    assert!(!stick_in_deadzone(20, 0));
    assert!(!stick_in_deadzone(0, -20));
    assert!(!stick_in_deadzone(12, 16));
    assert!(stick_in_deadzone(14, 14));
    assert!(!stick_in_deadzone(15, 14));
    assert!(!stick_in_deadzone(i16::MIN, i16::MIN));
    assert!(!stick_in_deadzone(i16::MAX, i16::MAX));
}

fn button(button_type: Button3dsType, state: ButtonState) -> Event3ds {
    Event3ds::Button(CtruButtonChangedEvent { button_type, state })
}

fn axis(axis_type: Axis3dsType, value: u32) -> Event3ds {
    Event3ds::Axis(Axis3dsChangedEvent { axis_type, value })
}

#[test]
fn one_scan_of_the_controls() {
    let readings = AxisReadings { circle_pad: (0x1111, 0x2222), c_stick: (0x3333, 0x4444), volume: Some(0x5555) };
    let events = ctru_event_system(
        &vec![KeyPad(KEY_A), KeyPad(KEY_TOUCH), KeyPad(KEY_ZR)],
        &vec![KeyPad(KEY_START)],
        (-30, 40),
        (3, -4),
        &readings,
    );
    let pressed = ButtonState::Pressed;
    let released = ButtonState::Released;
    assert_eq!(
        events,
        vec![
            button(Button3dsType::A, pressed),
            button(Button3dsType::ZR, pressed),
            button(Button3dsType::Start, released),
            button(Button3dsType::CPadRight, released),
            button(Button3dsType::CPadLeft, pressed),
            button(Button3dsType::CPadDown, released),
            button(Button3dsType::CPadUp, pressed),
            axis(Axis3dsType::CPadX, 0x1111),
            axis(Axis3dsType::CPadY, 0x2222),
            button(Button3dsType::CStickDown, released),
            button(Button3dsType::CStickUp, released),
            button(Button3dsType::CStickLeft, released),
            button(Button3dsType::CStickRight, released),
            axis(Axis3dsType::CStickX, 0),
            axis(Axis3dsType::CStickY, 0),
            axis(Axis3dsType::Volume, 0x5555),
        ]
    );
}

#[test]
fn a_stick_on_an_axis_counts_as_right_and_up() {
    let readings = AxisReadings { circle_pad: (1, 2), c_stick: (3, 4), volume: None };
    let events = ctru_event_system(&vec![], &vec![], (0, -100), (100, 0), &readings);
    let pressed = ButtonState::Pressed;
    let released = ButtonState::Released;
    assert_eq!(
        events,
        vec![
            button(Button3dsType::CPadLeft, released),
            button(Button3dsType::CPadRight, pressed),
            button(Button3dsType::CPadUp, released),
            button(Button3dsType::CPadDown, pressed),
            axis(Axis3dsType::CPadX, 1),
            axis(Axis3dsType::CPadY, 2),
            button(Button3dsType::CStickLeft, released),
            button(Button3dsType::CStickRight, pressed),
            button(Button3dsType::CStickDown, released),
            button(Button3dsType::CStickUp, pressed),
            axis(Axis3dsType::CStickX, 3),
            axis(Axis3dsType::CStickY, 4),
        ]
    );
}

#[test]
fn events_are_parted_in_their_order() {
    let mut input: Input<Button3ds> = Input::default();
    input.press(Button3ds::new(Button3dsType::A));
    assert!(input.just_pressed(Button3ds::new(Button3dsType::A)));
    let events = vec![
        axis(Axis3dsType::CPadX, 1),
        button(Button3dsType::B, ButtonState::Pressed),
        axis(Axis3dsType::CPadY, 2),
        button(Button3dsType::B, ButtonState::Released),
    ];
    let (buttons, axes) = event_system_3ds(&events, &mut input);
    assert_eq!(
        buttons,
        vec![
            CtruButtonChangedEvent::new(Button3dsType::B, ButtonState::Pressed),
            CtruButtonChangedEvent::new(Button3dsType::B, ButtonState::Released),
        ]
    );
    assert_eq!(
        axes,
        vec![
            Axis3dsChangedEvent::new(Axis3dsType::CPadX, 1),
            Axis3dsChangedEvent::new(Axis3dsType::CPadY, 2),
        ]
    );
    // the frame has begun: what was just pressed is held, no more
    assert!(input.pressed(Button3ds::new(Button3dsType::A)));
    assert!(!input.just_pressed(Button3ds::new(Button3dsType::A)));
    assert!(!input.pressed(Button3ds::new(Button3dsType::B)));
}

#[test]
fn only_changes_of_held_buttons_are_reported() {
    let mut input: Input<Button3ds> = Input::default();
    input.press(Button3ds::new(Button3dsType::X));
    let press = |b| CtruButtonChangedEvent::new(b, ButtonState::Pressed);
    let release = |b| CtruButtonChangedEvent::new(b, ButtonState::Released);
    let changes = button_3ds_event_system(
        &vec![
            press(Button3dsType::A),
            press(Button3dsType::A),
            press(Button3dsType::X),
            release(Button3dsType::Y),
            release(Button3dsType::X),
            release(Button3dsType::A),
            press(Button3dsType::A),
            press(Button3dsType::L),
        ],
        &mut input,
    );
    assert_eq!(
        changes,
        vec![
            Button3dsChangedEvent::new(Button3dsType::A, ButtonState::Pressed),
            Button3dsChangedEvent::new(Button3dsType::X, ButtonState::Released),
            Button3dsChangedEvent::new(Button3dsType::A, ButtonState::Released),
            Button3dsChangedEvent::new(Button3dsType::A, ButtonState::Pressed),
            Button3dsChangedEvent::new(Button3dsType::L, ButtonState::Pressed),
        ]
    );
    assert!(input.pressed(Button3ds::new(Button3dsType::A)));
    assert!(input.pressed(Button3ds::new(Button3dsType::L)));
    assert!(!input.pressed(Button3ds::new(Button3dsType::X)));
    assert!(!input.pressed(Button3ds::new(Button3dsType::Y)));
    assert_eq!(input.get_pressed().count(), 2);
}

#[test]
fn button_state_says_whether_it_is_pressed() {
    assert!(ButtonState::Pressed.is_pressed());
    assert!(!ButtonState::Released.is_pressed());
    assert_eq!(
        Event3ds::from(CtruButtonChangedEvent::new(Button3dsType::R, ButtonState::Pressed)),
        button(Button3dsType::R, ButtonState::Pressed)
    );
    assert_eq!(
        Event3ds::from(Axis3dsChangedEvent::new(Axis3dsType::CStickY, 8)),
        axis(Axis3dsType::CStickY, 8)
    );
}
