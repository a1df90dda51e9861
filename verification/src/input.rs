//! The buttons and sticks of the console, turned into events.

pub mod axis;
pub mod button;
pub mod event;

use vstd::prelude::*;
use crate::input::axis::Axis3dsType;
use crate::input::button::{Button3dsType, KeyPad};
use crate::input::event::{Axis3dsChangedEvent, ButtonState, CtruButtonChangedEvent, Event3ds};

verus! {

/// How far from its rest a stick has to be before it counts as moved.
pub const DEADZONE_BOUND: i32 = 20;

/// How far from its rest a stick is when it counts as pushed all the way.
pub const LIVEZONE_BOUND: i32 = 150;

/// The two sticks.
#[derive(Debug, Clone, Copy, PartialEq, Eq, Structural)]
pub enum Stick {
    CPad,
    CStick,
}

/// The four directions of a stick.
#[derive(Debug, Clone, Copy, PartialEq, Eq, Structural)]
pub enum Direction {
    Right,
    Left,
    Up,
    Down,
}

/// The button that stands for pushing `stick` towards `direction`.
pub open spec fn stick_button(stick: Stick, direction: Direction) -> Button3dsType {
    match (stick, direction) {
        (Stick::CPad, Direction::Right) => Button3dsType::CPadRight,
        (Stick::CPad, Direction::Left) => Button3dsType::CPadLeft,
        (Stick::CPad, Direction::Up) => Button3dsType::CPadUp,
        (Stick::CPad, Direction::Down) => Button3dsType::CPadDown,
        (Stick::CStick, Direction::Right) => Button3dsType::CStickRight,
        (Stick::CStick, Direction::Left) => Button3dsType::CStickLeft,
        (Stick::CStick, Direction::Up) => Button3dsType::CStickUp,
        (Stick::CStick, Direction::Down) => Button3dsType::CStickDown,
    }
}

/// Whether a stick at (`x`, `y`) is so close to its rest that it counts as
/// not moved: closer than [`DEADZONE_BOUND`].
pub open spec fn in_deadzone(x: int, y: int) -> bool {
    x * x + y * y < DEADZONE_BOUND * DEADZONE_BOUND
}

/// The event that the button for `direction` of `stick` is now `state`.
pub open spec fn stick_event(stick: Stick, direction: Direction, state: ButtonState) -> Event3ds {
    Event3ds::Button(CtruButtonChangedEvent { button_type: stick_button(stick, direction), state })
}

/// The button events of `stick` at (`x`, `y`).
///
/// At rest all four buttons are released. Else, on each of the two axes, the
/// button of the direction that the stick is away from is released and the
/// one that it is pushed towards is pressed; a stick that is on an axis
/// counts as pushed right, or up.
pub open spec fn stick_events(stick: Stick, x: int, y: int) -> Seq<Event3ds> {
    if in_deadzone(x, y) {
        seq![
            stick_event(stick, Direction::Down, ButtonState::Released),
            stick_event(stick, Direction::Up, ButtonState::Released),
            stick_event(stick, Direction::Left, ButtonState::Released),
            stick_event(stick, Direction::Right, ButtonState::Released),
        ]
    } else {
        (if x < 0 {
            seq![
                stick_event(stick, Direction::Right, ButtonState::Released),
                stick_event(stick, Direction::Left, ButtonState::Pressed),
            ]
        } else {
            seq![
                stick_event(stick, Direction::Left, ButtonState::Released),
                stick_event(stick, Direction::Right, ButtonState::Pressed),
            ]
        }) + (if y < 0 {
            seq![
                stick_event(stick, Direction::Up, ButtonState::Released),
                stick_event(stick, Direction::Down, ButtonState::Pressed),
            ]
        } else {
            seq![
                stick_event(stick, Direction::Down, ButtonState::Released),
                stick_event(stick, Direction::Up, ButtonState::Pressed),
            ]
        })
    }
}

/// The events of the keys `keys`, which all went to `state`: one for every
/// key that is a button, in the order of the keys.
pub open spec fn key_events(keys: Seq<KeyPad>, state: ButtonState) -> Seq<Event3ds>
    decreases keys.len(),
{
    if keys.len() == 0 {
        Seq::empty()
    } else {
        key_events(keys.drop_last(), state) + (match Button3dsType::of_key(keys.last()) {
            Some(button_type) => seq![
                Event3ds::Button(CtruButtonChangedEvent { button_type, state }),
            ],
            None => Seq::empty(),
        })
    }
}

/// How far the sticks and the sliders are pushed, as numbers between -1 and
/// 1, each kept as the bit pattern of a single precision number.
#[derive(Debug, Clone, Copy, PartialEq, Eq)]
pub struct AxisReadings {
    /// The circle pad, left to right and bottom to top.
    pub circle_pad: (u32, u32),
    /// The C stick, left to right and bottom to top.
    pub c_stick: (u32, u32),
    /// The volume slider, if it is above its lowest place.
    pub volume: Option<u32>,
}

/// The two axis events of `stick` at (`x`, `y`): at rest both axes are 0,
/// else they are what was read.
pub open spec fn axis_events(stick: Stick, x: int, y: int, reading: (u32, u32)) -> Seq<Event3ds> {
    let (horizontal, vertical) = match stick {
        Stick::CPad => (Axis3dsType::CPadX, Axis3dsType::CPadY),
        Stick::CStick => (Axis3dsType::CStickX, Axis3dsType::CStickY),
    };
    let value = if in_deadzone(x, y) {
        (0u32, 0u32)
    } else {
        reading
    };
    seq![
        Event3ds::Axis(Axis3dsChangedEvent { axis_type: horizontal, value: value.0 }),
        Event3ds::Axis(Axis3dsChangedEvent { axis_type: vertical, value: value.1 }),
    ]
}

/// The event of the volume slider, if there is one.
pub open spec fn volume_events(volume: Option<u32>) -> Seq<Event3ds> {
    match volume {
        Some(value) => seq![
            Event3ds::Axis(Axis3dsChangedEvent { axis_type: Axis3dsType::Volume, value }),
        ],
        None => Seq::empty(),
    }
}

/// The events of one scan of the controls, in their order: the keys that
/// went down, the keys that went up, the circle pad and the C stick, each
/// with its buttons before its axes, and the volume slider.
pub open spec fn scan_events(
    keys_down: Seq<KeyPad>,
    keys_up: Seq<KeyPad>,
    circle_pad: (i16, i16),
    c_stick: (i16, i16),
    axes: AxisReadings,
) -> Seq<Event3ds> {
    key_events(keys_down, ButtonState::Pressed) + key_events(keys_up, ButtonState::Released)
        + stick_events(Stick::CPad, circle_pad.0 as int, circle_pad.1 as int) + axis_events(
        Stick::CPad,
        circle_pad.0 as int,
        circle_pad.1 as int,
        axes.circle_pad,
    ) + stick_events(Stick::CStick, c_stick.0 as int, c_stick.1 as int) + axis_events(
        Stick::CStick,
        c_stick.0 as int,
        c_stick.1 as int,
        axes.c_stick,
    ) + volume_events(axes.volume)
}

/// Whether a stick at (`x`, `y`) counts as not moved.
pub fn stick_in_deadzone(x: i16, y: i16) -> (rest: bool)
    ensures
        rest == in_deadzone(x as int, y as int),
{
    let x: i32 = x as i32;
    let y: i32 = y as i32;
    assert(0 <= x * x <= 32768 * 32768) by (nonlinear_arith)
        requires
            -32768 <= x <= 32767,
    ;
    assert(0 <= y * y <= 32768 * 32768) by (nonlinear_arith)
        requires
            -32768 <= y <= 32767,
    ;
    let distance: i64 = (x as i64) * (x as i64) + (y as i64) * (y as i64);
    distance < 400
}

fn button_of(stick: Stick, direction: Direction) -> (button_type: Button3dsType)
    ensures
        button_type == stick_button(stick, direction),
{
    match (stick, direction) {
        (Stick::CPad, Direction::Right) => Button3dsType::CPadRight,
        (Stick::CPad, Direction::Left) => Button3dsType::CPadLeft,
        (Stick::CPad, Direction::Up) => Button3dsType::CPadUp,
        (Stick::CPad, Direction::Down) => Button3dsType::CPadDown,
        (Stick::CStick, Direction::Right) => Button3dsType::CStickRight,
        (Stick::CStick, Direction::Left) => Button3dsType::CStickLeft,
        (Stick::CStick, Direction::Up) => Button3dsType::CStickUp,
        (Stick::CStick, Direction::Down) => Button3dsType::CStickDown,
    }
}

fn send(events: &mut Vec<Event3ds>, stick: Stick, direction: Direction, state: ButtonState)
    ensures
        final(events)@ == old(events)@.push(stick_event(stick, direction, state)),
{
    events.push(
        Event3ds::from(CtruButtonChangedEvent::new(button_of(stick, direction), state)),
    );
}

/// Appends the button events and the axis events of `stick`.
fn scan_stick(events: &mut Vec<Event3ds>, stick: Stick, at: (i16, i16), reading: (u32, u32))
    ensures
        final(events)@ == old(events)@ + stick_events(stick, at.0 as int, at.1 as int)
            + axis_events(stick, at.0 as int, at.1 as int, reading),
{
    let ghost start = events@;
    let rest = stick_in_deadzone(at.0, at.1);
    if rest {
        send(events, stick, Direction::Down, ButtonState::Released);
        send(events, stick, Direction::Up, ButtonState::Released);
        send(events, stick, Direction::Left, ButtonState::Released);
        send(events, stick, Direction::Right, ButtonState::Released);
    } else {
        if at.0 < 0 {
            send(events, stick, Direction::Right, ButtonState::Released);
            send(events, stick, Direction::Left, ButtonState::Pressed);
        } else {
            send(events, stick, Direction::Left, ButtonState::Released);
            send(events, stick, Direction::Right, ButtonState::Pressed);
        }
        if at.1 < 0 {
            send(events, stick, Direction::Up, ButtonState::Released);
            send(events, stick, Direction::Down, ButtonState::Pressed);
        } else {
            send(events, stick, Direction::Down, ButtonState::Released);
            send(events, stick, Direction::Up, ButtonState::Pressed);
        }
    }
    assert(events@ =~= start + stick_events(stick, at.0 as int, at.1 as int));
    let (horizontal, vertical) = match stick {
        Stick::CPad => (Axis3dsType::CPadX, Axis3dsType::CPadY),
        Stick::CStick => (Axis3dsType::CStickX, Axis3dsType::CStickY),
    };
    let value: (u32, u32) = if rest {
        (0, 0)
    } else {
        reading
    };
    events.push(Event3ds::from(Axis3dsChangedEvent::new(horizontal, value.0)));
    events.push(Event3ds::from(Axis3dsChangedEvent::new(vertical, value.1)));
    assert(events@ =~= start + stick_events(stick, at.0 as int, at.1 as int) + axis_events(
        stick,
        at.0 as int,
        at.1 as int,
        reading,
    ));
}

/// Appends the events of the keys `keys`, which all went to `state`.
fn scan_keys(events: &mut Vec<Event3ds>, keys: &Vec<KeyPad>, state: ButtonState)
    ensures
        final(events)@ == old(events)@ + key_events(keys@, state),
{
    let ghost start = events@;
    let mut i: usize = 0;
    assert(keys@.take(0) =~= Seq::empty());
    assert(start + Seq::<Event3ds>::empty() =~= start);
    while i < keys.len()
        invariant
            i <= keys.len(),
            events@ == start + key_events(keys@.take(i as int), state),
        decreases keys.len() - i,
    {
        let ghost upto = keys@.take(i + 1);
        assert(upto.drop_last() =~= keys@.take(i as int));
        assert(upto.last() == keys@[i as int]);
        match Button3dsType::try_from(keys[i]) {
            Ok(button_type) => {
                events.push(Event3ds::from(CtruButtonChangedEvent::new(button_type, state)));
                assert(events@ =~= start + key_events(upto, state));
            },
            Err(_) => {
                assert(events@ =~= start + key_events(upto, state));
            },
        }
        i += 1;
    }
    assert(keys@.take(keys@.len() as int) =~= keys@);
}

/// Turns one scan of the controls into events.
///
/// `keys_down` and `keys_up` are the keys that went down and up since the
/// scan before, `circle_pad` and `c_stick` where the sticks stand, `axes` how
/// far sticks and sliders are pushed.
pub fn ctru_event_system(
    keys_down: &Vec<KeyPad>,
    keys_up: &Vec<KeyPad>,
    circle_pad: (i16, i16),
    c_stick: (i16, i16),
    axes: &AxisReadings,
) -> (events: Vec<Event3ds>)
    ensures
        events@ == scan_events(keys_down@, keys_up@, circle_pad, c_stick, *axes),
{
    let mut events: Vec<Event3ds> = Vec::new();
    scan_keys(&mut events, keys_down, ButtonState::Pressed);
    scan_keys(&mut events, keys_up, ButtonState::Released);
    scan_stick(&mut events, Stick::CPad, circle_pad, axes.circle_pad);
    scan_stick(&mut events, Stick::CStick, c_stick, axes.c_stick);
    match axes.volume {
        Some(value) => {
            events.push(Event3ds::from(Axis3dsChangedEvent::new(Axis3dsType::Volume, value)));
        },
        None => {},
    }
    assert(events@ =~= scan_events(keys_down@, keys_up@, circle_pad, c_stick, *axes));
    events
}

} // verus!
