//! The events of the controls, and what they do to the buttons that the host
//! engine holds as pressed.

use vstd::prelude::*;
use bevy::input::Input;
use std::hash::Hash;
use crate::input::axis::Axis3dsType;
use crate::input::button::{Button3ds, Button3dsType};

verus! {

/// Whether a button is down or up.
#[derive(Debug, Copy, Clone, PartialEq, Eq, Hash, Structural)]
pub enum ButtonState {
    /// The button is pressed.
    Pressed,
    /// The button is not pressed.
    Released,
}

impl ButtonState {
    /// Is this button pressed?
    pub fn is_pressed(&self) -> (pressed: bool)
        ensures
            pressed == (*self == ButtonState::Pressed),
    {
        match self {
            ButtonState::Pressed => true,
            ButtonState::Released => false,
        }
    }
}

/// The event that the value of an axis has changed.
#[derive(Debug, Copy, Clone, PartialEq, Eq, Structural)]
pub struct Axis3dsChangedEvent {
    /// The type of the axis.
    pub axis_type: Axis3dsType,
    /// The value of the axis: the bit pattern of a single precision number.
    pub value: u32,
}

impl Axis3dsChangedEvent {
    pub fn new(axis_type: Axis3dsType, value: u32) -> (event: Self)
        ensures
            event == (Axis3dsChangedEvent { axis_type, value }),
    {
        Self { axis_type, value }
    }
}

/// The event that a button, as the host engine holds it, has changed.
#[derive(Debug, Copy, Clone, PartialEq, Eq, Structural)]
pub struct Button3dsChangedEvent {
    /// The button of the event.
    pub button_type: Button3dsType,
    /// The state that the button went to.
    pub state: ButtonState,
}

impl Button3dsChangedEvent {
    pub fn new(button_type: Button3dsType, state: ButtonState) -> (event: Self)
        ensures
            event == (Button3dsChangedEvent { button_type, state }),
    {
        Self { button_type, state }
    }
}

/// The event that a button, as the console reports it, has changed.
#[derive(Debug, Copy, Clone, PartialEq, Eq, Structural)]
pub struct CtruButtonChangedEvent {
    /// The button of the event.
    pub button_type: Button3dsType,
    /// The state that the button went to.
    pub state: ButtonState,
}

impl CtruButtonChangedEvent {
    pub fn new(button_type: Button3dsType, state: ButtonState) -> (event: Self)
        ensures
            event == (CtruButtonChangedEvent { button_type, state }),
    {
        Self { button_type, state }
    }
}

/// An event of the controls. Buttons and axes share this one type where the
/// order of their events matters.
#[derive(Debug, Copy, Clone, PartialEq, Eq, Structural)]
pub enum Event3ds {
    /// A button has changed.
    Button(CtruButtonChangedEvent),
    /// An axis has changed.
    Axis(Axis3dsChangedEvent),
}

impl From<CtruButtonChangedEvent> for Event3ds {
    fn from(value: CtruButtonChangedEvent) -> (event: Self) {
        Event3ds::Button(value)
    }
}

impl vstd::std_specs::convert::FromSpecImpl<CtruButtonChangedEvent> for Event3ds {
    open spec fn obeys_from_spec() -> bool {
        true
    }

    open spec fn from_spec(value: CtruButtonChangedEvent) -> Self {
        Event3ds::Button(value)
    }
}

impl From<Axis3dsChangedEvent> for Event3ds {
    fn from(value: Axis3dsChangedEvent) -> (event: Self) {
        Event3ds::Axis(value)
    }
}

impl vstd::std_specs::convert::FromSpecImpl<Axis3dsChangedEvent> for Event3ds {
    open spec fn obeys_from_spec() -> bool {
        true
    }

    open spec fn from_spec(value: Axis3dsChangedEvent) -> Self {
        Event3ds::Axis(value)
    }
}

#[verifier::external_type_specification]
#[verifier::external_body]
#[verifier::reject_recursive_types(T)]
pub struct ExInput<T: Copy + Eq + Hash + Send + Sync + 'static>(Input<T>);

/// The buttons that `input` holds as pressed.
pub uninterp spec fn held(input: Input<Button3ds>) -> Set<Button3ds>;

/// `Input::pressed` of the host engine: whether `button` is among the
/// buttons that `input` holds as pressed.
#[verifier::external_body]
fn pressed(input: &Input<Button3ds>, button: Button3ds) -> (is_held: bool)
    ensures
        is_held == held(*input).contains(button),
{
    input.pressed(button)
}

/// `Input::press` of the host engine: `button` joins the buttons that
/// `input` holds as pressed.
#[verifier::external_body]
fn press(input: &mut Input<Button3ds>, button: Button3ds)
    ensures
        held(*final(input)) == held(*old(input)).insert(button),
{
    input.press(button)
}

/// `Input::release` of the host engine: `button` leaves the buttons that
/// `input` holds as pressed.
#[verifier::external_body]
fn release(input: &mut Input<Button3ds>, button: Button3ds)
    ensures
        held(*final(input)) == held(*old(input)).remove(button),
{
    input.release(button)
}

/// `Input::clear` of the host engine: what `input` remembers of the frame
/// before is forgotten; the buttons that it holds as pressed stay.
#[verifier::external_body]
fn clear(input: &mut Input<Button3ds>)
    ensures
        held(*final(input)) == held(*old(input)),
{
    input.clear()
}

/// The button events among `events`, in their order.
pub open spec fn button_events(events: Seq<Event3ds>) -> Seq<CtruButtonChangedEvent>
    decreases events.len(),
{
    if events.len() == 0 {
        Seq::empty()
    } else {
        button_events(events.drop_last()) + (match events.last() {
            Event3ds::Button(event) => seq![event],
            Event3ds::Axis(_) => Seq::empty(),
        })
    }
}

/// The axis events among `events`, in their order.
pub open spec fn axis_events(events: Seq<Event3ds>) -> Seq<Axis3dsChangedEvent>
    decreases events.len(),
{
    if events.len() == 0 {
        Seq::empty()
    } else {
        axis_events(events.drop_last()) + (match events.last() {
            Event3ds::Button(_) => Seq::empty(),
            Event3ds::Axis(event) => seq![event],
        })
    }
}

/// Parts the events of a frame into those of the buttons and those of the
/// axes, and begins the frame for `button_input`.
pub fn event_system_3ds(events_3ds: &Vec<Event3ds>, button_input: &mut Input<Button3ds>) -> (parts:
    (Vec<CtruButtonChangedEvent>, Vec<Axis3dsChangedEvent>))
    ensures
        parts.0@ == button_events(events_3ds@),
        parts.1@ == axis_events(events_3ds@),
        held(*final(button_input)) == held(*old(button_input)),
{
    clear(button_input);
    let mut buttons: Vec<CtruButtonChangedEvent> = Vec::new();
    let mut axes: Vec<Axis3dsChangedEvent> = Vec::new();
    let mut i: usize = 0;
    assert(events_3ds@.take(0) =~= Seq::empty());
    while i < events_3ds.len()
        invariant
            i <= events_3ds.len(),
            buttons@ == button_events(events_3ds@.take(i as int)),
            axes@ == axis_events(events_3ds@.take(i as int)),
        decreases events_3ds.len() - i,
    {
        let ghost upto = events_3ds@.take(i + 1);
        assert(upto.drop_last() =~= events_3ds@.take(i as int));
        assert(upto.last() == events_3ds@[i as int]);
        match events_3ds[i] {
            Event3ds::Button(event) => {
                buttons.push(event);
                assert(axes@ + Seq::<Axis3dsChangedEvent>::empty() =~= axes@);
            },
            Event3ds::Axis(event) => {
                axes.push(event);
                assert(buttons@ + Seq::<CtruButtonChangedEvent>::empty() =~= buttons@);
            },
        }
        i += 1;
    }
    assert(events_3ds@.take(events_3ds@.len() as int) =~= events_3ds@);
    (buttons, axes)
}

/// The buttons that are held after `event`, if `before` were held before.
pub open spec fn held_after(before: Set<Button3ds>, event: CtruButtonChangedEvent) -> Set<
    Button3ds,
> {
    let button = Button3ds { button_type: event.button_type };
    if event.state == ButtonState::Pressed {
        before.insert(button)
    } else {
        before.remove(button)
    }
}

/// What `event` changes, if `before` were held before: a press of a button
/// that was not held and a release of one that was are changes, anything
/// else is none.
pub open spec fn change_of(before: Set<Button3ds>, event: CtruButtonChangedEvent) -> Seq<
    Button3dsChangedEvent,
> {
    let button = Button3ds { button_type: event.button_type };
    if (event.state == ButtonState::Pressed) != before.contains(button) {
        seq![Button3dsChangedEvent { button_type: event.button_type, state: event.state }]
    } else {
        Seq::empty()
    }
}

/// The buttons that are held after `events`, one after the other.
pub open spec fn held_after_all(before: Set<Button3ds>, events: Seq<CtruButtonChangedEvent>) -> Set<
    Button3ds,
>
    decreases events.len(),
{
    if events.len() == 0 {
        before
    } else {
        held_after(held_after_all(before, events.drop_last()), events.last())
    }
}

/// What `events` change, one after the other.
pub open spec fn changes_of(before: Set<Button3ds>, events: Seq<CtruButtonChangedEvent>) -> Seq<
    Button3dsChangedEvent,
>
    decreases events.len(),
{
    if events.len() == 0 {
        Seq::empty()
    } else {
        changes_of(before, events.drop_last()) + change_of(
            held_after_all(before, events.drop_last()),
            events.last(),
        )
    }
}

/// Brings the buttons that `button_input` holds as pressed up to date with
/// the events of the frame, and gives the changes.
pub fn button_3ds_event_system(
    button_changed_events: &Vec<CtruButtonChangedEvent>,
    button_input: &mut Input<Button3ds>,
) -> (button_input_events: Vec<Button3dsChangedEvent>)
    ensures
        held(*final(button_input)) == held_after_all(
            held(*old(button_input)),
            button_changed_events@,
        ),
        button_input_events@ == changes_of(held(*old(button_input)), button_changed_events@),
{
    let ghost start = held(*button_input);
    let mut changes: Vec<Button3dsChangedEvent> = Vec::new();
    let mut i: usize = 0;
    assert(button_changed_events@.take(0) =~= Seq::empty());
    while i < button_changed_events.len()
        invariant
            i <= button_changed_events.len(),
            held(*button_input) == held_after_all(start, button_changed_events@.take(i as int)),
            changes@ == changes_of(start, button_changed_events@.take(i as int)),
        decreases button_changed_events.len() - i,
    {
        let ghost upto = button_changed_events@.take(i + 1);
        assert(upto.drop_last() =~= button_changed_events@.take(i as int));
        assert(upto.last() == button_changed_events@[i as int]);
        let event = button_changed_events[i];
        let button = Button3ds::new(event.button_type);
        let was_held = pressed(button_input, button);
        if event.state.is_pressed() {
            if !was_held {
                changes.push(
                    Button3dsChangedEvent {
                        button_type: button.button_type,
                        state: ButtonState::Pressed,
                    },
                );
            }
            press(button_input, button);
        } else {
            if was_held {
                changes.push(
                    Button3dsChangedEvent {
                        button_type: button.button_type,
                        state: ButtonState::Released,
                    },
                );
            }
            release(button_input, button);
        }
        assert(changes@ =~= changes_of(start, upto));
        i += 1;
    }
    assert(button_changed_events@.take(button_changed_events@.len() as int)
        =~= button_changed_events@);
    changes
}

} // verus!
