//! The buttons of the console.

use vstd::prelude::*;

verus! {

pub const KEY_A: u32 = 0x0000_0001;

pub const KEY_B: u32 = 0x0000_0002;

pub const KEY_SELECT: u32 = 0x0000_0004;

pub const KEY_START: u32 = 0x0000_0008;

pub const KEY_DPAD_RIGHT: u32 = 0x0000_0010;

pub const KEY_DPAD_LEFT: u32 = 0x0000_0020;

pub const KEY_DPAD_UP: u32 = 0x0000_0040;

pub const KEY_DPAD_DOWN: u32 = 0x0000_0080;

pub const KEY_R: u32 = 0x0000_0100;

pub const KEY_L: u32 = 0x0000_0200;

pub const KEY_X: u32 = 0x0000_0400;

pub const KEY_Y: u32 = 0x0000_0800;

pub const KEY_ZL: u32 = 0x0000_4000;

pub const KEY_ZR: u32 = 0x0000_8000;

pub const KEY_TOUCH: u32 = 0x0010_0000;

pub const KEY_CSTICK_RIGHT: u32 = 0x0100_0000;

pub const KEY_CSTICK_LEFT: u32 = 0x0200_0000;

pub const KEY_CSTICK_UP: u32 = 0x0400_0000;

pub const KEY_CSTICK_DOWN: u32 = 0x0800_0000;

pub const KEY_CPAD_RIGHT: u32 = 0x1000_0000;

pub const KEY_CPAD_LEFT: u32 = 0x2000_0000;

pub const KEY_CPAD_UP: u32 = 0x4000_0000;

pub const KEY_CPAD_DOWN: u32 = 0x8000_0000;

/// Keys of the console, as the bits that the system library reports them
/// in: one bit for each key.
#[derive(Debug, Copy, Clone, PartialEq, Eq, Hash, Structural)]
pub struct KeyPad(pub u32);

/// A button of the console.
#[derive(Debug, Copy, Clone, PartialEq, Eq, Hash, Structural)]
pub struct Button3ds {
    /// The type of the button.
    pub button_type: Button3dsType,
}

impl Button3ds {
    /// The button of the type given.
    pub fn new(button_type: Button3dsType) -> (button: Self)
        ensures
            button == (Button3ds { button_type }),
    {
        Self { button_type }
    }
}

/// A type of a [`Button3ds`].
#[derive(Debug, Copy, Clone, PartialEq, Eq, Hash, Structural)]
pub enum Button3dsType {
    /// The bottom action button of the action pad.
    B,
    /// The right action button of the action pad.
    A,
    /// The upper action button of the action pad.
    Y,
    /// The left action button of the action pad.
    X,
    Select,
    Start,
    /// The right button of the directional pad.
    DPadRight,
    /// The left button of the directional pad.
    DPadLeft,
    /// The up button of the directional pad.
    DPadUp,
    /// The down button of the directional pad.
    DPadDown,
    /// The circle pad, pushed right.
    CPadRight,
    /// The circle pad, pushed left.
    CPadLeft,
    /// The circle pad, pushed up.
    CPadUp,
    /// The circle pad, pushed down.
    CPadDown,
    /// The C stick, pushed right.
    CStickRight,
    /// The C stick, pushed left.
    CStickLeft,
    /// The C stick, pushed up.
    CStickUp,
    /// The C stick, pushed down.
    CStickDown,
    /// The ZL button.
    ZL,
    /// The ZR button.
    ZR,
    /// The L button.
    L,
    /// The R button.
    R,
}

impl Button3dsType {
    /// The button that `key` is: the button of its bit, if it is a single
    /// key and that key is a button.
    pub open spec fn of_key(key: KeyPad) -> Option<Button3dsType> {
        if key.0 == KEY_B {
            Some(Button3dsType::B)
        } else if key.0 == KEY_A {
            Some(Button3dsType::A)
        } else if key.0 == KEY_Y {
            Some(Button3dsType::Y)
        } else if key.0 == KEY_X {
            Some(Button3dsType::X)
        } else if key.0 == KEY_SELECT {
            Some(Button3dsType::Select)
        } else if key.0 == KEY_START {
            Some(Button3dsType::Start)
        } else if key.0 == KEY_DPAD_RIGHT {
            Some(Button3dsType::DPadRight)
        } else if key.0 == KEY_DPAD_LEFT {
            Some(Button3dsType::DPadLeft)
        } else if key.0 == KEY_DPAD_UP {
            Some(Button3dsType::DPadUp)
        } else if key.0 == KEY_DPAD_DOWN {
            Some(Button3dsType::DPadDown)
        } else if key.0 == KEY_CPAD_RIGHT {
            Some(Button3dsType::CPadRight)
        } else if key.0 == KEY_CPAD_LEFT {
            Some(Button3dsType::CPadLeft)
        } else if key.0 == KEY_CPAD_UP {
            Some(Button3dsType::CPadUp)
        } else if key.0 == KEY_CPAD_DOWN {
            Some(Button3dsType::CPadDown)
        } else if key.0 == KEY_CSTICK_RIGHT {
            Some(Button3dsType::CStickRight)
        } else if key.0 == KEY_CSTICK_LEFT {
            Some(Button3dsType::CStickLeft)
        } else if key.0 == KEY_CSTICK_UP {
            Some(Button3dsType::CStickUp)
        } else if key.0 == KEY_CSTICK_DOWN {
            Some(Button3dsType::CStickDown)
        } else if key.0 == KEY_ZL {
            Some(Button3dsType::ZL)
        } else if key.0 == KEY_ZR {
            Some(Button3dsType::ZR)
        } else if key.0 == KEY_L {
            Some(Button3dsType::L)
        } else if key.0 == KEY_R {
            Some(Button3dsType::R)
        } else {
            None
        }
    }

    /// The key of this button.
    pub open spec fn key(self) -> KeyPad {
        KeyPad(
            match self {
                Button3dsType::B => KEY_B,
                Button3dsType::A => KEY_A,
                Button3dsType::Y => KEY_Y,
                Button3dsType::X => KEY_X,
                Button3dsType::Select => KEY_SELECT,
                Button3dsType::Start => KEY_START,
                Button3dsType::DPadRight => KEY_DPAD_RIGHT,
                Button3dsType::DPadLeft => KEY_DPAD_LEFT,
                Button3dsType::DPadUp => KEY_DPAD_UP,
                Button3dsType::DPadDown => KEY_DPAD_DOWN,
                Button3dsType::CPadRight => KEY_CPAD_RIGHT,
                Button3dsType::CPadLeft => KEY_CPAD_LEFT,
                Button3dsType::CPadUp => KEY_CPAD_UP,
                Button3dsType::CPadDown => KEY_CPAD_DOWN,
                Button3dsType::CStickRight => KEY_CSTICK_RIGHT,
                Button3dsType::CStickLeft => KEY_CSTICK_LEFT,
                Button3dsType::CStickUp => KEY_CSTICK_UP,
                Button3dsType::CStickDown => KEY_CSTICK_DOWN,
                Button3dsType::ZL => KEY_ZL,
                Button3dsType::ZR => KEY_ZR,
                Button3dsType::L => KEY_L,
                Button3dsType::R => KEY_R,
            },
        )
    }

    /// The button that `key` is. A key that is no button, such as the touch
    /// screen, and several keys at once are refused.
    pub fn try_from(key: KeyPad) -> (r: Result<Button3dsType, ()>)
        ensures
            r == (match Button3dsType::of_key(key) {
                Some(button_type) => Ok(button_type),
                None => Err(()),
            }),
    {
        let bits: u32 = key.0;
        if bits == KEY_B {
            Ok(Button3dsType::B)
        } else if bits == KEY_A {
            Ok(Button3dsType::A)
        } else if bits == KEY_Y {
            Ok(Button3dsType::Y)
        } else if bits == KEY_X {
            Ok(Button3dsType::X)
        } else if bits == KEY_SELECT {
            Ok(Button3dsType::Select)
        } else if bits == KEY_START {
            Ok(Button3dsType::Start)
        } else if bits == KEY_DPAD_RIGHT {
            Ok(Button3dsType::DPadRight)
        } else if bits == KEY_DPAD_LEFT {
            Ok(Button3dsType::DPadLeft)
        } else if bits == KEY_DPAD_UP {
            Ok(Button3dsType::DPadUp)
        } else if bits == KEY_DPAD_DOWN {
            Ok(Button3dsType::DPadDown)
        } else if bits == KEY_CPAD_RIGHT {
            Ok(Button3dsType::CPadRight)
        } else if bits == KEY_CPAD_LEFT {
            Ok(Button3dsType::CPadLeft)
        } else if bits == KEY_CPAD_UP {
            Ok(Button3dsType::CPadUp)
        } else if bits == KEY_CPAD_DOWN {
            Ok(Button3dsType::CPadDown)
        } else if bits == KEY_CSTICK_RIGHT {
            Ok(Button3dsType::CStickRight)
        } else if bits == KEY_CSTICK_LEFT {
            Ok(Button3dsType::CStickLeft)
        } else if bits == KEY_CSTICK_UP {
            Ok(Button3dsType::CStickUp)
        } else if bits == KEY_CSTICK_DOWN {
            Ok(Button3dsType::CStickDown)
        } else if bits == KEY_ZL {
            Ok(Button3dsType::ZL)
        } else if bits == KEY_ZR {
            Ok(Button3dsType::ZR)
        } else if bits == KEY_L {
            Ok(Button3dsType::L)
        } else if bits == KEY_R {
            Ok(Button3dsType::R)
        } else {
            Err(())
        }
    }
}

/// Every button is the button of its own key.
pub proof fn lemma_key_of_button(button_type: Button3dsType)
    ensures
        Button3dsType::of_key(button_type.key()) == Some(button_type),
{
}

/// A key is the key of at most one button.
pub proof fn lemma_button_of_key(key: KeyPad, button_type: Button3dsType)
    requires
        Button3dsType::of_key(key) == Some(button_type),
    ensures
        button_type.key() == key,
{
}

} // verus!
