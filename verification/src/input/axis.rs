//! The axes of the console: sticks and sliders.

use vstd::prelude::*;

verus! {

/// An axis of the console.
#[derive(Debug, Copy, Clone, PartialEq, Eq, Hash, Structural)]
pub struct Axis3ds {
    /// The type of the axis.
    pub axis_type: Axis3dsType,
}

impl Axis3ds {
    /// The axis of the type given.
    pub fn new(axis_type: Axis3dsType) -> (axis: Self)
        ensures
            axis == (Axis3ds { axis_type }),
    {
        Self { axis_type }
    }
}

/// A type of an [`Axis3ds`].
#[derive(Debug, Copy, Clone, PartialEq, Eq, Hash, Structural)]
pub enum Axis3dsType {
    /// The horizontal value of the circle pad.
    CPadX,
    /// The vertical value of the circle pad.
    CPadY,
    /// The horizontal value of the C stick.
    CStickX,
    /// The vertical value of the C stick.
    CStickY,
    /// The volume slider.
    Volume,
}

} // verus!
