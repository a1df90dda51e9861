//! What can go wrong while a frame is put together.

use vstd::prelude::*;

verus! {

/// A failure reported by the graphics driver, or one that the driver would
/// report if it were asked.
#[derive(Debug, Clone, Copy, PartialEq, Eq, Structural)]
pub enum Citro3dError {
    /// The driver could not be brought up.
    FailedToInitialize,
    /// A result code of the driver that has no name here.
    System(i32),
    /// The render target cannot be drawn to.
    InvalidRenderTarget,
    /// An attribute layout has no room for another attribute, or a register
    /// does not exist.
    TooManyAttributes,
    /// A count or a size is outside of what the hardware takes.
    InvalidSize,
    /// The memory handed to the GPU is not in the linear pool.
    InvalidMemoryLocation,
    /// The buffer table of a draw has no room for another buffer.
    TooManyBuffers,
    /// What was asked for does not exist.
    NotFound,
}

/// What the driver's answer to the registration of a buffer means: the
/// place of the buffer in the buffer table, or why it has none.
pub open spec fn buffer_place(res: i32) -> Result<usize, Citro3dError> {
    if res <= -3 {
        Err(Citro3dError::System(res))
    } else if res == -2 {
        Err(Citro3dError::InvalidMemoryLocation)
    } else if res == -1 {
        Err(Citro3dError::TooManyBuffers)
    } else {
        Ok(res as usize)
    }
}

impl Citro3dError {
    /// Reads the driver's answer to the registration of a buffer.
    pub fn from_buffer_result(res: i32) -> (r: Result<usize, Citro3dError>)
        ensures
            r == buffer_place(res),
    {
        if res <= -3 {
            Err(Citro3dError::System(res))
        } else if res == -2 {
            Err(Citro3dError::InvalidMemoryLocation)
        } else if res == -1 {
            Err(Citro3dError::TooManyBuffers)
        } else {
            Ok(res as usize)
        }
    }
}

/// Why a step of a render pass was refused.
#[derive(Debug, Clone, Copy, PartialEq, Eq, Structural)]
pub enum RenderError {
    Generic,
    /// The shader has no entry point with this index.
    InvalidEntryPoint { index: usize },
    /// A result code of the system library.
    Ctru(i32),
    /// A failure of the graphics driver.
    Citro3d(Citro3dError),
    /// A frame was asked for while another one was still open.
    FrameAlreadyOpen,
    /// The frame given does not belong to the frame that the device has open.
    FrameNotOpen,
    /// The device has counted as many frames as it can.
    FrameCounterExhausted,
    /// A draw was asked for before any render target was selected.
    NoRenderTarget,
    /// A draw was asked for before any shader was bound.
    NoShaderBound,
    /// A draw was asked for before an attribute layout was set.
    NoAttributeLayout,
    /// The handle refers to a buffer or a registry that is gone, was reset
    /// or belongs to another frame.
    StaleHandle,
    /// The attribute layout of the pass is not the one that the vertex data
    /// was registered with.
    AttributeMismatch,
    /// The render target does not exist in this frame.
    InvalidRenderTarget { target: usize },
    /// There is no texture unit with this number.
    InvalidTextureUnit { unit: i32 },
    /// The linear pool cannot hold what was asked for.
    OutOfLinearMemory,
}

} // verus!
