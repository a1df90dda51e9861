//! What the driver is asked to do.
//!
//! A frame is put together as a list of commands. Whoever owns the hardware
//! carries the list out, one command after the other.

use vstd::prelude::*;
use crate::material::{FresnelSelector, LutBinding, MaterialColors};
use crate::math::{Mat4, Matrix4, Vec3, Vec4};
use crate::pipeline::AttrInfo;
use crate::shader::{Entrypoint, Index};
use crate::texenv::TexEnv;

verus! {

/// How the vertices of a draw make up shapes.
#[derive(Debug, Clone, Copy, PartialEq, Eq, Structural)]
pub enum Primitive {
    Triangles,
    TriangleStrip,
    TriangleFan,
    GeometryPrim,
}

/// How the host engine says that the vertices of a mesh make up shapes.
#[derive(Debug, Clone, Copy, PartialEq, Eq, Structural)]
pub enum PrimitiveTopology {
    PointList,
    LineList,
    LineStrip,
    TriangleList,
    TriangleStrip,
}

/// The primitive that the GPU draws a mesh of the given topology with, if it
/// can draw it.
pub fn bevy_topology_to_citro(topology: PrimitiveTopology) -> (prim: Option<Primitive>)
    ensures
        prim == match topology {
            PrimitiveTopology::TriangleList => Some(Primitive::Triangles),
            PrimitiveTopology::TriangleStrip => Some(Primitive::TriangleStrip),
            _ => None::<Primitive>,
        },
{
    match topology {
        PrimitiveTopology::TriangleList => Some(Primitive::Triangles),
        PrimitiveTopology::TriangleStrip => Some(Primitive::TriangleStrip),
        _ => None,
    }
}

/// A value for a uniform of the vertex shader.
#[derive(Debug, Clone, Copy, PartialEq, Eq, Structural)]
pub enum Uniform {
    Vector(Vec4),
    Matrix(Matrix4),
}

/// The buffer table of a registry of vertex buffers, as the driver knows
/// it: the number of the registry in its frame, and how often the registry
/// was reset.
#[derive(Debug, Clone, Copy, PartialEq, Eq, Structural)]
pub struct BufferTable {
    pub registry: u64,
    pub generation: u64,
}

/// One thing that the driver is asked to do.
#[derive(Debug, Clone, Copy, PartialEq, Eq, Structural)]
pub enum GpuCommand {
    /// Begin a hardware frame, once the work of the frame before is done.
    FrameBegin,
    /// End the hardware frame and hand it to the GPU.
    FrameEnd,
    /// Fill a render target with one colour and one depth.
    ClearTarget { target: usize, colour: u32, depth: u32 },
    /// Send what is drawn from now on to this render target.
    SelectTarget { target: usize },
    /// Make a program of this entry point and use it from now on.
    BindProgram { entry: Entrypoint },
    /// Read vertices by this layout from now on.
    SetAttrInfo { layout: AttrInfo },
    /// Set one stage of the texture combiner.
    ConfigureTexEnv { stage: usize, env: TexEnv },
    /// Put a texture into a texture unit.
    BindTexture { unit: i32, texture: u64 },
    /// Take surface normals from the texture in this unit.
    BindNormalMap { unit: i32 },
    /// Take surface normals from the vertices again.
    UnbindNormalMap,
    /// Set a uniform of the vertex shader.
    BindVertexUniform { index: Index, value: Uniform },
    /// Set the colours of the lighting material.
    SetLightingMaterial { colors: MaterialColors },
    /// Load a lookup table of the lighting unit.
    BindLightLut { binding: LutBinding },
    /// Say what the Fresnel table of the lighting unit acts on.
    SetFresnel { selector: FresnelSelector },
    /// Put a light where the camera with the transform `camera` sees the
    /// place `position` of the world.
    SetLightPosition { light: usize, position: Vec3, camera: Mat4 },
    /// Enter a buffer of `count` vertices into a buffer table, at the place
    /// `place`.
    RegisterBuffer {
        table: BufferTable,
        place: usize,
        buffer: u64,
        stride: usize,
        count: usize,
        layout: AttrInfo,
    },
    /// Draw `count` vertices of a buffer table, starting at `first`.
    DrawArrays { primitive: Primitive, table: BufferTable, first: usize, count: usize },
    /// Draw the vertices of a buffer table that the `count` indices in the
    /// buffer `indices` name.
    DrawElements { primitive: Primitive, table: BufferTable, indices: u64, count: usize },
}

impl GpuCommand {
    /// Whether the command begins or ends a hardware frame.
    pub open spec fn is_frame_boundary(self) -> bool {
        self == GpuCommand::FrameBegin || self == GpuCommand::FrameEnd
    }

    /// Whether the command clears a render target.
    pub open spec fn is_clear(self) -> bool {
        self is ClearTarget
    }
}

/// Whether none of `commands` clears a render target.
pub open spec fn without_clear(commands: Seq<GpuCommand>) -> bool {
    forall|i: int| 0 <= i < commands.len() ==> !(#[trigger] commands[i]).is_clear()
}

} // verus!
