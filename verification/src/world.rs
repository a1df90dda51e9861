//! What a frame is drawn from: the view of one camera, and the prepared data
//! of everything that can be seen.

use vstd::prelude::*;
use crate::assets::RenderAssets;
use crate::gpu_buffer::LinearPool;
use crate::lighting::GpuLights;
use crate::material::RenderMaterials;
use crate::math::Mat4;
use crate::mesh::{ExtractedMeshes, GpuMesh};
use crate::shader::PicaShader;
use crate::sprite::SpriteBatches;
use crate::texture::GpuImage;

verus! {

/// What one camera sees the scene with.
#[derive(Debug, Clone, Copy, PartialEq, Eq, Structural)]
pub struct ExtractedView {
    /// The projection, already corrected for how the display is mounted and
    /// for the depth range of the GPU.
    pub projection: Mat4,
    /// The transform from the world to the camera.
    pub camera: Mat4,
}

/// The data of one frame, as the render commands read it. Nothing in it
/// changes while the frame is drawn.
pub struct RenderWorld {
    /// The accounts of the linear memory that all buffers below live in.
    pub pool: LinearPool,
    pub meshes: RenderAssets<GpuMesh>,
    pub images: RenderAssets<GpuImage>,
    pub materials: RenderMaterials,
    pub extracted_meshes: ExtractedMeshes,
    pub sprites: SpriteBatches,
    /// The lights that are lit.
    pub lights: GpuLights,
    /// The shader that meshes are drawn with.
    pub mesh_shader: PicaShader,
    /// The shader that sprites are drawn with.
    pub sprite_shader: PicaShader,
}

impl RenderWorld {
    /// What every world satisfies.
    pub open spec fn wf(self) -> bool {
        self.pool.wf()
    }
}

} // verus!
