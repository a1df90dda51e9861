//! Materials of the fixed-function lighting unit.

use vstd::prelude::*;
use crate::assets::{AssetId, RenderAssets};
use crate::command::{GpuCommand, Uniform};
use crate::error::{Citro3dError, RenderError};
use crate::math::{Matrix4, Vec4};
use crate::pass::RenderPass;
use crate::shader::{find_uniform, Index, PicaShader, UniformEntry};
use crate::world::ExtractedView;

verus! {

/// A colour: red, green, blue and alpha.
#[derive(Debug, Clone, Copy, PartialEq, Eq, Structural)]
pub struct Color {
    pub r: u32,
    pub g: u32,
    pub b: u32,
    pub a: u32,
}

/// The lookup tables of the lighting unit.
#[derive(Debug, Clone, Copy, PartialEq, Eq, Structural)]
pub enum LightLutId {
    D0,
    D1,
    SpotLightAttenuation,
    Fresnel,
    ReflectBlue,
    ReflectGreen,
    ReflectRed,
    DistanceAttenuation,
}

/// What a lookup table is indexed by.
#[derive(Debug, Clone, Copy, PartialEq, Eq, Structural)]
pub enum LutInput {
    CosPhi,
    LightNormal,
    LightSpotLight,
    NormalHalf,
    NormalView,
    ViewHalf,
}

/// A table of precomputed values, named by the number under which the
/// driver keeps it.
#[derive(Debug, Clone, Copy, PartialEq, Eq, Structural)]
pub struct LightLut(pub u64);

/// A lookup table together with the place it is loaded to.
#[derive(Debug, Clone, Copy, PartialEq, Eq, Structural)]
pub struct LutBinding {
    pub id: LightLutId,
    pub input: LutInput,
    pub lut: LightLut,
}

/// Which of the two colours of a fragment the Fresnel table acts on.
#[derive(Debug, Clone, Copy, PartialEq, Eq, Structural)]
pub enum FresnelSelector {
    /// On neither.
    Neither,
    /// On the alpha of the primary colour.
    PrimaryAlpha,
    /// On the alpha of the secondary colour.
    SecondaryAlpha,
    /// On both.
    Both,
}

/// The colours of a material.
#[derive(Debug, Clone, Copy, PartialEq, Eq, Structural)]
pub struct MaterialColors {
    pub ambient: Option<Color>,
    pub diffuse: Option<Color>,
    pub specular0: Option<Color>,
    pub specular1: Option<Color>,
    pub emission: Option<Color>,
}

/// A material: its colours, and the lookup tables for what the colours alone
/// cannot say.
#[derive(Debug)]
pub struct Material {
    pub ambient: Option<Color>,
    pub diffuse: Option<Color>,
    pub specular0: Option<Color>,
    pub specular1: Option<Color>,
    pub emission: Option<Color>,
    pub luts: Vec<LutBinding>,
    /// What the Fresnel table of the material acts on.
    pub fresnel: FresnelSelector,
}

impl Material {
    /// The colours of the material.
    pub open spec fn colors(self) -> MaterialColors {
        MaterialColors {
            ambient: self.ambient,
            diffuse: self.diffuse,
            specular0: self.specular0,
            specular1: self.specular1,
            emission: self.emission,
        }
    }

    /// A material of the colours given, without lookup tables and without
    /// Fresnel term.
    pub fn new(
        ambient: Option<Color>,
        diffuse: Option<Color>,
        specular0: Option<Color>,
        specular1: Option<Color>,
        emission: Option<Color>,
    ) -> (material: Material)
        ensures
            material.colors() == (MaterialColors {
                ambient,
                diffuse,
                specular0,
                specular1,
                emission,
            }),
            material.luts@ == Seq::<LutBinding>::empty(),
            material.fresnel == FresnelSelector::Neither,
    {
        Material {
            ambient,
            diffuse,
            specular0,
            specular1,
            emission,
            luts: Vec::new(),
            fresnel: FresnelSelector::Neither,
        }
    }
}

impl Default for Material {
    fn default() -> (material: Material)
        ensures
            material.colors() == (MaterialColors {
                ambient: None,
                diffuse: None,
                specular0: None,
                specular1: None,
                emission: None,
            }),
            material.luts@ == Seq::<LutBinding>::empty(),
            material.fresnel == FresnelSelector::Neither,
    {
        Material::new(None, None, None, None, None)
    }
}

/// Where the uniforms live that every shader of this library declares.
#[derive(Debug, Clone, Copy, PartialEq, Eq, Structural)]
pub struct Uniforms {
    pub model_matrix: Index,
    pub camera_matrix: Index,
    pub projection_matrix: Index,
    pub light_colour: Index,
    pub material_emission: Index,
    pub material_ambient: Index,
    pub material_diffuse: Index,
    pub material_specular: Index,
}

/// Where the uniforms of a shader with the uniform table `table` live, if
/// it declares all of them.
pub open spec fn uniforms_of(table: Seq<UniformEntry>) -> Option<Uniforms> {
    if find_uniform(table, "modelMtx"@) is Some && find_uniform(table, "camMtx"@) is Some
        && find_uniform(table, "projMtx"@) is Some && find_uniform(table, "lightClr"@) is Some
        && find_uniform(table, "mat_emi"@) is Some && find_uniform(table, "mat_amb"@) is Some
        && find_uniform(table, "mat_dif"@) is Some && find_uniform(table, "mat_spe"@) is Some {
        Some(
            Uniforms {
                model_matrix: find_uniform(table, "modelMtx"@)->Some_0,
                camera_matrix: find_uniform(table, "camMtx"@)->Some_0,
                projection_matrix: find_uniform(table, "projMtx"@)->Some_0,
                light_colour: find_uniform(table, "lightClr"@)->Some_0,
                material_emission: find_uniform(table, "mat_emi"@)->Some_0,
                material_ambient: find_uniform(table, "mat_amb"@)->Some_0,
                material_diffuse: find_uniform(table, "mat_dif"@)->Some_0,
                material_specular: find_uniform(table, "mat_spe"@)->Some_0,
            },
        )
    } else {
        None
    }
}

/// What the driver is asked to do to show the scene through `view`.
pub open spec fn view_commands(uniforms: Uniforms, view: ExtractedView) -> Seq<GpuCommand> {
    seq![
        GpuCommand::BindVertexUniform {
            index: uniforms.projection_matrix,
            value: Uniform::Matrix(view.projection.to_gpu()),
        },
        GpuCommand::BindVertexUniform {
            index: uniforms.camera_matrix,
            value: Uniform::Matrix(view.camera.to_gpu()),
        },
    ]
}

/// A colour as a uniform; no colour is black without opacity.
pub open spec fn color_uniform(color: Option<Color>) -> Uniform {
    match color {
        Some(c) => Uniform::Vector(Vec4 { x: c.r, y: c.g, z: c.b, w: c.a }),
        None => Uniform::Vector(Vec4 { x: 0, y: 0, z: 0, w: 0 }),
    }
}

/// What the driver is asked to do to hand the colours of `material` to the
/// vertex shader.
pub open spec fn material_uniform_commands(material: Material, uniforms: Uniforms) -> Seq<
    GpuCommand,
> {
    seq![
        GpuCommand::BindVertexUniform {
            index: uniforms.material_ambient,
            value: color_uniform(material.ambient),
        },
        GpuCommand::BindVertexUniform {
            index: uniforms.material_emission,
            value: color_uniform(material.emission),
        },
    ]
}

fn color_to_uniform(color: Option<Color>) -> (uniform: Uniform)
    ensures
        uniform == color_uniform(color),
{
    match color {
        Some(c) => Uniform::Vector(Vec4 { x: c.r, y: c.g, z: c.b, w: c.a }),
        None => Uniform::Vector(Vec4 { x: 0, y: 0, z: 0, w: 0 }),
    }
}

impl Material {
    /// Hands the ambient colour and the emission of the material to the
    /// vertex shader.
    pub fn set_uniforms(&self, pass: &mut RenderPass, uniforms: &Uniforms)
        requires
            old(pass).wf(),
        ensures
            final(pass).wf(),
            final(pass)@ == old(pass)@.with(material_uniform_commands(*self, *uniforms)),
    {
        let ghost start = pass@;
        let ambient = color_to_uniform(self.ambient);
        let emission = color_to_uniform(self.emission);
        pass.bind_vertex_uniform(uniforms.material_ambient, ambient);
        pass.bind_vertex_uniform(uniforms.material_emission, emission);
        assert(start.commands + seq![
            GpuCommand::BindVertexUniform { index: uniforms.material_ambient, value: ambient },
        ] + seq![
            GpuCommand::BindVertexUniform { index: uniforms.material_emission, value: emission },
        ] =~= start.commands + material_uniform_commands(*self, *uniforms));
    }
}

impl Uniforms {
    /// Looks up where the uniforms of `vert_prog` live.
    pub fn build(vert_prog: &PicaShader) -> (r: Result<Uniforms, RenderError>)
        ensures
            r == (match uniforms_of(vert_prog.uniforms()) {
                Some(uniforms) => Ok(uniforms),
                None => Err(RenderError::Citro3d(Citro3dError::NotFound)),
            }),
    {
        let missing = RenderError::Citro3d(Citro3dError::NotFound);
        let model_matrix = match vert_prog.get_uniform("modelMtx") {
            Some(index) => index,
            None => {
                return Err(missing);
            },
        };
        let camera_matrix = match vert_prog.get_uniform("camMtx") {
            Some(index) => index,
            None => {
                return Err(missing);
            },
        };
        let projection_matrix = match vert_prog.get_uniform("projMtx") {
            Some(index) => index,
            None => {
                return Err(missing);
            },
        };
        let light_colour = match vert_prog.get_uniform("lightClr") {
            Some(index) => index,
            None => {
                return Err(missing);
            },
        };
        let material_emission = match vert_prog.get_uniform("mat_emi") {
            Some(index) => index,
            None => {
                return Err(missing);
            },
        };
        let material_ambient = match vert_prog.get_uniform("mat_amb") {
            Some(index) => index,
            None => {
                return Err(missing);
            },
        };
        let material_diffuse = match vert_prog.get_uniform("mat_dif") {
            Some(index) => index,
            None => {
                return Err(missing);
            },
        };
        let material_specular = match vert_prog.get_uniform("mat_spe") {
            Some(index) => index,
            None => {
                return Err(missing);
            },
        };
        Ok(
            Uniforms {
                model_matrix,
                camera_matrix,
                projection_matrix,
                light_colour,
                material_emission,
                material_ambient,
                material_diffuse,
                material_specular,
            },
        )
    }

    /// Hands the projection and the camera transform of `view` to the
    /// vertex shader.
    pub fn bind_views(&self, pass: &mut RenderPass, view: &ExtractedView)
        requires
            old(pass).wf(),
        ensures
            final(pass).wf(),
            final(pass)@ == old(pass)@.with(view_commands(*self, *view)),
    {
        let ghost start = pass@;
        let projection = Uniform::Matrix(Matrix4::from_mat4(&view.projection));
        let camera = Uniform::Matrix(Matrix4::from_mat4(&view.camera));
        pass.bind_vertex_uniform(self.projection_matrix, projection);
        pass.bind_vertex_uniform(self.camera_matrix, camera);
        assert(start.commands + seq![
            GpuCommand::BindVertexUniform { index: self.projection_matrix, value: projection },
        ] + seq![GpuCommand::BindVertexUniform { index: self.camera_matrix, value: camera }]
            =~= start.commands + view_commands(*self, *view));
    }
}

/// A material as the meshes that wear it need it.
#[derive(Debug)]
pub struct RenderMat {
    /// The texture that gives the surface its colour.
    pub base_color_texture: Option<AssetId>,
    /// The texture that gives the surface its normals.
    pub normal_map_texture: Option<AssetId>,
    /// What the lighting unit is given for the material.
    pub lighting: Material,
}

/// The materials that are ready.
pub struct RenderMaterials(pub RenderAssets<RenderMat>);

impl View for RenderMaterials {
    type V = Map<u128, RenderMat>;

    open spec fn view(&self) -> Map<u128, RenderMat> {
        self.0@
    }
}

impl RenderMaterials {
    /// The material prepared for `id`, if it is ready.
    pub fn get(&self, id: AssetId) -> (material: Option<&RenderMat>)
        ensures
            material == (if self@.contains_key(id.0) {
                Some(&self@[id.0])
            } else {
                None
            }),
    {
        self.0.get(id)
    }

    /// Keeps `asset` as the material for `id`.
    pub fn insert(&mut self, id: AssetId, asset: RenderMat)
        ensures
            final(self)@ == old(self)@.insert(id.0, asset),
    {
        self.0.insert(id, asset);
    }

    /// Takes out the material for `id`.
    pub fn remove(&mut self, id: AssetId) -> (material: Option<RenderMat>)
        ensures
            final(self)@ == old(self)@.remove(id.0),
            material == (if old(self)@.contains_key(id.0) {
                Some(old(self)@[id.0])
            } else {
                None
            }),
    {
        self.0.remove(id)
    }
}

impl Default for RenderMaterials {
    fn default() -> (materials: RenderMaterials)
        ensures
            materials@ == Map::<u128, RenderMat>::empty(),
    {
        RenderMaterials(RenderAssets::new())
    }
}

} // verus!
