use bevy_3ds::command::{GpuCommand, Uniform};
use bevy_3ds::error::RenderError;
use bevy_3ds::frame::GpuDevice;
use bevy_3ds::lighting::{GpuLight, LightIndex};
use bevy_3ds::material::{
    Color, FresnelSelector, LightLut, LightLutId, LutBinding, LutInput, Material, MaterialColors,
    Uniforms,
};
use bevy_3ds::math::{Mat4, Matrix4, Vec3, Vec4};
use bevy_3ds::pass::RenderPass;
use bevy_3ds::shader::Index;
use bevy_3ds::texenv::{Stage, TexEnv};
use bevy_3ds::texture::{GpuImage, TextureFormat};
use bevy_3ds::world::ExtractedView;

fn pass(gpu: &mut GpuDevice) -> RenderPass {
    let frame = gpu.start_new_frame().unwrap();
    RenderPass::new(gpu, frame).unwrap()
}

fn recorded(gpu: &mut GpuDevice, pass: RenderPass) -> Vec<GpuCommand> {
    let mut record = gpu.end_frame(pass.finish()).unwrap();
    assert_eq!(record.remove(0), GpuCommand::FrameBegin);
    assert_eq!(record.pop(), Some(GpuCommand::FrameEnd));
    record
}

fn matrix(n: u32) -> Mat4 {
    let v = Vec4 { x: n, y: n + 1, z: n + 2, w: n + 3 };
    Mat4 { x_axis: v, y_axis: v, z_axis: v, w_axis: v }
}

#[test]
fn a_pass_needs_the_open_frame_of_its_device() {
    let mut gpu = GpuDevice::new();
    let mut other = GpuDevice::new();
    let frame = other.start_new_frame().unwrap();
    assert!(matches!(RenderPass::new(&gpu, frame), Err(RenderError::FrameNotOpen)));
    let own = gpu.start_new_frame().unwrap();
    let pass = RenderPass::new(&gpu, own).unwrap();
    assert_eq!(pass.epoch(), 1);
    assert!(recorded(&mut gpu, pass).is_empty());
}

#[test]
fn there_are_three_texture_units() {
    let mut gpu = GpuDevice::new();
    let mut pass = pass(&mut gpu);
    let plan = GpuImage::plan(8, 8, TextureFormat::R8Unorm).unwrap();
    let image = GpuImage::from_bevy(&plan, 31, vec![0; 64]).unwrap();
    assert_eq!(pass.bind_texture(-1, &image), Err(RenderError::InvalidTextureUnit { unit: -1 }));
    assert_eq!(pass.bind_texture(3, &image), Err(RenderError::InvalidTextureUnit { unit: 3 }));
    assert_eq!(pass.bind_normal_map(3), Err(RenderError::InvalidTextureUnit { unit: 3 }));
    assert_eq!(pass.bind_texture(2, &image), Ok(()));
    assert_eq!(pass.bind_normal_map(2), Ok(()));
    pass.unbind_normal_map();
    assert_eq!(
        recorded(&mut gpu, pass),
        vec![
            GpuCommand::BindTexture { unit: 2, texture: 31 },
            GpuCommand::BindNormalMap { unit: 2 },
            GpuCommand::UnbindNormalMap,
        ]
    );
}

#[test]
fn uniforms_stages_materials_and_lights_are_recorded_as_given() {
    let mut gpu = GpuDevice::new();
    let mut pass = pass(&mut gpu);
    let vector = Uniform::Vector(Vec4 { x: 1, y: 2, z: 3, w: 4 });
    pass.bind_vertex_uniform(Index(9), vector);
    pass.configure_texenv(Stage::new(5).unwrap(), TexEnv::new());

    let red = Color { r: 9, g: 0, b: 0, a: 9 };
    let mut material = Material::new(Some(red), None, None, None, None);
    let first = LutBinding { id: LightLutId::Fresnel, input: LutInput::CosPhi, lut: LightLut(1) };
    let second = LutBinding { id: LightLutId::D1, input: LutInput::ViewHalf, lut: LightLut(2) };
    material.luts.push(first);
    material.luts.push(second);
    pass.set_lighting_material(&material);

    let lights = vec![
        GpuLight { index: LightIndex::new(0).unwrap(), global_pos: Vec3 { x: 1, y: 1, z: 1 } },
        GpuLight { index: LightIndex::new(7).unwrap(), global_pos: Vec3 { x: 2, y: 2, z: 2 } },
    ];
    pass.set_light_positions(&lights, &matrix(40));

    let uniforms = Uniforms {
        model_matrix: Index(0),
        camera_matrix: Index(1),
        projection_matrix: Index(2),
        light_colour: Index(3),
        material_emission: Index(4),
        material_ambient: Index(5),
        material_diffuse: Index(6),
        material_specular: Index(7),
    };
    material.set_uniforms(&mut pass, &uniforms);
    uniforms.bind_views(&mut pass, &ExtractedView { projection: matrix(10), camera: matrix(20) });

    assert_eq!(
        recorded(&mut gpu, pass),
        vec![
            GpuCommand::BindVertexUniform { index: Index(9), value: vector },
            GpuCommand::ConfigureTexEnv { stage: 5, env: TexEnv::new() },
            GpuCommand::SetLightingMaterial {
                colors: MaterialColors {
                    ambient: Some(red),
                    diffuse: None,
                    specular0: None,
                    specular1: None,
                    emission: None,
                },
            },
            GpuCommand::BindLightLut { binding: first },
            GpuCommand::BindLightLut { binding: second },
            GpuCommand::SetFresnel { selector: FresnelSelector::Neither },
            GpuCommand::SetLightPosition {
                light: 0,
                position: Vec3 { x: 1, y: 1, z: 1 },
                camera: matrix(40),
            },
            GpuCommand::SetLightPosition {
                light: 7,
                position: Vec3 { x: 2, y: 2, z: 2 },
                camera: matrix(40),
            },
            GpuCommand::BindVertexUniform {
                index: Index(5),
                value: Uniform::Vector(Vec4 { x: 9, y: 0, z: 0, w: 9 }),
            },
            GpuCommand::BindVertexUniform {
                index: Index(4),
                value: Uniform::Vector(Vec4 { x: 0, y: 0, z: 0, w: 0 }),
            },
            GpuCommand::BindVertexUniform {
                index: Index(2),
                value: Uniform::Matrix(Matrix4::from_mat4(&matrix(10))),
            },
            GpuCommand::BindVertexUniform {
                index: Index(1),
                value: Uniform::Matrix(Matrix4::from_mat4(&matrix(20))),
            },
        ]
    );
}
