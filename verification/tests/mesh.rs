use bevy_3ds::assets::{AssetId, RenderAssets};
use bevy_3ds::camera::{CameraID, RenderOn};
use bevy_3ds::command::{
    bevy_topology_to_citro, BufferTable, GpuCommand, Primitive, PrimitiveTopology, Uniform,
};
use bevy_3ds::draw::RenderCommand;
use bevy_3ds::error::{Citro3dError, RenderError};
use bevy_3ds::frame::GpuDevice;
use bevy_3ds::gpu_buffer::LinearPool;
use bevy_3ds::lighting::GpuLights;
use bevy_3ds::material::{
    Color, FresnelSelector, LightLut, LightLutId, LutBinding, LutInput, Material, MaterialColors,
    RenderMat, RenderMaterials,
};
use bevy_3ds::math::{Mat4, Matrix4, Vec2, Vec3, Vec4};
use bevy_3ds::mesh::draw::{MeshDraw, BLANK_TEXTURE};
use bevy_3ds::mesh::{
    extract_meshes, BufKind, ExtractedMesh, ExtractedMeshes, GpuMesh, Indices, MeshData,
    MeshError, MeshVertex, QueriedMesh,
};
use bevy_3ds::pass::{RenderPass, Target};
use bevy_3ds::pipeline::AttrInfo;
use bevy_3ds::shader::{Entrypoint, Index, PicaShader, UniformEntry};
use bevy_3ds::sprite::SpriteBatches;
use bevy_3ds::texenv::{CombineFunc, Combiner, Source, TexEnv};
use bevy_3ds::texture::{GpuImage, TextureFormat};
use bevy_3ds::world::{ExtractedView, RenderWorld};

fn v3(x: u32, y: u32, z: u32) -> Vec3 {
    Vec3 { x, y, z }
}

fn quad() -> MeshData {
    MeshData {
        positions: Some(vec![v3(0, 0, 0), v3(1, 0, 0), v3(1, 1, 0), v3(0, 1, 0)]),
        uvs: Some(vec![
            Vec2 { x: 10, y: 11 },
            Vec2 { x: 12, y: 13 },
            Vec2 { x: 14, y: 15 },
            Vec2 { x: 16, y: 17 },
        ]),
        normals: Some(vec![v3(0, 0, 9); 4]),
        tangents: None,
        indices: Some(Indices::U32(vec![0, 3, 1, 1, 3, 2])),
        topology: PrimitiveTopology::TriangleList,
    }
}

#[test]
fn topologies_that_the_gpu_draws() {
    assert_eq!(bevy_topology_to_citro(PrimitiveTopology::TriangleList), Some(Primitive::Triangles));
    assert_eq!(
        bevy_topology_to_citro(PrimitiveTopology::TriangleStrip),
        Some(Primitive::TriangleStrip)
    );
    assert_eq!(bevy_topology_to_citro(PrimitiveTopology::PointList), None);
    assert_eq!(bevy_topology_to_citro(PrimitiveTopology::LineList), None);
    assert_eq!(bevy_topology_to_citro(PrimitiveTopology::LineStrip), None);
}

#[test]
fn mesh_is_copied_vertex_by_vertex() {
    let mut pool = LinearPool::new(1 << 16);
    let mesh = GpuMesh::prepare(&quad(), &mut pool).unwrap();
    assert_eq!(mesh.nb_verts, 4);
    assert_eq!(mesh.prim_kind, Primitive::Triangles);
    assert_eq!(
        mesh.vert_buf.as_slice()[2],
        MeshVertex {
            pos: v3(1, 1, 0),
            uv: Vec2 { x: 14, y: 15 },
            normal: v3(0, 0, 9),
            tangent: v3(0, 0, 0),
        }
    );
    match &mesh.indices {
        BufKind::Elements { index_buf } => {
            assert_eq!(index_buf.as_slice(), &[0u16, 3, 1, 1, 3, 2]);
            assert!(pool.is_live(index_buf.handle()));
        }
        BufKind::Array => panic!("the mesh has indices"),
    }
    assert!(pool.is_live(mesh.vert_buf.handle()));
    assert_eq!(pool.used(), 4 * 44 + 6 * 2);
}

#[test]
fn tangents_lose_their_fourth_component() {
    let mut data = quad();
    data.tangents = Some(vec![Vec4 { x: 1, y: 2, z: 3, w: 4 }; 4]);
    data.indices = None;
    data.topology = PrimitiveTopology::TriangleStrip;
    let mut pool = LinearPool::new(1 << 16);
    let mesh = GpuMesh::prepare(&data, &mut pool).unwrap();
    assert_eq!(mesh.vert_buf.as_slice()[3].tangent, v3(1, 2, 3));
    assert!(matches!(mesh.indices, BufKind::Array));
    assert_eq!(mesh.prim_kind, Primitive::TriangleStrip);
    assert_eq!(pool.used(), 4 * 44);
}

#[test]
fn faulty_meshes_are_refused() {
    let mut pool = LinearPool::new(1 << 16);
    let refuse = |change: &dyn Fn(&mut MeshData), pool: &mut LinearPool| {
        let mut data = quad();
        change(&mut data);
        let r = GpuMesh::prepare(&data, pool).err();
        assert_eq!(pool.used(), 0);
        assert_eq!(data.fault(), r);
        r
    };
    assert_eq!(quad().fault(), None);
    assert_eq!(refuse(&|d| d.positions = None, &mut pool), Some(MeshError::MissingPositions));
    assert_eq!(refuse(&|d| d.normals = None, &mut pool), Some(MeshError::MissingNormals));
    assert_eq!(refuse(&|d| d.uvs = None, &mut pool), Some(MeshError::MissingUvs));
    assert_eq!(
        refuse(&|d| d.uvs = Some(vec![Vec2 { x: 0, y: 0 }; 3]), &mut pool),
        Some(MeshError::AttributeTooShort)
    );
    assert_eq!(
        refuse(&|d| d.normals = Some(vec![]), &mut pool),
        Some(MeshError::AttributeTooShort)
    );
    assert_eq!(
        refuse(&|d| d.tangents = Some(vec![Vec4 { x: 0, y: 0, z: 0, w: 0 }]), &mut pool),
        Some(MeshError::AttributeTooShort)
    );
    assert_eq!(
        refuse(&|d| d.topology = PrimitiveTopology::LineList, &mut pool),
        Some(MeshError::UnsupportedTopology)
    );
    assert_eq!(
        refuse(&|d| d.indices = Some(Indices::U32(vec![0, 65535, 65536, 70000])), &mut pool),
        Some(MeshError::IndexTooLarge { index: 65536 })
    );
    assert_eq!(
        refuse(&|d| { d.positions = None; d.normals = None; }, &mut pool),
        Some(MeshError::MissingPositions)
    );
}

#[test]
fn a_mesh_without_vertices_needs_no_texture_coordinates() {
    let data = MeshData {
        positions: Some(vec![]),
        uvs: None,
        normals: Some(vec![]),
        tangents: None,
        indices: Some(Indices::U16(vec![])),
        topology: PrimitiveTopology::TriangleList,
    };
    let mut pool = LinearPool::new(0);
    let mesh = GpuMesh::prepare(&data, &mut pool).unwrap();
    assert_eq!(mesh.nb_verts, 0);
}

#[test]
fn a_mesh_that_does_not_fit_leaves_the_pool_as_it_was() {
    let mut pool = LinearPool::new(4 * 44 + 11);
    assert_eq!(GpuMesh::prepare(&quad(), &mut pool).err(), Some(MeshError::OutOfLinearMemory));
    assert_eq!(pool.used(), 0);
    let mut pool = LinearPool::new(4 * 44 - 1);
    assert_eq!(GpuMesh::prepare(&quad(), &mut pool).err(), Some(MeshError::OutOfLinearMemory));
    assert_eq!(pool.used(), 0);
    let mut pool = LinearPool::new(4 * 44 + 12);
    assert!(GpuMesh::prepare(&quad(), &mut pool).is_ok());
    assert_eq!(pool.used(), 188);
}

fn queried(mesh: u128, material: u128, visible: bool) -> QueriedMesh {
    QueriedMesh {
        mesh: AssetId(mesh),
        material: AssetId(material),
        transform: identity(),
        visible,
        render_on: None,
    }
}

#[test]
fn meshes_of_one_material_stand_side_by_side() {
    let mut extracted = ExtractedMeshes::default();
    extracted.extracted.push(ExtractedMesh {
        mesh: AssetId(99),
        transform: identity(),
        material: AssetId(99),
        render_on: RenderOn::default(),
    });
    let mut with_filter = queried(6, 2, true);
    with_filter.render_on = Some(RenderOn::Except(CameraID(3)));
    extract_meshes(
        &mut extracted,
        vec![
            queried(1, 1, true),
            queried(2, 2, true),
            queried(3, 1, true),
            queried(4, 3, false),
            queried(5, 3, true),
            with_filter,
            queried(7, 1, true),
        ],
    );
    let order: Vec<(u128, u128)> =
        extracted.extracted.iter().map(|m| (m.mesh.0, m.material.0)).collect();
    assert_eq!(order, vec![(1, 1), (3, 1), (7, 1), (2, 2), (6, 2), (5, 3)]);
    assert!(matches!(extracted.extracted[0].render_on, RenderOn::Only(CameraID(0))));
    assert!(matches!(extracted.extracted[4].render_on, RenderOn::Except(CameraID(3))));
}

fn identity() -> Mat4 {
    let one = 0x3f80_0000;
    Mat4 {
        x_axis: Vec4 { x: one, y: 0, z: 0, w: 0 },
        y_axis: Vec4 { x: 0, y: one, z: 0, w: 0 },
        z_axis: Vec4 { x: 0, y: 0, z: one, w: 0 },
        w_axis: Vec4 { x: 0, y: 0, z: 0, w: one },
    }
}

fn uniform(name: &str, index: u8) -> UniformEntry {
    UniformEntry { name: name.to_string(), index: Index(index) }
}

fn shader(library: u64) -> PicaShader {
    PicaShader::new(
        library,
        vec![Ok(())],
        vec![
            uniform("projMtx", 0),
            uniform("camMtx", 4),
            uniform("modelMtx", 8),
            uniform("lightClr", 12),
            uniform("mat_emi", 13),
            uniform("mat_amb", 14),
            uniform("mat_dif", 15),
            uniform("mat_spe", 16),
        ],
    )
}

fn world() -> RenderWorld {
    RenderWorld {
        pool: LinearPool::new(1 << 20),
        meshes: RenderAssets::new(),
        images: RenderAssets::new(),
        materials: RenderMaterials::default(),
        extracted_meshes: ExtractedMeshes::default(),
        sprites: SpriteBatches::default(),
        lights: GpuLights::default(),
        mesh_shader: shader(1),
        sprite_shader: shader(2),
    }
}

fn image(texture: u64) -> GpuImage {
    let plan = GpuImage::plan(8, 8, TextureFormat::R8Unorm).unwrap();
    GpuImage::from_bevy(&plan, texture, vec![0; 64]).unwrap()
}

fn view() -> ExtractedView {
    ExtractedView { projection: identity(), camera: identity() }
}

fn extracted(mesh: u128, material: u128) -> ExtractedMesh {
    ExtractedMesh {
        mesh: AssetId(mesh),
        transform: identity(),
        material: AssetId(material),
        render_on: RenderOn::Only(CameraID(0)),
    }
}

fn render(world: &RenderWorld, cam: u32, select: bool) -> (Result<(), RenderError>, Vec<GpuCommand>) {
    let mut gpu = GpuDevice::new();
    let frame = gpu.start_new_frame().unwrap();
    let mut pass = RenderPass::new(&gpu, frame).unwrap();
    if select {
        pass.select_render_target(&Target { index: 1, width: 240, height: 400 });
    }
    let r = MeshDraw::render(world, &mut pass, &view(), CameraID(cam));
    (r, gpu.end_frame(pass.finish()).unwrap())
}

fn prelude(select: bool) -> Vec<GpuCommand> {
    let gpu_identity = Uniform::Matrix(Matrix4::from_mat4(&identity()));
    let mut commands = vec![GpuCommand::FrameBegin];
    if select {
        commands.push(GpuCommand::SelectTarget { target: 1 });
    }
    commands.extend([
        GpuCommand::BindProgram { entry: Entrypoint { library: 1, index: 0 } },
        GpuCommand::BindVertexUniform { index: Index(0), value: gpu_identity },
        GpuCommand::BindVertexUniform { index: Index(4), value: gpu_identity },
    ]);
    commands
}

#[test]
fn meshes_that_are_not_ready_are_passed_over() {
    let mut w = world();
    w.extracted_meshes.extracted.push(extracted(1, 1));
    w.extracted_meshes.extracted.push(extracted(2, 2));
    // mesh 1: the mesh is ready, its material is not
    w.meshes.insert(AssetId(1), GpuMesh::prepare(&quad(), &mut w.pool).unwrap());
    // mesh 2: neither
    let mut expected = prelude(true);
    expected.push(GpuCommand::FrameEnd);
    for _frame in 0..2 {
        let (r, record) = render(&w, 0, true);
        assert_eq!(r, Ok(()));
        assert_eq!(record, expected);
        assert_eq!(w.extracted_meshes.extracted.len(), 2);
    }
    // material and mesh are there, but no texture at all
    w.materials.insert(
        AssetId(1),
        RenderMat { base_color_texture: None, normal_map_texture: None, lighting: Material::default() },
    );
    let (r, record) = render(&w, 0, true);
    assert_eq!((r, record), (Ok(()), expected.clone()));
    // once the blank texture is ready, the mesh is drawn
    w.images.insert(AssetId(BLANK_TEXTURE), image(77));
    let (r, record) = render(&w, 0, true);
    assert_eq!(r, Ok(()));
    assert_eq!(record.iter().filter(|c| matches!(c, GpuCommand::DrawElements { .. })).count(), 1);
}

#[test]
fn a_mesh_is_set_up_and_drawn() {
    let mut w = world();
    let mut data = quad();
    data.indices = None;
    let mesh = GpuMesh::prepare(&data, &mut w.pool).unwrap();
    let buffer = mesh.vert_buf.handle();
    w.meshes.insert(AssetId(1), mesh);
    let mut lighting = Material::new(None, Some(Color { r: 1, g: 2, b: 3, a: 4 }), None, None, None);
    let binding =
        LutBinding { id: LightLutId::D0, input: LutInput::NormalHalf, lut: LightLut(5) };
    lighting.luts.push(binding);
    lighting.fresnel = FresnelSelector::Both;
    w.materials.insert(
        AssetId(7),
        RenderMat {
            base_color_texture: Some(AssetId(20)),
            normal_map_texture: Some(AssetId(21)),
            lighting,
        },
    );
    w.images.insert(AssetId(20), image(200));
    w.images.insert(AssetId(21), image(201));
    w.extracted_meshes.extracted.push(extracted(1, 7));
    w.extracted_meshes.extracted.push(extracted(1, 7));
    w.extracted_meshes.extracted.push(ExtractedMesh {
        render_on: RenderOn::Only(CameraID(5)),
        ..extracted(1, 7)
    });

    let stage0 = TexEnv {
        rgb: Combiner {
            source0: Source::Texture0,
            source1: Source::FragmentPrimaryColor,
            source2: Source::PrimaryColor,
            func: CombineFunc::Modulate,
        },
        alpha: Combiner {
            source0: Source::Texture0,
            source1: Source::FragmentPrimaryColor,
            source2: Source::PrimaryColor,
            func: CombineFunc::Replace,
        },
    };
    let stage1 = TexEnv {
        rgb: Combiner {
            source0: Source::Previous,
            source1: Source::FragmentSecondaryColor,
            source2: Source::PrimaryColor,
            func: CombineFunc::Add,
        },
        alpha: Combiner {
            source0: Source::Previous,
            source1: Source::PrimaryColor,
            source2: Source::PrimaryColor,
            func: CombineFunc::Add,
        },
    };
    let layout = AttrInfo { permutation: 0x3210, formats: 0xbb7b, count: 4 };
    let one_mesh = |first: bool, registry: u64| {
        let table = BufferTable { registry, generation: 0 };
        let mut commands = vec![
            GpuCommand::BindTexture { unit: 0, texture: 200 },
            GpuCommand::BindTexture { unit: 1, texture: 201 },
            GpuCommand::BindNormalMap { unit: 1 },
            GpuCommand::ConfigureTexEnv { stage: 0, env: stage0 },
            GpuCommand::ConfigureTexEnv { stage: 1, env: stage1 },
        ];
        if first {
            commands.push(GpuCommand::SetLightingMaterial {
                colors: MaterialColors {
                    ambient: None,
                    diffuse: Some(Color { r: 1, g: 2, b: 3, a: 4 }),
                    specular0: None,
                    specular1: None,
                    emission: None,
                },
            });
            commands.push(GpuCommand::BindLightLut { binding });
            commands.push(GpuCommand::SetFresnel { selector: FresnelSelector::Both });
        }
        commands.extend([
            GpuCommand::BindVertexUniform {
                index: Index(8),
                value: Uniform::Matrix(Matrix4::from_mat4(&identity())),
            },
            GpuCommand::SetAttrInfo { layout },
            GpuCommand::RegisterBuffer { table, place: 0, buffer, stride: 44, count: 4, layout },
            GpuCommand::DrawArrays { primitive: Primitive::Triangles, table, first: 0, count: 4 },
        ]);
        commands
    };
    let mut expected = prelude(true);
    expected.extend(one_mesh(true, 0));
    expected.extend(one_mesh(false, 1));
    expected.push(GpuCommand::FrameEnd);
    let (r, record) = render(&w, 0, true);
    assert_eq!(r, Ok(()));
    assert_eq!(record, expected);

    let (r, record) = render(&w, 5, true);
    assert_eq!(r, Ok(()));
    let mut expected = prelude(true);
    expected.extend(one_mesh(true, 0));
    expected.push(GpuCommand::FrameEnd);
    assert_eq!(record, expected);

    // a mesh that is passed over leaves no trace: the mesh behind it gets
    // its material as if it were the first
    w.extracted_meshes.extracted.insert(0, extracted(9, 7));
    let (r, record) = render(&w, 0, true);
    assert_eq!(r, Ok(()));
    let mut expected = prelude(true);
    expected.extend(one_mesh(true, 0));
    expected.extend(one_mesh(false, 1));
    expected.push(GpuCommand::FrameEnd);
    assert_eq!(record, expected);
}

#[test]
fn a_mesh_waits_for_the_texture_that_its_material_names() {
    let mut w = world();
    let mut data = quad();
    data.indices = None;
    w.meshes.insert(AssetId(1), GpuMesh::prepare(&data, &mut w.pool).unwrap());
    w.materials.insert(
        AssetId(1),
        RenderMat {
            base_color_texture: Some(AssetId(20)),
            normal_map_texture: None,
            lighting: Material::default(),
        },
    );
    w.images.insert(AssetId(BLANK_TEXTURE), image(77));
    w.extracted_meshes.extracted.push(extracted(1, 1));
    let mut nothing = prelude(true);
    nothing.push(GpuCommand::FrameEnd);
    for _frame in 0..2 {
        let (r, record) = render(&w, 0, true);
        assert_eq!((r, record), (Ok(()), nothing.clone()));
    }
    w.images.insert(AssetId(20), image(200));
    let (r, record) = render(&w, 0, true);
    assert_eq!(r, Ok(()));
    assert_eq!(record.iter().filter(|c| matches!(c, GpuCommand::DrawArrays { .. })).count(), 1);
    assert!(record.contains(&GpuCommand::BindTexture { unit: 0, texture: 200 }));
    assert!(!record.contains(&GpuCommand::BindTexture { unit: 0, texture: 77 }));
}

#[test]
fn a_mesh_that_is_not_ready_skips_only_itself() {
    let mut w = world();
    let mut data = quad();
    data.indices = None;
    w.meshes.insert(AssetId(1), GpuMesh::prepare(&data, &mut w.pool).unwrap());
    w.meshes.insert(AssetId(2), GpuMesh::prepare(&quad(), &mut w.pool).unwrap());
    w.materials.insert(
        AssetId(2),
        RenderMat { base_color_texture: None, normal_map_texture: None, lighting: Material::default() },
    );
    w.images.insert(AssetId(BLANK_TEXTURE), image(77));
    // the material of the first mesh is missing, the second has all it needs
    w.extracted_meshes.extracted.push(extracted(1, 1));
    w.extracted_meshes.extracted.push(extracted(2, 2));
    let (r, record) = render(&w, 0, true);
    assert_eq!(r, Ok(()));
    assert!(!record.iter().any(|c| matches!(c, GpuCommand::DrawArrays { .. })));
    assert_eq!(record.iter().filter(|c| matches!(c, GpuCommand::DrawElements { .. })).count(), 1);
    assert_eq!(record.iter().filter(|c| matches!(c, GpuCommand::RegisterBuffer { .. })).count(), 1);
    assert_eq!(
        record.iter().filter(|c| matches!(c, GpuCommand::SetLightingMaterial { .. })).count(),
        1
    );
}

#[test]
fn a_mesh_that_fits_is_prepared() {
    // four vertices of 44 bytes and six indices of 2 bytes
    let mut pool = LinearPool::new(188);
    let mesh = GpuMesh::prepare(&quad(), &mut pool).unwrap();
    assert_eq!(pool.used(), 188);
    assert!(pool.is_live(mesh.vert_buf.handle()));
    let mut pool = LinearPool::new(187);
    assert_eq!(GpuMesh::prepare(&quad(), &mut pool).err(), Some(MeshError::OutOfLinearMemory));
    assert_eq!(pool.used(), 0);
    let mut data = quad();
    data.indices = None;
    let mut pool = LinearPool::new(176);
    assert!(GpuMesh::prepare(&data, &mut pool).is_ok());
    assert_eq!(pool.used(), 176);
}

#[test]
fn mesh_pass_reports_what_stops_it() {
    let mut w = world();
    let mut data = quad();
    data.indices = None;
    w.meshes.insert(AssetId(1), GpuMesh::prepare(&data, &mut w.pool).unwrap());
    w.materials.insert(
        AssetId(1),
        RenderMat { base_color_texture: None, normal_map_texture: None, lighting: Material::default() },
    );
    w.images.insert(AssetId(BLANK_TEXTURE), image(1));
    w.extracted_meshes.extracted.push(extracted(1, 1));
    w.extracted_meshes.extracted.push(extracted(1, 1));

    let (r, record) = render(&w, 0, false);
    assert_eq!(r, Err(RenderError::NoRenderTarget));
    assert!(!record.iter().any(|c| matches!(c, GpuCommand::DrawArrays { .. })));
    assert_eq!(record.iter().filter(|c| matches!(c, GpuCommand::SetAttrInfo { .. })).count(), 1);

    let stale = w.meshes.remove(AssetId(1)).unwrap();
    let GpuMesh { vert_buf, nb_verts, indices, prim_kind } = stale;
    let gone = GpuMesh::prepare(&data, &mut w.pool).unwrap();
    w.pool.release(gone.vert_buf);
    w.pool.give_back(vert_buf.handle());
    w.meshes.insert(AssetId(1), GpuMesh { vert_buf, nb_verts, indices, prim_kind });
    let (r, _) = render(&w, 0, true);
    assert_eq!(r, Err(RenderError::StaleHandle));

    w.mesh_shader = PicaShader::new(1, vec![], vec![]);
    let (r, record) = render(&w, 0, true);
    assert_eq!(r, Err(RenderError::InvalidEntryPoint { index: 0 }));
    assert_eq!(
        record,
        vec![GpuCommand::FrameBegin, GpuCommand::SelectTarget { target: 1 }, GpuCommand::FrameEnd]
    );

    w.mesh_shader = PicaShader::new(1, vec![Ok(())], vec![uniform("modelMtx", 0)]);
    let (r, record) = render(&w, 0, true);
    assert_eq!(r, Err(RenderError::Citro3d(Citro3dError::NotFound)));
    assert_eq!(record.len(), 4);

    w.mesh_shader = PicaShader::new(1, vec![Err(Citro3dError::System(-3))], vec![]);
    let (r, record) = render(&w, 0, true);
    assert_eq!(r, Err(RenderError::Citro3d(Citro3dError::System(-3))));
    assert_eq!(
        record,
        vec![GpuCommand::FrameBegin, GpuCommand::SelectTarget { target: 1 }, GpuCommand::FrameEnd]
    );
}
