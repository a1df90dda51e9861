//! The render command that draws meshes.

use vstd::prelude::*;
use vstd::layout::size_of;
use crate::assets::AssetId;
use crate::camera::CameraID;
use crate::command::{without_clear, GpuCommand, Uniform};
use crate::draw::{
    cleared_nothing, draws_without_clearing, lemma_more_without_clear,
    lemma_recorded_more_goes_on, recorded_more, Draw, RenderCommand, RenderCommandState,
};
use crate::error::{Citro3dError, RenderError};
use crate::material::{uniforms_of, view_commands, RenderMat, Uniforms};
use crate::math::Matrix4;
use crate::mesh::{mesh_layout, BufKind, ExtractedMesh, GpuMesh, MeshVertex};
use crate::pass::{
    draw_call, draw_outcome, indexed_draw_call, indexed_draw_outcome, material_commands,
    program_of, registered_alone, single_registry, single_slice, EntryView, PassView, RenderPass,
    SliceView, VboBuffer,
};
use crate::pipeline::info_of;
use crate::shader::Entrypoint;
use crate::texenv::{CombineFunc, Combiner, Mode, Source, Stage, TexEnv};
use crate::texture::GpuImage;
use crate::world::{ExtractedView, RenderWorld};

verus! {

/// The texture that a mesh wears if its material names none: eight by eight
/// white texels.
pub const BLANK_TEXTURE: u128 = 0x48cefbd5e0f04f7b85a79f5735bd49fc;

/// Draws the meshes of the frame.
pub struct MeshDraw;

/// The first combiner stage of a mesh: the texture, lit by the primary
/// colour of the fragment.
pub open spec fn mesh_stage0() -> TexEnv {
    TexEnv {
        rgb: Combiner {
            source0: Source::Texture0,
            source1: Source::FragmentPrimaryColor,
            source2: Source::PrimaryColor,
            func: CombineFunc::Modulate,
        },
        alpha: Combiner {
            source0: Source::Texture0,
            source1: Source::FragmentPrimaryColor,
            source2: Source::PrimaryColor,
            func: CombineFunc::Replace,
        },
    }
}

/// The second combiner stage of a mesh: the secondary colour of the
/// fragment, added to what the first stage made.
pub open spec fn mesh_stage1() -> TexEnv {
    TexEnv {
        rgb: Combiner {
            source0: Source::Previous,
            source1: Source::FragmentSecondaryColor,
            source2: Source::PrimaryColor,
            func: CombineFunc::Add,
        },
        alpha: Combiner {
            source0: Source::Previous,
            source1: Source::PrimaryColor,
            source2: Source::PrimaryColor,
            func: CombineFunc::Add,
        },
    }
}

/// The texture that a mesh of `material` wears: the one that the material
/// names, or the blank one if it names none; none as long as that texture is
/// not ready.
pub open spec fn texture_for(images: Map<u128, GpuImage>, material: RenderMat) -> Option<
    GpuImage,
> {
    let wanted = match material.base_color_texture {
        Some(id) => id,
        None => AssetId(BLANK_TEXTURE),
    };
    if images.contains_key(wanted.0) {
        Some(images[wanted.0])
    } else {
        None
    }
}

/// The normal map of `material`, if it has one that is ready.
pub open spec fn normal_map_for(images: Map<u128, GpuImage>, material: RenderMat) -> Option<
    GpuImage,
> {
    match material.normal_map_texture {
        Some(id) => if images.contains_key(id.0) {
            Some(images[id.0])
        } else {
            None
        },
        None => None,
    }
}

/// Whether everything that `mesh` is drawn from is ready.
pub open spec fn mesh_is_ready(world: RenderWorld, mesh: ExtractedMesh) -> bool {
    &&& world.meshes@.contains_key(mesh.mesh.0)
    &&& world.materials@.contains_key(mesh.material.0)
    &&& texture_for(world.images@, world.materials@[mesh.material.0]) is Some
}

/// What the driver is asked to do before the draw call of a mesh that is
/// ready. `new_material` says whether the material is another one than that
/// of the mesh before.
pub open spec fn mesh_setup(
    world: RenderWorld,
    uniforms: Uniforms,
    mesh: ExtractedMesh,
    new_material: bool,
) -> Seq<GpuCommand> {
    let material = world.materials@[mesh.material.0];
    let texture = texture_for(world.images@, material)->Some_0;
    seq![GpuCommand::BindTexture { unit: 0, texture: texture.texture() }] + (match normal_map_for(
        world.images@,
        material,
    ) {
        Some(normals) => seq![
            GpuCommand::BindTexture { unit: 1, texture: normals.texture() },
            GpuCommand::BindNormalMap { unit: 1 },
        ],
        None => seq![GpuCommand::UnbindNormalMap],
    }) + seq![
        GpuCommand::ConfigureTexEnv { stage: 0, env: mesh_stage0() },
        GpuCommand::ConfigureTexEnv { stage: 1, env: mesh_stage1() },
    ] + (if new_material {
        material_commands(material.lighting)
    } else {
        Seq::empty()
    }) + seq![
        GpuCommand::BindVertexUniform {
            index: uniforms.model_matrix,
            value: Uniform::Matrix(mesh.transform.to_gpu()),
        },
        GpuCommand::SetAttrInfo { layout: info_of(mesh_layout()) },
    ]
}

/// What a registry knows of the vertices of `mesh`.
pub open spec fn mesh_entry(mesh: GpuMesh) -> EntryView {
    EntryView {
        buffer: mesh.vert_buf.id(),
        stride: size_of::<MeshVertex>(),
        len: mesh.vert_buf@.len(),
        layout: mesh_layout(),
    }
}

/// The draw call of `mesh`, drawn by the handle `slice`.
pub open spec fn mesh_draw_call(mesh: GpuMesh, slice: SliceView) -> GpuCommand {
    match mesh.indices {
        BufKind::Array => draw_call(mesh.prim_kind, slice),
        BufKind::Elements { index_buf } => indexed_draw_call(
            mesh.prim_kind,
            slice,
            index_buf.id(),
            index_buf@.len(),
        ),
    }
}

/// A pass and whether all went well.
pub struct Issued {
    pub pass: PassView,
    pub result: Result<(), RenderError>,
}

/// What issuing `mesh` does to a pass that is set up for it: a registry of
/// its own is made for the mesh and registers its vertices, and then the
/// mesh is drawn. A frame that can count no more registries refuses the
/// registration, and a draw call that cannot go ahead fails after the
/// registration.
pub open spec fn mesh_issued(world: RenderWorld, mesh: GpuMesh, pass: PassView) -> Issued {
    if pass.registries == u64::MAX {
        Issued { pass, result: Err(RenderError::Citro3d(Citro3dError::TooManyBuffers)) }
    } else {
        let entry = mesh_entry(mesh);
        let slice = single_slice(pass, entry);
        let registry = single_registry(pass, entry);
        let registered = registered_alone(pass, entry);
        let outcome = match mesh.indices {
            BufKind::Array => draw_outcome(registered, slice, registry, world.pool),
            BufKind::Elements { index_buf } => indexed_draw_outcome(
                registered,
                slice,
                registry,
                index_buf.id(),
                world.pool,
            ),
        };
        Issued {
            pass: if outcome is Ok {
                registered.with(seq![mesh_draw_call(mesh, slice)])
            } else {
                registered
            },
            result: outcome,
        }
    }
}

/// The state of the mesh pass after one mesh: the pass, the material that
/// was handed to the lighting unit last, and whether all went well.
pub struct MeshProgress {
    pub pass: PassView,
    pub material: Option<AssetId>,
    pub result: Result<(), RenderError>,
}

/// What one mesh does to the pass.
///
/// A mesh that camera `cam` does not show does nothing. One that it shows
/// but that is not ready is passed over for this frame: it records nothing
/// and leaves no trace. One that is ready records its setup, with its
/// material if that is another one than was handed over last, and is issued.
pub open spec fn mesh_step(
    world: RenderWorld,
    uniforms: Uniforms,
    cam: CameraID,
    mesh: ExtractedMesh,
    pass: PassView,
    material: Option<AssetId>,
) -> MeshProgress {
    if !mesh.render_on.renders_in(cam) || !mesh_is_ready(world, mesh) {
        MeshProgress { pass, material, result: Ok(()) }
    } else {
        let new_material = material != Some(mesh.material);
        let set_up = (PassView { layout: Some(mesh_layout()), ..pass }).with(
            mesh_setup(world, uniforms, mesh, new_material),
        );
        let issued = mesh_issued(world, world.meshes@[mesh.mesh.0], set_up);
        MeshProgress { pass: issued.pass, material: Some(mesh.material), result: issued.result }
    }
}

/// What the meshes `meshes` do to the pass, one after the other, until one
/// fails.
pub open spec fn mesh_steps(
    world: RenderWorld,
    uniforms: Uniforms,
    cam: CameraID,
    meshes: Seq<ExtractedMesh>,
    pass: PassView,
    material: Option<AssetId>,
) -> MeshProgress
    decreases meshes.len(),
{
    if meshes.len() == 0 {
        MeshProgress { pass, material, result: Ok(()) }
    } else {
        let first = mesh_step(world, uniforms, cam, meshes[0], pass, material);
        if first.result is Err {
            first
        } else {
            mesh_steps(world, uniforms, cam, meshes.drop_first(), first.pass, first.material)
        }
    }
}

/// What drawing the meshes of `world` does to a pass.
///
/// The mesh shader is bound at its first entry point; if that cannot be
/// done, nothing happens. Without one of the uniforms nothing more happens.
/// Else the view is handed to the shader and the meshes are drawn in their
/// order.
pub open spec fn meshes_rendered(
    world: RenderWorld,
    before: PassView,
    view: ExtractedView,
    cam: CameraID,
    after: PassView,
    r: Result<(), RenderError>,
) -> bool {
    let shader = world.mesh_shader;
    match program_of(shader, 0) {
        Err(e) => after == before && r == Err::<(), RenderError>(e),
        Ok(entry) => {
            let bound = (PassView { shader: Some(entry), ..before }).with(
                seq![GpuCommand::BindProgram { entry }],
            );
            match uniforms_of(shader.uniforms()) {
                None => after == bound && r == Err::<(), RenderError>(
                    RenderError::Citro3d(Citro3dError::NotFound),
                ),
                Some(uniforms) => {
                    let end = mesh_steps(
                        world,
                        uniforms,
                        cam,
                        world.extracted_meshes.extracted@,
                        bound.with(view_commands(uniforms, view)),
                        None,
                    );
                    after == end.pass && r == end.result
                },
            }
        },
    }
}

impl MeshDraw {
    fn stage0() -> (env: TexEnv)
        ensures
            env == mesh_stage0(),
    {
        TexEnv::new().src(
            Mode::BOTH,
            Source::Texture0,
            Some(Source::FragmentPrimaryColor),
            None,
        ).func(Mode::RGB, CombineFunc::Modulate)
    }

    fn stage1() -> (env: TexEnv)
        ensures
            env == mesh_stage1(),
    {
        TexEnv::new().src(
            Mode::RGB,
            Source::Previous,
            Some(Source::FragmentSecondaryColor),
            None,
        ).func(Mode::BOTH, CombineFunc::Add)
    }

    /// The texture that a mesh of `material` wears.
    fn texture<'a>(world: &'a RenderWorld, material: &RenderMat) -> (texture: Option<&'a GpuImage>)
        ensures
            texture == (match texture_for(world.images@, *material) {
                Some(image) => Some(&image),
                None => None,
            }),
    {
        let wanted = match material.base_color_texture {
            Some(id) => id,
            None => AssetId(BLANK_TEXTURE),
        };
        world.images.get(wanted)
    }

    /// The normal map of `material`.
    fn normal_map<'a>(world: &'a RenderWorld, material: &RenderMat) -> (normals: Option<
        &'a GpuImage,
    >)
        ensures
            normals == (match normal_map_for(world.images@, *material) {
                Some(image) => Some(&image),
                None => None,
            }),
    {
        match material.normal_map_texture {
            Some(id) => world.images.get(id),
            None => None,
        }
    }

    /// Records what comes before the draw call of a mesh.
    fn set_up(
        world: &RenderWorld,
        uniforms: &Uniforms,
        extracted: &ExtractedMesh,
        material: &RenderMat,
        texture: &GpuImage,
        new_material: bool,
        pass: &mut RenderPass,
    )
        requires
            old(pass).wf(),
            world.materials@.contains_key(extracted.material.0),
            *material == world.materials@[extracted.material.0],
            texture_for(world.images@, *material) == Some(*texture),
        ensures
            final(pass).wf(),
            final(pass)@ == (PassView { layout: Some(mesh_layout()), ..old(pass)@ }).with(
                mesh_setup(*world, *uniforms, *extracted, new_material),
            ),
    {
        let ghost start = pass@;
        let bound = pass.bind_texture(0, texture);
        let ghost mut recorded = seq![
            GpuCommand::BindTexture { unit: 0, texture: texture.texture() },
        ];
        assert(pass@.commands =~= start.commands + recorded);
        match Self::normal_map(world, material) {
            Some(normals) => {
                let bound = pass.bind_texture(1, normals);
                let mapped = pass.bind_normal_map(1);
                proof {
                    recorded = recorded + seq![
                        GpuCommand::BindTexture { unit: 1, texture: normals.texture() },
                        GpuCommand::BindNormalMap { unit: 1 },
                    ];
                    assert(pass@.commands =~= start.commands + recorded);
                }
            },
            None => {
                pass.unbind_normal_map();
                proof {
                    recorded = recorded + seq![GpuCommand::UnbindNormalMap];
                    assert(pass@.commands =~= start.commands + recorded);
                }
            },
        }
        pass.configure_texenv(Stage::new(0).unwrap(), Self::stage0());
        pass.configure_texenv(Stage::new(1).unwrap(), Self::stage1());
        proof {
            recorded = recorded + seq![
                GpuCommand::ConfigureTexEnv { stage: 0, env: mesh_stage0() },
                GpuCommand::ConfigureTexEnv { stage: 1, env: mesh_stage1() },
            ];
            assert(pass@.commands =~= start.commands + recorded);
        }
        if new_material {
            pass.set_lighting_material(&material.lighting);
            proof {
                recorded = recorded + material_commands(material.lighting);
                assert(pass@.commands =~= start.commands + recorded);
            }
        } else {
            proof {
                recorded = recorded + Seq::<GpuCommand>::empty();
                assert(pass@.commands =~= start.commands + recorded);
            }
        }
        pass.bind_vertex_uniform(
            uniforms.model_matrix,
            Uniform::Matrix(Matrix4::from_mat4(&extracted.transform)),
        );
        let layout = MeshVertex::vert_attrs();
        pass.set_attr_info(&layout);
        proof {
            recorded = recorded + seq![
                GpuCommand::BindVertexUniform {
                    index: uniforms.model_matrix,
                    value: Uniform::Matrix(extracted.transform.to_gpu()),
                },
                GpuCommand::SetAttrInfo { layout: info_of(mesh_layout()) },
            ];
            assert(pass@.commands =~= start.commands + recorded);
            assert(recorded =~= mesh_setup(*world, *uniforms, *extracted, new_material));
        }
    }

    /// Registers the vertices of `mesh` and asks for the draw call.
    fn issue(world: &RenderWorld, mesh: &GpuMesh, pass: &mut RenderPass) -> (r: Result<
        (),
        RenderError,
    >)
        requires
            world.wf(),
            old(pass).wf(),
        ensures
            final(pass).wf(),
            final(pass)@.epoch == old(pass)@.epoch,
            old(pass)@.commands.is_prefix_of(final(pass)@.commands),
            (Issued { pass: final(pass)@, result: r }) == mesh_issued(*world, *mesh, old(pass)@),
    {
        let layout = MeshVertex::vert_attrs();
        let mut registry = VboBuffer::new(pass);
        let slice = match registry.add(pass, &mesh.vert_buf, &layout) {
            Ok(slice) => slice,
            Err(e) => {
                return Err(e);
            },
        };
        let ghost registered = pass@;
        proof {
            assert(old(pass)@.commands.is_prefix_of(registered.commands));
            assert(registered == registered_alone(old(pass)@, mesh_entry(*mesh)));
            assert(slice@ == single_slice(old(pass)@, mesh_entry(*mesh)));
            assert(registry@.entries =~= seq![mesh_entry(*mesh)]);
            assert(registry@ == single_registry(old(pass)@, mesh_entry(*mesh)));
        }
        let r = match &mesh.indices {
            BufKind::Array => pass.draw(mesh.prim_kind, slice, &registry, &world.pool),
            BufKind::Elements { index_buf } => pass.draw_indexed(
                mesh.prim_kind,
                &slice,
                &registry,
                index_buf,
                &world.pool,
            ),
        };
        proof {
            assert(registered.commands.is_prefix_of(pass@.commands));
        }
        r
    }

    /// Draws one mesh.
    fn draw_mesh(
        world: &RenderWorld,
        uniforms: &Uniforms,
        cam: CameraID,
        extracted: &ExtractedMesh,
        pass: &mut RenderPass,
        current: Option<AssetId>,
    ) -> (r: (Option<AssetId>, Result<(), RenderError>))
        requires
            world.wf(),
            old(pass).wf(),
        ensures
            final(pass).wf(),
            final(pass)@.epoch == old(pass)@.epoch,
            old(pass)@.commands.is_prefix_of(final(pass)@.commands),
            (MeshProgress { pass: final(pass)@, material: r.0, result: r.1 }) == mesh_step(
                *world,
                *uniforms,
                cam,
                *extracted,
                old(pass)@,
                current,
            ),
    {
        if !extracted.render_on.should_render_in(cam) {
            return (current, Ok(()));
        }
        let new_material = match current {
            Some(id) => id != extracted.material,
            None => true,
        };
        let mesh = match world.meshes.get(extracted.mesh) {
            Some(mesh) => mesh,
            None => {
                return (current, Ok(()));
            },
        };
        let material = match world.materials.get(extracted.material) {
            Some(material) => material,
            None => {
                return (current, Ok(()));
            },
        };
        let texture = match Self::texture(world, material) {
            Some(texture) => texture,
            None => {
                return (current, Ok(()));
            },
        };
        Self::set_up(world, uniforms, extracted, material, texture, new_material, pass);
        let ghost set_up = pass@;
        let r = Self::issue(world, mesh, pass);
        proof {
            assert(old(pass)@.commands.is_prefix_of(set_up.commands));
            assert(set_up.commands.is_prefix_of(pass@.commands));
        }
        (Some(extracted.material), r)
    }
}

impl RenderCommand for MeshDraw {
    open spec fn rendered(
        world: RenderWorld,
        before: PassView,
        view: ExtractedView,
        cam: CameraID,
        after: PassView,
        r: Result<(), RenderError>,
    ) -> bool {
        meshes_rendered(world, before, view, cam, after, r)
    }

    fn render(world: &RenderWorld, pass: &mut RenderPass, view: &ExtractedView, cam: CameraID) -> (r:
        Result<(), RenderError>) {
        match pass.set_vertex_shader(&world.mesh_shader, 0) {
            Ok(()) => {},
            Err(e) => {
                return Err(e);
            },
        }
        let uniforms = match Uniforms::build(&world.mesh_shader) {
            Ok(uniforms) => uniforms,
            Err(e) => {
                return Err(e);
            },
        };
        uniforms.bind_views(pass, view);
        let ghost start = pass@;
        let meshes = &world.extracted_meshes.extracted;
        let ghost goal = mesh_steps(*world, uniforms, cam, meshes@, start, None);
        assert(old(pass)@.commands.is_prefix_of(start.commands));
        let n: usize = meshes.len();
        let mut current: Option<AssetId> = None;
        let mut i: usize = 0;
        assert(meshes@.subrange(0, n as int) == meshes@);
        while i < n
            invariant
                world.wf(),
                pass.wf(),
                i <= n,
                n == meshes@.len(),
                meshes == &world.extracted_meshes.extracted,
                pass@.epoch == old(pass)@.epoch,
                old(pass)@.commands.is_prefix_of(pass@.commands),
                forall|after: PassView, r: Result<(), RenderError>|
                    after == goal.pass && r == goal.result ==> meshes_rendered(
                        *world,
                        old(pass)@,
                        *view,
                        cam,
                        after,
                        r,
                    ),
                goal == mesh_steps(
                    *world,
                    uniforms,
                    cam,
                    meshes@.subrange(i as int, n as int),
                    pass@,
                    current,
                ),
            decreases n - i,
        {
            let ghost rest = meshes@.subrange(i as int, n as int);
            assert(rest[0] == meshes@[i as int]);
            assert(rest.drop_first() == meshes@.subrange(i + 1, n as int));
            let ghost entered = pass@;
            let (next, r) = Self::draw_mesh(world, &uniforms, cam, &meshes[i], pass, current);
            assert(mesh_steps(*world, uniforms, cam, rest, entered, current) == (if r is Err {
                MeshProgress { pass: pass@, material: next, result: r }
            } else {
                mesh_steps(*world, uniforms, cam, rest.drop_first(), pass@, next)
            }));
            match r {
                Ok(()) => {
                    assert(r->Ok_0 == ());
                },
                Err(e) => {
                    return Err(e);
                },
            }
            current = next;
            i += 1;
        }
        Ok(())
    }
}

/// A mesh that is not ready skips only itself: the meshes behind it are
/// drawn as if it were not there.
pub proof fn lemma_unready_mesh_skips_only_itself(
    world: RenderWorld,
    uniforms: Uniforms,
    cam: CameraID,
    meshes: Seq<ExtractedMesh>,
    pass: PassView,
    material: Option<AssetId>,
)
    requires
        meshes.len() > 0,
        !mesh_is_ready(world, meshes[0]),
    ensures
        mesh_steps(world, uniforms, cam, meshes, pass, material) == mesh_steps(
            world,
            uniforms,
            cam,
            meshes.drop_first(),
            pass,
            material,
        ),
{
}

/// A mesh that is ready is drawn, once: if camera `cam` shows the mesh, all
/// that it is drawn from is ready and its buffers are live, a render target
/// and a shader are in force and the frame can count another registry, then
/// the mesh records its setup, one registration and one draw call, in this
/// order, and succeeds.
pub proof fn lemma_ready_mesh_is_drawn_once(
    world: RenderWorld,
    uniforms: Uniforms,
    cam: CameraID,
    mesh: ExtractedMesh,
    pass: PassView,
    material: Option<AssetId>,
)
    requires
        mesh.render_on.renders_in(cam),
        mesh_is_ready(world, mesh),
        pass.target is Some,
        pass.shader is Some,
        pass.registries < u64::MAX,
        world.pool.holds(world.meshes@[mesh.mesh.0].vert_buf.id()),
        world.meshes@[mesh.mesh.0].indices matches BufKind::Elements { index_buf }
            ==> world.pool.holds(index_buf.id()),
    ensures
        ({
            let gpu_mesh = world.meshes@[mesh.mesh.0];
            let entry = mesh_entry(gpu_mesh);
            let set_up = (PassView { layout: Some(mesh_layout()), ..pass }).with(
                mesh_setup(world, uniforms, mesh, material != Some(mesh.material)),
            );
            let after = mesh_step(world, uniforms, cam, mesh, pass, material);
            &&& after.result is Ok
            &&& after.material == Some(mesh.material)
            &&& after.pass == registered_alone(set_up, entry).with(
                seq![mesh_draw_call(gpu_mesh, single_slice(set_up, entry))],
            )
        }),
{
    let gpu_mesh = world.meshes@[mesh.mesh.0];
    let entry = mesh_entry(gpu_mesh);
    let set_up = (PassView { layout: Some(mesh_layout()), ..pass }).with(
        mesh_setup(world, uniforms, mesh, material != Some(mesh.material)),
    );
    let registry = single_registry(set_up, entry);
    assert(registry.entries[0] == entry);
}

/// A mesh that is not ready does not hold up the mesh behind it. If the
/// first of two meshes is not ready and the second is, the second is drawn
/// as if it were alone: it records its setup, with its material, one
/// registration and one draw call, and all is well.
pub proof fn lemma_mesh_behind_unready_is_drawn(
    world: RenderWorld,
    uniforms: Uniforms,
    cam: CameraID,
    unready: ExtractedMesh,
    ready: ExtractedMesh,
    pass: PassView,
)
    requires
        !mesh_is_ready(world, unready),
        ready.render_on.renders_in(cam),
        mesh_is_ready(world, ready),
        pass.target is Some,
        pass.shader is Some,
        pass.registries < u64::MAX,
        world.pool.holds(world.meshes@[ready.mesh.0].vert_buf.id()),
        world.meshes@[ready.mesh.0].indices matches BufKind::Elements { index_buf }
            ==> world.pool.holds(index_buf.id()),
    ensures
        ({
            let gpu_mesh = world.meshes@[ready.mesh.0];
            let entry = mesh_entry(gpu_mesh);
            let set_up = (PassView { layout: Some(mesh_layout()), ..pass }).with(
                mesh_setup(world, uniforms, ready, true),
            );
            mesh_steps(world, uniforms, cam, seq![unready, ready], pass, None) == (MeshProgress {
                pass: registered_alone(set_up, entry).with(
                    seq![mesh_draw_call(gpu_mesh, single_slice(set_up, entry))],
                ),
                material: Some(ready.material),
                result: Ok(()),
            })
        }),
{
    let both = seq![unready, ready];
    lemma_unready_mesh_skips_only_itself(world, uniforms, cam, both, pass, None);
    assert(both.drop_first() =~= seq![ready]);
    lemma_ready_mesh_is_drawn_once(world, uniforms, cam, ready, pass, None);
    let after = mesh_step(world, uniforms, cam, ready, pass, None);
    assert(seq![ready].drop_first() =~= Seq::<ExtractedMesh>::empty());
    assert(mesh_steps(world, uniforms, cam, seq![ready], pass, None) == mesh_steps(
        world,
        uniforms,
        cam,
        Seq::<ExtractedMesh>::empty(),
        after.pass,
        after.material,
    ));
}

/// A mesh that was passed over is drawn as soon as it is ready. If the mesh
/// shader is in order, a render target is selected and the one mesh of the
/// world is shown by camera `cam`, ready and live, drawing the meshes
/// succeeds, and behind the binding of the shader and of the view it records
/// the setup of the mesh, with its material, one registration and one draw
/// call.
pub proof fn lemma_ready_world_draws_its_mesh(
    world: RenderWorld,
    before: PassView,
    view: ExtractedView,
    cam: CameraID,
    mesh: ExtractedMesh,
    after: PassView,
    r: Result<(), RenderError>,
)
    requires
        meshes_rendered(world, before, view, cam, after, r),
        program_of(world.mesh_shader, 0) is Ok,
        uniforms_of(world.mesh_shader.uniforms()) is Some,
        world.extracted_meshes.extracted@ == seq![mesh],
        mesh.render_on.renders_in(cam),
        mesh_is_ready(world, mesh),
        before.target is Some,
        before.registries < u64::MAX,
        world.pool.holds(world.meshes@[mesh.mesh.0].vert_buf.id()),
        world.meshes@[mesh.mesh.0].indices matches BufKind::Elements { index_buf }
            ==> world.pool.holds(index_buf.id()),
    ensures
        ({
            let uniforms = uniforms_of(world.mesh_shader.uniforms())->Some_0;
            let entry = Entrypoint { library: world.mesh_shader.library(), index: 0 };
            let seen = (PassView { shader: Some(entry), ..before }).with(
                seq![GpuCommand::BindProgram { entry }],
            ).with(view_commands(uniforms, view));
            let set_up = (PassView { layout: Some(mesh_layout()), ..seen }).with(
                mesh_setup(world, uniforms, mesh, true),
            );
            let gpu_mesh = world.meshes@[mesh.mesh.0];
            &&& r is Ok
            &&& after == registered_alone(set_up, mesh_entry(gpu_mesh)).with(
                seq![mesh_draw_call(gpu_mesh, single_slice(set_up, mesh_entry(gpu_mesh)))],
            )
        }),
{
    let uniforms = uniforms_of(world.mesh_shader.uniforms())->Some_0;
    let entry = Entrypoint { library: world.mesh_shader.library(), index: 0 };
    let seen = (PassView { shader: Some(entry), ..before }).with(
        seq![GpuCommand::BindProgram { entry }],
    ).with(view_commands(uniforms, view));
    lemma_ready_mesh_is_drawn_once(world, uniforms, cam, mesh, seen, None);
    let first = mesh_step(world, uniforms, cam, mesh, seen, None);
    assert(seq![mesh].drop_first() =~= Seq::<ExtractedMesh>::empty());
    assert(mesh_steps(world, uniforms, cam, seq![mesh], seen, None) == mesh_steps(
        world,
        uniforms,
        cam,
        Seq::<ExtractedMesh>::empty(),
        first.pass,
        first.material,
    ));
}

/// Meshes that are not ready are passed over: if none of the meshes that
/// camera `cam` shows is ready, drawing the meshes succeeds and records
/// nothing, whatever the pass was. The meshes themselves stay as they are,
/// so each is tried again in the next frame.
pub proof fn lemma_unready_meshes_are_skipped(
    world: RenderWorld,
    uniforms: Uniforms,
    cam: CameraID,
    meshes: Seq<ExtractedMesh>,
    pass: PassView,
    material: Option<AssetId>,
)
    requires
        forall|i: int|
            0 <= i < meshes.len() && (#[trigger] meshes[i]).render_on.renders_in(cam)
                ==> !mesh_is_ready(world, meshes[i]),
    ensures
        mesh_steps(world, uniforms, cam, meshes, pass, material).result is Ok,
        mesh_steps(world, uniforms, cam, meshes, pass, material).pass == pass,
        mesh_steps(world, uniforms, cam, meshes, pass, material).material == material,
    decreases meshes.len(),
{
    if meshes.len() > 0 {
        let first = mesh_step(world, uniforms, cam, meshes[0], pass, material);
        assert(first.pass == pass);
        assert forall|i: int|
            0 <= i < meshes.drop_first().len() && (#[trigger] meshes.drop_first()[i]).render_on.renders_in(
                cam,
            ) implies !mesh_is_ready(world, meshes.drop_first()[i]) by {
            assert(meshes.drop_first()[i] == meshes[i + 1]);
        }
        lemma_unready_meshes_are_skipped(
            world,
            uniforms,
            cam,
            meshes.drop_first(),
            first.pass,
            first.material,
        );
    }
}

/// A frame in which nothing is ready draws nothing, and is no failure: if
/// the mesh shader is in order and none of the meshes that camera `cam`
/// shows is ready, drawing the meshes succeeds, and all that is recorded is
/// the binding of the shader and of the view.
pub proof fn lemma_unready_world_draws_nothing(
    world: RenderWorld,
    before: PassView,
    view: ExtractedView,
    cam: CameraID,
    after: PassView,
    r: Result<(), RenderError>,
)
    requires
        meshes_rendered(world, before, view, cam, after, r),
        program_of(world.mesh_shader, 0) is Ok,
        uniforms_of(world.mesh_shader.uniforms()) is Some,
        forall|i: int|
            0 <= i < world.extracted_meshes.extracted@.len() && (
            #[trigger] world.extracted_meshes.extracted@[i]).render_on.renders_in(cam)
                ==> !mesh_is_ready(world, world.extracted_meshes.extracted@[i]),
    ensures
        r is Ok,
        after.commands == before.commands + seq![
            GpuCommand::BindProgram {
                entry: Entrypoint { library: world.mesh_shader.library(), index: 0 },
            },
        ] + view_commands(uniforms_of(world.mesh_shader.uniforms())->Some_0, view),
{
    let uniforms = uniforms_of(world.mesh_shader.uniforms())->Some_0;
    let entry = Entrypoint { library: world.mesh_shader.library(), index: 0 };
    let bound = (PassView { shader: Some(entry), ..before }).with(
        seq![GpuCommand::BindProgram { entry }],
    );
    lemma_unready_meshes_are_skipped(
        world,
        uniforms,
        cam,
        world.extracted_meshes.extracted@,
        bound.with(view_commands(uniforms, view)),
        None,
    );
}

proof fn lemma_setup_is_without_clear(
    world: RenderWorld,
    uniforms: Uniforms,
    mesh: ExtractedMesh,
    new_material: bool,
)
    ensures
        without_clear(mesh_setup(world, uniforms, mesh, new_material)),
{
    let material = world.materials@[mesh.material.0];
    let lighting = material_commands(material.lighting);
    assert(without_clear(lighting)) by {
        assert forall|i: int| 0 <= i < lighting.len() implies !(#[trigger] lighting[i]).is_clear() by {
            if 1 <= i < lighting.len() - 1 {
                assert(lighting[i] is BindLightLut);
            }
        }
    }
    let setup = mesh_setup(world, uniforms, mesh, new_material);
    let texture = texture_for(world.images@, material)->Some_0;
    let first = seq![GpuCommand::BindTexture { unit: 0, texture: texture.texture() }] + (
    match normal_map_for(world.images@, material) {
        Some(normals) => seq![
            GpuCommand::BindTexture { unit: 1, texture: normals.texture() },
            GpuCommand::BindNormalMap { unit: 1 },
        ],
        None => seq![GpuCommand::UnbindNormalMap],
    }) + seq![
        GpuCommand::ConfigureTexEnv { stage: 0, env: mesh_stage0() },
        GpuCommand::ConfigureTexEnv { stage: 1, env: mesh_stage1() },
    ];
    let middle = if new_material {
        lighting
    } else {
        Seq::empty()
    };
    let last = seq![
        GpuCommand::BindVertexUniform {
            index: uniforms.model_matrix,
            value: Uniform::Matrix(mesh.transform.to_gpu()),
        },
        GpuCommand::SetAttrInfo { layout: info_of(mesh_layout()) },
    ];
    assert(setup == first + middle + last);
    assert(without_clear(first));
    assert(without_clear(middle));
    assert(without_clear(last));
    assert forall|i: int| 0 <= i < setup.len() implies !(#[trigger] setup[i]).is_clear() by {
        if i < first.len() {
            assert(setup[i] == first[i]);
        } else if i < first.len() + middle.len() {
            assert(setup[i] == middle[i - first.len()]);
        } else {
            assert(setup[i] == last[i - first.len() - middle.len()]);
        }
    }
}

proof fn lemma_mesh_step_clears_nothing(
    world: RenderWorld,
    uniforms: Uniforms,
    cam: CameraID,
    mesh: ExtractedMesh,
    pass: PassView,
    material: Option<AssetId>,
)
    ensures
        recorded_more(pass, mesh_step(world, uniforms, cam, mesh, pass, material).pass),
        cleared_nothing(pass, mesh_step(world, uniforms, cam, mesh, pass, material).pass),
{
    let after = mesh_step(world, uniforms, cam, mesh, pass, material).pass;
    if !mesh.render_on.renders_in(cam) || !mesh_is_ready(world, mesh) {
        lemma_more_without_clear(pass, Seq::empty(), after);
    } else {
        let setup = mesh_setup(world, uniforms, mesh, material != Some(mesh.material));
        let set_up = (PassView { layout: Some(mesh_layout()), ..pass }).with(setup);
        lemma_setup_is_without_clear(world, uniforms, mesh, material != Some(mesh.material));
        lemma_more_without_clear(pass, setup, set_up);
        let gpu_mesh = world.meshes@[mesh.mesh.0];
        let entry = mesh_entry(gpu_mesh);
        let registered = registered_alone(set_up, entry);
        let drawn = registered.with(seq![mesh_draw_call(gpu_mesh, single_slice(set_up, entry))]);
        if set_up.registries < u64::MAX {
            let entered = seq![registered.commands.last()];
            assert(registered.commands =~= set_up.commands + entered);
            lemma_more_without_clear(set_up, entered, registered);
            lemma_more_without_clear(
                registered,
                seq![mesh_draw_call(gpu_mesh, single_slice(set_up, entry))],
                drawn,
            );
            lemma_recorded_more_goes_on(pass, set_up, registered);
            lemma_recorded_more_goes_on(pass, registered, drawn);
        }
    }
}

proof fn lemma_mesh_steps_clear_nothing(
    world: RenderWorld,
    uniforms: Uniforms,
    cam: CameraID,
    meshes: Seq<ExtractedMesh>,
    pass: PassView,
    material: Option<AssetId>,
)
    ensures
        recorded_more(pass, mesh_steps(world, uniforms, cam, meshes, pass, material).pass),
        cleared_nothing(pass, mesh_steps(world, uniforms, cam, meshes, pass, material).pass),
    decreases meshes.len(),
{
    if meshes.len() == 0 {
        lemma_more_without_clear(pass, Seq::empty(), pass);
    } else {
        let first = mesh_step(world, uniforms, cam, meshes[0], pass, material);
        lemma_mesh_step_clears_nothing(world, uniforms, cam, meshes[0], pass, material);
        if first.result is Ok {
            lemma_mesh_steps_clear_nothing(
                world,
                uniforms,
                cam,
                meshes.drop_first(),
                first.pass,
                first.material,
            );
            lemma_recorded_more_goes_on(
                pass,
                first.pass,
                mesh_steps(world, uniforms, cam, meshes, pass, material).pass,
            );
        }
    }
}

/// Drawing the meshes clears no render target: whatever is recorded, it is
/// recorded behind what the pass held, and none of it is a clear.
pub proof fn lemma_meshes_clear_nothing(
    world: RenderWorld,
    before: PassView,
    view: ExtractedView,
    cam: CameraID,
    after: PassView,
    r: Result<(), RenderError>,
)
    requires
        meshes_rendered(world, before, view, cam, after, r),
    ensures
        recorded_more(before, after),
        cleared_nothing(before, after),
{
    match program_of(world.mesh_shader, 0) {
        Err(_) => {
            lemma_more_without_clear(before, Seq::empty(), after);
        },
        Ok(entry) => {
            let bound = (PassView { shader: Some(entry), ..before }).with(
                seq![GpuCommand::BindProgram { entry }],
            );
            lemma_more_without_clear(before, seq![GpuCommand::BindProgram { entry }], bound);
            match uniforms_of(world.mesh_shader.uniforms()) {
                None => {},
                Some(uniforms) => {
                    let seen = bound.with(view_commands(uniforms, view));
                    lemma_more_without_clear(bound, view_commands(uniforms, view), seen);
                    lemma_recorded_more_goes_on(before, bound, seen);
                    lemma_mesh_steps_clear_nothing(
                        world,
                        uniforms,
                        cam,
                        world.extracted_meshes.extracted@,
                        seen,
                        None,
                    );
                    lemma_recorded_more_goes_on(before, seen, after);
                },
            }
        },
    }
}

/// The render command of the meshes draws without clearing a render target.
pub proof fn lemma_mesh_draw_clears_nothing()
    ensures
        draws_without_clearing::<RenderCommandState<MeshDraw>>(),
{
    assert forall|
        before: RenderCommandState<MeshDraw>,
        world: RenderWorld,
        pass_before: PassView,
        view: ExtractedView,
        cam: CameraID,
        after: RenderCommandState<MeshDraw>,
        pass_after: PassView,
        r: Result<(), RenderError>,
    |
        recorded_more(pass_before, pass_after) && #[trigger] RenderCommandState::<MeshDraw>::drew(
            before,
            world,
            pass_before,
            view,
            cam,
            after,
            pass_after,
            r,
        ) implies cleared_nothing(pass_before, pass_after) by {
        lemma_meshes_clear_nothing(world, pass_before, view, cam, pass_after, r);
    }
}

} // verus!
