//! The render command that draws sprites.

use vstd::prelude::*;
use vstd::layout::size_of;
use crate::camera::CameraID;
use crate::command::{without_clear, GpuCommand, Primitive, Uniform};
use crate::draw::{
    cleared_nothing, draws_without_clearing, lemma_more_without_clear,
    lemma_recorded_more_goes_on, recorded_more, Draw, RenderCommand, RenderCommandState,
};
use crate::error::{Citro3dError, RenderError};
use crate::material::{material_uniform_commands, uniforms_of, view_commands, Uniforms};
use crate::math::Matrix4;
use crate::pass::{
    draw_call, draw_outcome, program_of, registered_alone, single_registry, single_slice,
    EntryView, PassView, RenderPass, VboBuffer,
};
use crate::pipeline::info_of;
use crate::sprite::{sprite_layout, SpriteBatch, SpriteInstance, Vertex};
use crate::texenv::{CombineFunc, Combiner, Mode, Source, Stage, TexEnv};
use crate::world::{ExtractedView, RenderWorld};

verus! {

/// Draws the sprites of the frame.
pub struct DrawSprites;

/// The combiner stage of a sprite: nothing but `source`.
pub open spec fn sprite_stage(source: Source) -> TexEnv {
    let only = Combiner {
        source0: source,
        source1: Source::PrimaryColor,
        source2: Source::PrimaryColor,
        func: CombineFunc::Replace,
    };
    TexEnv { rgb: only, alpha: only }
}

/// What the driver is asked to do before the sprites of `batch`: with the
/// image of the batch ready, the image is bound and shown; without, the
/// sprites show their own colour.
pub open spec fn batch_setup(world: RenderWorld, batch: SpriteBatch) -> Seq<GpuCommand> {
    if world.images@.contains_key(batch.image.0) {
        seq![
            GpuCommand::BindTexture { unit: 0, texture: world.images@[batch.image.0].texture() },
            GpuCommand::ConfigureTexEnv { stage: 0, env: sprite_stage(Source::Texture0) },
        ]
    } else {
        seq![GpuCommand::ConfigureTexEnv { stage: 0, env: sprite_stage(Source::PrimaryColor) }]
    }
}

/// What the driver is asked to do before the draw call of `sprite`.
pub open spec fn sprite_setup(uniforms: Uniforms, sprite: SpriteInstance) -> Seq<GpuCommand> {
    material_uniform_commands(sprite.mat, uniforms) + seq![
        GpuCommand::BindVertexUniform {
            index: uniforms.model_matrix,
            value: Uniform::Matrix(sprite.transform.to_gpu()),
        },
        GpuCommand::SetAttrInfo { layout: info_of(sprite_layout()) },
    ]
}

/// What a registry knows of the corners of `sprite`.
pub open spec fn sprite_entry(sprite: SpriteInstance) -> EntryView {
    EntryView {
        buffer: sprite.verts.id(),
        stride: size_of::<Vertex>(),
        len: sprite.verts@.len(),
        layout: sprite_layout(),
    }
}

/// The sprite pass after a sprite or a batch: the pass, and whether all
/// went well.
pub struct SpriteProgress {
    pub pass: PassView,
    pub result: Result<(), RenderError>,
}

/// What one sprite does to the pass: it records its setup, a registry of its
/// own is made for it and registers its corners, and then it is drawn as a
/// fan. A frame that can count no more registries refuses the registration,
/// and a draw call that cannot go ahead fails after the registration.
pub open spec fn sprite_step(
    world: RenderWorld,
    uniforms: Uniforms,
    sprite: SpriteInstance,
    pass: PassView,
) -> SpriteProgress {
    let set_up = (PassView { layout: Some(sprite_layout()), ..pass }).with(
        sprite_setup(uniforms, sprite),
    );
    if set_up.registries == u64::MAX {
        SpriteProgress {
            pass: set_up,
            result: Err(RenderError::Citro3d(Citro3dError::TooManyBuffers)),
        }
    } else {
        let entry = sprite_entry(sprite);
        let slice = single_slice(set_up, entry);
        let registered = registered_alone(set_up, entry);
        let outcome = draw_outcome(
            registered,
            slice,
            single_registry(set_up, entry),
            world.pool,
        );
        SpriteProgress {
            pass: if outcome is Ok {
                registered.with(seq![draw_call(Primitive::TriangleFan, slice)])
            } else {
                registered
            },
            result: outcome,
        }
    }
}

/// What `sprites` do to the pass, one after the other, until one fails.
pub open spec fn sprite_steps(
    world: RenderWorld,
    uniforms: Uniforms,
    sprites: Seq<SpriteInstance>,
    pass: PassView,
) -> SpriteProgress
    decreases sprites.len(),
{
    if sprites.len() == 0 {
        SpriteProgress { pass, result: Ok(()) }
    } else {
        let first = sprite_step(world, uniforms, sprites[0], pass);
        if first.result is Err {
            first
        } else {
            sprite_steps(world, uniforms, sprites.drop_first(), first.pass)
        }
    }
}

/// What `batches` do to the pass, one after the other, until a sprite
/// fails: each records its setup and then draws its sprites.
pub open spec fn batch_steps(
    world: RenderWorld,
    uniforms: Uniforms,
    batches: Seq<SpriteBatch>,
    pass: PassView,
) -> SpriteProgress
    decreases batches.len(),
{
    if batches.len() == 0 {
        SpriteProgress { pass, result: Ok(()) }
    } else {
        let first = sprite_steps(
            world,
            uniforms,
            batches[0].sprites@,
            pass.with(batch_setup(world, batches[0])),
        );
        if first.result is Err {
            first
        } else {
            batch_steps(world, uniforms, batches.drop_first(), first.pass)
        }
    }
}

/// What drawing the sprites of `world` does to a pass.
///
/// The sprite shader is bound at its first entry point; if that cannot be
/// done, nothing happens. Without one of the uniforms nothing more happens.
/// Else the view is handed to the shader and the batches are drawn in their
/// order.
pub open spec fn sprites_rendered(
    world: RenderWorld,
    before: PassView,
    view: ExtractedView,
    after: PassView,
    r: Result<(), RenderError>,
) -> bool {
    let shader = world.sprite_shader;
    match program_of(shader, 0) {
        Err(e) => after == before && r == Err::<(), RenderError>(e),
        Ok(entry) => {
            let bound = (PassView { shader: Some(entry), ..before }).with(
                seq![GpuCommand::BindProgram { entry }],
            );
            match uniforms_of(shader.uniforms()) {
                None => after == bound && r == Err::<(), RenderError>(
                    RenderError::Citro3d(Citro3dError::NotFound),
                ),
                Some(uniforms) => {
                    let end = batch_steps(
                        world,
                        uniforms,
                        world.sprites.batches@,
                        bound.with(view_commands(uniforms, view)),
                    );
                    after == end.pass && r == end.result
                },
            }
        },
    }
}

impl DrawSprites {
    fn stage(source: Source) -> (env: TexEnv)
        ensures
            env == sprite_stage(source),
    {
        TexEnv::new().reset().src(Mode::BOTH, source, None, None).func(
            Mode::BOTH,
            CombineFunc::Replace,
        )
    }

    /// Draws one sprite.
    fn draw_sprite(
        world: &RenderWorld,
        uniforms: &Uniforms,
        sprite: &SpriteInstance,
        pass: &mut RenderPass,
    ) -> (r: Result<(), RenderError>)
        requires
            world.wf(),
            old(pass).wf(),
        ensures
            final(pass).wf(),
            final(pass)@.epoch == old(pass)@.epoch,
            old(pass)@.commands.is_prefix_of(final(pass)@.commands),
            (SpriteProgress { pass: final(pass)@, result: r }) == sprite_step(
                *world,
                *uniforms,
                *sprite,
                old(pass)@,
            ),
    {
        let ghost start = pass@;
        sprite.mat.set_uniforms(pass, uniforms);
        pass.bind_vertex_uniform(
            uniforms.model_matrix,
            Uniform::Matrix(Matrix4::from_mat4(&sprite.transform)),
        );
        let layout = Vertex::vert_attrs();
        pass.set_attr_info(&layout);
        let ghost set_up = pass@;
        proof {
            assert(set_up.commands =~= start.commands + sprite_setup(*uniforms, *sprite));
            assert(start.commands.is_prefix_of(set_up.commands));
        }
        let mut registry = VboBuffer::new(pass);
        let slice = match registry.add(pass, &sprite.verts, &layout) {
            Ok(slice) => slice,
            Err(e) => {
                return Err(e);
            },
        };
        let ghost registered = pass@;
        proof {
            assert(set_up.commands.is_prefix_of(registered.commands));
            assert(registered == registered_alone(set_up, sprite_entry(*sprite)));
            assert(registry@.entries =~= seq![sprite_entry(*sprite)]);
            assert(registry@ == single_registry(set_up, sprite_entry(*sprite)));
        }
        let r = pass.draw(Primitive::TriangleFan, slice, &registry, &world.pool);
        proof {
            assert(registered.commands.is_prefix_of(pass@.commands));
        }
        r
    }

    /// Draws the sprites of one batch.
    fn draw_batch(
        world: &RenderWorld,
        uniforms: &Uniforms,
        batch: &SpriteBatch,
        pass: &mut RenderPass,
    ) -> (r: Result<(), RenderError>)
        requires
            world.wf(),
            old(pass).wf(),
        ensures
            final(pass).wf(),
            final(pass)@.epoch == old(pass)@.epoch,
            old(pass)@.commands.is_prefix_of(final(pass)@.commands),
            (SpriteProgress { pass: final(pass)@, result: r }) == sprite_steps(
                *world,
                *uniforms,
                batch.sprites@,
                old(pass)@.with(batch_setup(*world, *batch)),
            ),
    {
        let ghost entered = pass@;
        match world.images.get(batch.image) {
            Some(image) => {
                let bound = pass.bind_texture(0, image);
                pass.configure_texenv(Stage::new(0).unwrap(), Self::stage(Source::Texture0));
            },
            None => {
                pass.configure_texenv(Stage::new(0).unwrap(), Self::stage(Source::PrimaryColor));
            },
        }
        assert(pass@.commands =~= entered.commands + batch_setup(*world, *batch));
        let ghost start = pass@;
        assert(start == entered.with(batch_setup(*world, *batch)));
        let ghost goal = sprite_steps(*world, *uniforms, batch.sprites@, start);
        let n: usize = batch.sprites.len();
        let mut i: usize = 0;
        assert(batch.sprites@.subrange(0, n as int) == batch.sprites@);
        while i < n
            invariant
                world.wf(),
                pass.wf(),
                i <= n,
                n == batch.sprites@.len(),
                pass@.epoch == old(pass)@.epoch,
                old(pass)@.commands.is_prefix_of(pass@.commands),
                goal == sprite_steps(
                    *world,
                    *uniforms,
                    batch.sprites@,
                    old(pass)@.with(batch_setup(*world, *batch)),
                ),
                goal == sprite_steps(
                    *world,
                    *uniforms,
                    batch.sprites@.subrange(i as int, n as int),
                    pass@,
                ),
            decreases n - i,
        {
            let ghost rest = batch.sprites@.subrange(i as int, n as int);
            assert(rest[0] == batch.sprites@[i as int]);
            assert(rest.drop_first() == batch.sprites@.subrange(i + 1, n as int));
            let ghost at = pass@;
            let r = Self::draw_sprite(world, uniforms, &batch.sprites[i], pass);
            assert(sprite_steps(*world, *uniforms, rest, at) == (if r is Err {
                SpriteProgress { pass: pass@, result: r }
            } else {
                sprite_steps(*world, *uniforms, rest.drop_first(), pass@)
            }));
            match r {
                Ok(()) => {
                    assert(r->Ok_0 == ());
                },
                Err(e) => {
                    return Err(e);
                },
            }
            i += 1;
        }
        Ok(())
    }
}

impl RenderCommand for DrawSprites {
    open spec fn rendered(
        world: RenderWorld,
        before: PassView,
        view: ExtractedView,
        cam: CameraID,
        after: PassView,
        r: Result<(), RenderError>,
    ) -> bool {
        sprites_rendered(world, before, view, after, r)
    }

    fn render(world: &RenderWorld, pass: &mut RenderPass, view: &ExtractedView, cam: CameraID) -> (r:
        Result<(), RenderError>) {
        match pass.set_vertex_shader(&world.sprite_shader, 0) {
            Ok(()) => {},
            Err(e) => {
                return Err(e);
            },
        }
        let uniforms = match Uniforms::build(&world.sprite_shader) {
            Ok(uniforms) => uniforms,
            Err(e) => {
                return Err(e);
            },
        };
        uniforms.bind_views(pass, view);
        let ghost start = pass@;
        let batches = &world.sprites.batches;
        let ghost goal = batch_steps(*world, uniforms, batches@, start);
        assert(old(pass)@.commands.is_prefix_of(start.commands));
        let n: usize = batches.len();
        let mut i: usize = 0;
        assert(batches@.subrange(0, n as int) == batches@);
        while i < n
            invariant
                world.wf(),
                pass.wf(),
                i <= n,
                n == batches@.len(),
                batches == &world.sprites.batches,
                pass@.epoch == old(pass)@.epoch,
                old(pass)@.commands.is_prefix_of(pass@.commands),
                forall|after: PassView, r: Result<(), RenderError>|
                    after == goal.pass && r == goal.result ==> sprites_rendered(
                        *world,
                        old(pass)@,
                        *view,
                        after,
                        r,
                    ),
                goal == batch_steps(
                    *world,
                    uniforms,
                    batches@.subrange(i as int, n as int),
                    pass@,
                ),
            decreases n - i,
        {
            let ghost rest = batches@.subrange(i as int, n as int);
            assert(rest[0] == batches@[i as int]);
            assert(rest.drop_first() == batches@.subrange(i + 1, n as int));
            let ghost at = pass@;
            let r = Self::draw_batch(world, &uniforms, &batches[i], pass);
            assert(batch_steps(*world, uniforms, rest, at) == (if r is Err {
                SpriteProgress { pass: pass@, result: r }
            } else {
                batch_steps(*world, uniforms, rest.drop_first(), pass@)
            }));
            match r {
                Ok(()) => {
                    assert(r->Ok_0 == ());
                },
                Err(e) => {
                    return Err(e);
                },
            }
            i += 1;
        }
        Ok(())
    }
}

proof fn lemma_sprite_step_clears_nothing(
    world: RenderWorld,
    uniforms: Uniforms,
    sprite: SpriteInstance,
    pass: PassView,
)
    ensures
        recorded_more(pass, sprite_step(world, uniforms, sprite, pass).pass),
        cleared_nothing(pass, sprite_step(world, uniforms, sprite, pass).pass),
{
    let setup = sprite_setup(uniforms, sprite);
    let set_up = (PassView { layout: Some(sprite_layout()), ..pass }).with(setup);
    assert(without_clear(setup));
    lemma_more_without_clear(pass, setup, set_up);
    if set_up.registries < u64::MAX {
        let entry = sprite_entry(sprite);
        let registered = registered_alone(set_up, entry);
        let call = seq![draw_call(Primitive::TriangleFan, single_slice(set_up, entry))];
        let drawn = registered.with(call);
        let entered = seq![registered.commands.last()];
        assert(registered.commands =~= set_up.commands + entered);
        lemma_more_without_clear(set_up, entered, registered);
        lemma_more_without_clear(registered, call, drawn);
        lemma_recorded_more_goes_on(pass, set_up, registered);
        lemma_recorded_more_goes_on(pass, registered, drawn);
    }
}

proof fn lemma_sprite_steps_clear_nothing(
    world: RenderWorld,
    uniforms: Uniforms,
    sprites: Seq<SpriteInstance>,
    pass: PassView,
)
    ensures
        recorded_more(pass, sprite_steps(world, uniforms, sprites, pass).pass),
        cleared_nothing(pass, sprite_steps(world, uniforms, sprites, pass).pass),
    decreases sprites.len(),
{
    if sprites.len() == 0 {
        lemma_more_without_clear(pass, Seq::empty(), pass);
    } else {
        let first = sprite_step(world, uniforms, sprites[0], pass);
        lemma_sprite_step_clears_nothing(world, uniforms, sprites[0], pass);
        if first.result is Ok {
            lemma_sprite_steps_clear_nothing(world, uniforms, sprites.drop_first(), first.pass);
            lemma_recorded_more_goes_on(
                pass,
                first.pass,
                sprite_steps(world, uniforms, sprites, pass).pass,
            );
        }
    }
}

proof fn lemma_batch_steps_clear_nothing(
    world: RenderWorld,
    uniforms: Uniforms,
    batches: Seq<SpriteBatch>,
    pass: PassView,
)
    ensures
        recorded_more(pass, batch_steps(world, uniforms, batches, pass).pass),
        cleared_nothing(pass, batch_steps(world, uniforms, batches, pass).pass),
    decreases batches.len(),
{
    if batches.len() == 0 {
        lemma_more_without_clear(pass, Seq::empty(), pass);
    } else {
        let setup = batch_setup(world, batches[0]);
        let set_up = pass.with(setup);
        assert(without_clear(setup));
        lemma_more_without_clear(pass, setup, set_up);
        let first = sprite_steps(world, uniforms, batches[0].sprites@, set_up);
        lemma_sprite_steps_clear_nothing(world, uniforms, batches[0].sprites@, set_up);
        lemma_recorded_more_goes_on(pass, set_up, first.pass);
        if first.result is Ok {
            lemma_batch_steps_clear_nothing(world, uniforms, batches.drop_first(), first.pass);
            lemma_recorded_more_goes_on(
                pass,
                first.pass,
                batch_steps(world, uniforms, batches, pass).pass,
            );
        }
    }
}

/// Drawing the sprites clears no render target: whatever is recorded, it is
/// recorded behind what the pass held, and none of it is a clear.
pub proof fn lemma_sprites_clear_nothing(
    world: RenderWorld,
    before: PassView,
    view: ExtractedView,
    after: PassView,
    r: Result<(), RenderError>,
)
    requires
        sprites_rendered(world, before, view, after, r),
    ensures
        recorded_more(before, after),
        cleared_nothing(before, after),
{
    match program_of(world.sprite_shader, 0) {
        Err(_) => {
            lemma_more_without_clear(before, Seq::empty(), after);
        },
        Ok(entry) => {
            let bound = (PassView { shader: Some(entry), ..before }).with(
                seq![GpuCommand::BindProgram { entry }],
            );
            lemma_more_without_clear(before, seq![GpuCommand::BindProgram { entry }], bound);
            match uniforms_of(world.sprite_shader.uniforms()) {
                None => {},
                Some(uniforms) => {
                    let seen = bound.with(view_commands(uniforms, view));
                    lemma_more_without_clear(bound, view_commands(uniforms, view), seen);
                    lemma_recorded_more_goes_on(before, bound, seen);
                    lemma_batch_steps_clear_nothing(
                        world,
                        uniforms,
                        world.sprites.batches@,
                        seen,
                    );
                    lemma_recorded_more_goes_on(before, seen, after);
                },
            }
        },
    }
}

/// The render command of the sprites draws without clearing a render
/// target.
pub proof fn lemma_sprite_draw_clears_nothing()
    ensures
        draws_without_clearing::<RenderCommandState<DrawSprites>>(),
{
    assert forall|
        before: RenderCommandState<DrawSprites>,
        world: RenderWorld,
        pass_before: PassView,
        view: ExtractedView,
        cam: CameraID,
        after: RenderCommandState<DrawSprites>,
        pass_after: PassView,
        r: Result<(), RenderError>,
    |
        recorded_more(pass_before, pass_after) && #[trigger] RenderCommandState::<
            DrawSprites,
        >::drew(before, world, pass_before, view, cam, after, pass_after, r) implies cleared_nothing(
        pass_before,
        pass_after,
    ) by {
        lemma_sprites_clear_nothing(world, pass_before, view, pass_after, r);
    }
}

} // verus!
