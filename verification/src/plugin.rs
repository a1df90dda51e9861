//! The frame, from its begin to its end.
//!
//! Once per frame the cameras are turned into the views that have to be
//! drawn, one for a screen and two for a screen in depth, and the render
//! commands are run for each of them on its render target, inside one frame
//! of the device.

use vstd::prelude::*;
use crate::camera::{CameraID, On3dsScreen, Side};
use crate::command::GpuCommand;
use crate::draw::{
    cleared_nothing, draws_without_clearing, lemma_run_records_more, ran, recorded_more, Draw,
    DrawCommands,
};
use crate::error::RenderError;
use crate::frame::{frame_started, whole_frame, GpuDevice};
use crate::pass::{light_commands, PassView, RenderPass, Target};
use crate::world::{ExtractedView, RenderWorld};

verus! {

/// A camera of the frame. `F` is what makes the views of the two eyes out of
/// the view of a camera.
pub struct ExtractedCamera<F> {
    pub id: CameraID,
    pub view: ExtractedView,
    /// The screen that the camera draws to; the upper one if none is named.
    pub screen: Option<On3dsScreen<F>>,
}

impl<F> ExtractedCamera<F> {
    /// The screen that the camera draws to.
    pub open spec fn on_screen(self) -> On3dsScreen<F> {
        match self.screen {
            Some(screen) => screen,
            None => On3dsScreen::Top(None),
        }
    }
}

/// One view that has to be drawn: what is seen, by which camera, and the
/// render target it goes to.
#[derive(Debug, Clone, Copy, PartialEq, Eq, Structural)]
pub struct ViewStep {
    /// The place of the render target among the targets of the frame.
    pub target: usize,
    pub cam: CameraID,
    pub view: ExtractedView,
    /// Whether the lights have to be placed anew for this view.
    pub place_lights: bool,
}

/// Whether one of `cameras` draws in depth.
pub open spec fn stereo_in_use<F>(cameras: Seq<ExtractedCamera<F>>) -> bool {
    exists|i: int| 0 <= i < cameras.len() && (#[trigger] cameras[i]).on_screen().in_depth()
}

/// How many views `camera` asks for: two for the upper screen when the
/// frame is drawn in depth, else one.
pub open spec fn step_count<F>(camera: ExtractedCamera<F>, use_3d: bool) -> nat {
    if use_3d && camera.on_screen() is Top {
        2
    } else {
        1
    }
}

/// Whether `steps` are the views that `camera` asks for.
///
/// Without depth a camera asks for its own view on the target of its screen.
/// With depth, a camera of the upper screen asks for a view for each eye:
/// the two views that its way to part the eyes makes of its own view, or
/// twice its own view if it has none, in which case the lights that were
/// placed for the left eye stay for the right one.
pub open spec fn camera_planned<F: Fn(&ExtractedView) -> (ExtractedView, ExtractedView)>(
    camera: ExtractedCamera<F>,
    use_3d: bool,
    steps: Seq<ViewStep>,
) -> bool {
    let screen = camera.on_screen();
    let own = ViewStep {
        target: screen.target_index(None),
        cam: camera.id,
        view: camera.view,
        place_lights: true,
    };
    if !use_3d {
        steps == seq![own]
    } else {
        match screen {
            On3dsScreen::Bottom => steps == seq![own],
            On3dsScreen::Top(None) => steps == seq![
                ViewStep { target: screen.target_index(Some(Side::Left)), ..own },
                ViewStep {
                    target: screen.target_index(Some(Side::Right)),
                    place_lights: false,
                    ..own
                },
            ],
            On3dsScreen::Top(Some(part)) => {
                &&& steps.len() == 2
                &&& call_ensures(part, (&camera.view,), (steps[0].view, steps[1].view))
                &&& steps[0] == (ViewStep {
                    target: screen.target_index(Some(Side::Left)),
                    view: steps[0].view,
                    ..own
                })
                &&& steps[1] == (ViewStep {
                    target: screen.target_index(Some(Side::Right)),
                    view: steps[1].view,
                    ..own
                })
            },
        }
    }
}

/// Whether `steps` are the views that `cameras` ask for, camera after
/// camera.
pub open spec fn views_planned<F: Fn(&ExtractedView) -> (ExtractedView, ExtractedView)>(
    cameras: Seq<ExtractedCamera<F>>,
    use_3d: bool,
    steps: Seq<ViewStep>,
) -> bool
    decreases cameras.len(),
{
    if cameras.len() == 0 {
        steps.len() == 0
    } else {
        let k = step_count(cameras.last(), use_3d);
        &&& steps.len() >= k
        &&& camera_planned(
            cameras.last(),
            use_3d,
            steps.subrange(steps.len() - k, steps.len() as int),
        )
        &&& views_planned(cameras.drop_last(), use_3d, steps.take(steps.len() - k))
    }
}

/// Whether one of `cameras` draws in depth.
pub fn uses_stereo<F>(cameras: &Vec<ExtractedCamera<F>>) -> (use_3d: bool)
    ensures
        use_3d == stereo_in_use(cameras@),
{
    let mut i: usize = 0;
    while i < cameras.len()
        invariant
            i <= cameras.len(),
            forall|j: int| 0 <= j < i ==> !(#[trigger] cameras@[j]).on_screen().in_depth(),
        decreases cameras.len() - i,
    {
        match &cameras[i].screen {
            Some(On3dsScreen::Top(Some(_))) => {
                assert(cameras@[i as int].on_screen().in_depth());
                return true;
            },
            _ => {},
        }
        i += 1;
    }
    false
}

/// The views that `cameras` ask for, camera after camera.
pub fn plan_views<F: Fn(&ExtractedView) -> (ExtractedView, ExtractedView)>(
    cameras: &Vec<ExtractedCamera<F>>,
) -> (steps: Vec<ViewStep>)
    requires
        forall|i: int|
            0 <= i < cameras@.len() ==> ((#[trigger] cameras@[i]).screen matches Some(
                On3dsScreen::Top(Some(part)),
            ) ==> call_requires(part, (&cameras@[i].view,))),
    ensures
        views_planned(cameras@, stereo_in_use(cameras@), steps@),
{
    let use_3d = uses_stereo(cameras);
    let mut steps: Vec<ViewStep> = Vec::new();
    let mut i: usize = 0;
    assert(cameras@.take(0) =~= Seq::empty());
    while i < cameras.len()
        invariant
            i <= cameras.len(),
            use_3d == stereo_in_use(cameras@),
            views_planned(cameras@.take(i as int), use_3d, steps@),
            forall|j: int|
                0 <= j < cameras@.len() ==> ((#[trigger] cameras@[j]).screen matches Some(
                    On3dsScreen::Top(Some(part)),
                ) ==> call_requires(part, (&cameras@[j].view,))),
        decreases cameras.len() - i,
    {
        let camera = &cameras[i];
        let ghost planned = steps@;
        let own = ViewStep { target: 1, cam: camera.id, view: camera.view, place_lights: true };
        assert(cameras@[i as int] == *camera);
        match &camera.screen {
            Some(On3dsScreen::Bottom) => {
                steps.push(ViewStep { target: 0, ..own });
            },
            Some(On3dsScreen::Top(Some(part))) => {
                let (left, right) = part(&camera.view);
                steps.push(ViewStep { target: 1, view: left, ..own });
                steps.push(ViewStep { target: 2, view: right, ..own });
            },
            _ => {
                if use_3d {
                    steps.push(ViewStep { target: 1, ..own });
                    steps.push(ViewStep { target: 2, place_lights: false, ..own });
                } else {
                    steps.push(own);
                }
            },
        }
        proof {
            let upto = cameras@.take(i + 1);
            let k = step_count(*camera, use_3d);
            assert(upto.last() == *camera);
            assert(upto.drop_last() =~= cameras@.take(i as int));
            assert(steps@.len() == planned.len() + k);
            assert(steps@.take(steps@.len() - k) =~= planned);
            let part = steps@.subrange(steps@.len() - k, steps@.len() as int);
            assert(part.len() == k);
            if k == 1 {
                assert(part =~= seq![steps@[planned.len() as int]]);
            } else {
                assert(part =~= seq![
                    steps@[planned.len() as int],
                    steps@[planned.len() as int + 1],
                ]);
            }
            assert(camera_planned(*camera, use_3d, part));
        }
        i += 1;
    }
    assert(cameras@.take(cameras@.len() as int) =~= cameras@);
    steps
}

/// The render targets of a frame: the lower screen, the upper screen or its
/// left picture, and, when the frame is drawn in depth, the right picture of
/// the upper screen. The sizes are those of the screens, in pixels.
pub open spec fn targets_of(use_3d: bool, bottom: (u32, u32), top: (u32, u32)) -> Seq<
    Option<Target>,
> {
    seq![
        Some(Target { index: 0, width: bottom.0, height: bottom.1 }),
        Some(Target { index: 1, width: top.0, height: top.1 }),
        if use_3d {
            Some(Target { index: 2, width: top.0, height: top.1 })
        } else {
            None
        },
    ]
}

/// The render targets of a frame.
pub fn frame_targets(use_3d: bool, bottom: (u32, u32), top: (u32, u32)) -> (targets: Vec<
    Option<Target>,
>)
    ensures
        targets@ == targets_of(use_3d, bottom, top),
{
    let mut targets: Vec<Option<Target>> = Vec::new();
    targets.push(Some(Target { index: 0, width: bottom.0, height: bottom.1 }));
    targets.push(Some(Target { index: 1, width: top.0, height: top.1 }));
    if use_3d {
        targets.push(Some(Target { index: 2, width: top.0, height: top.1 }));
    } else {
        targets.push(None);
    }
    assert(targets@ =~= targets_of(use_3d, bottom, top));
    targets
}

/// What the driver is asked to do to clear the targets that there are, in
/// their order, to `colour`.
pub open spec fn clear_commands(targets: Seq<Option<Target>>, colour: u32) -> Seq<GpuCommand>
    decreases targets.len(),
{
    if targets.len() == 0 {
        Seq::empty()
    } else {
        clear_commands(targets.drop_last(), colour) + (match targets.last() {
            Some(target) => seq![GpuCommand::ClearTarget { target: target.index, colour, depth: 0 }],
            None => Seq::empty(),
        })
    }
}

/// The render target that `step` goes to, if there is one.
pub open spec fn step_target(targets: Seq<Option<Target>>, step: ViewStep) -> Option<Target> {
    if step.target < targets.len() {
        targets[step.target as int]
    } else {
        None
    }
}

/// The pass as the render commands find it for `step`: the target of the
/// step is selected and, if the step asks for it, the lights are placed for
/// its view.
pub open spec fn step_ready(
    world: RenderWorld,
    pass: PassView,
    step: ViewStep,
    target: Target,
) -> PassView {
    (PassView { target: Some(target.index), ..pass }).with(
        seq![GpuCommand::SelectTarget { target: target.index }] + (if step.place_lights {
            light_commands(world.lights.lights@, step.view.camera)
        } else {
            Seq::empty()
        }),
    )
}

/// The render commands and the pass at one point of a frame.
pub ghost struct FrameState<D> {
    pub commands: Seq<D>,
    pub pass: PassView,
}

/// What drawing one view does: without a target for it, nothing but the
/// error that says so; else the target is selected, the lights are placed if
/// asked for, and the render commands run.
pub open spec fn step_rendered<D: Draw>(
    before: FrameState<D>,
    world: RenderWorld,
    targets: Seq<Option<Target>>,
    step: ViewStep,
    after: FrameState<D>,
    r: Result<(), RenderError>,
) -> bool {
    match step_target(targets, step) {
        None => after == before && r == Err::<(), RenderError>(
            RenderError::InvalidRenderTarget { target: step.target },
        ),
        Some(target) => ran(
            before.commands,
            world,
            step_ready(world, before.pass, step, target),
            step.view,
            step.cam,
            after.commands,
            after.pass,
            r,
        ),
    }
}

/// What view `i` of a frame returned, if the frame ended with `failure`
/// after `done` views: the last one failed if the frame did, all before it
/// succeeded.
pub open spec fn step_outcome(failure: Option<RenderError>, i: int, done: int) -> Result<
    (),
    RenderError,
> {
    if i == done - 1 && failure is Some {
        Err(failure->Some_0)
    } else {
        Ok(())
    }
}

/// Whether `states` are the states that a frame went through while `steps`
/// were drawn: the state at the start, and then the state after each view
/// that was drawn.
///
/// The views are drawn in their order. All but the last one drawn succeed.
/// If the last one fails, its error is the failure of the frame and no view
/// after it is drawn. If it succeeds, it is the last view there is.
pub open spec fn frame_trace<D: Draw>(
    world: RenderWorld,
    targets: Seq<Option<Target>>,
    steps: Seq<ViewStep>,
    failure: Option<RenderError>,
    states: Seq<FrameState<D>>,
) -> bool {
    let done = states.len() - 1;
    &&& 0 <= done <= steps.len()
    &&& forall|i: int|
        0 <= i < done ==> step_rendered(
            #[trigger] states[i],
            world,
            targets,
            steps[i],
            states[i + 1],
            step_outcome(failure, i, done),
        )
    &&& failure is None ==> done == steps.len()
    &&& failure is Some ==> done >= 1
}

/// What came of a frame.
pub struct RenderedFrame {
    /// What the driver has to do for the frame, from its begin to its end.
    pub commands: Vec<GpuCommand>,
    /// Why the frame was cut short, if it was.
    pub failure: Option<RenderError>,
}

/// Whether `prepared` and `states` show how the frame `frame` came about:
/// `prepared` are the render commands after they were prepared, `states` the
/// states that the frame went through.
pub open spec fn frame_witness<D: Draw>(
    before: Seq<D>,
    world: RenderWorld,
    epoch: u64,
    targets: Seq<Option<Target>>,
    colour: u32,
    steps: Seq<ViewStep>,
    after: Seq<D>,
    frame: RenderedFrame,
    prepared: Seq<D>,
    states: Seq<FrameState<D>>,
) -> bool {
    &&& prepared.len() == before.len()
    &&& forall|i: int|
        0 <= i < before.len() ==> D::prepared(before[i], world, #[trigger] prepared[i])
    &&& states.len() >= 1
    &&& states[0] == (FrameState {
        commands: prepared,
        pass: PassView {
            epoch,
            target: None,
            shader: None,
            layout: None,
            registries: 0,
            commands: seq![GpuCommand::FrameBegin] + clear_commands(targets, colour),
        },
    })
    &&& frame_trace(world, targets, steps, frame.failure, states)
    &&& states.last().commands == after
    &&& frame.commands@ == states.last().pass.commands.push(GpuCommand::FrameEnd)
}

/// What drawing the frame with number `epoch` does: the render commands are
/// prepared, the targets cleared, and the views drawn in their order, until
/// one fails. What the driver is given is one whole frame.
pub open spec fn frame_rendered<D: Draw>(
    before: Seq<D>,
    world: RenderWorld,
    epoch: u64,
    targets: Seq<Option<Target>>,
    colour: u32,
    steps: Seq<ViewStep>,
    after: Seq<D>,
    frame: RenderedFrame,
) -> bool {
    &&& whole_frame(frame.commands@)
    &&& exists|prepared: Seq<D>, states: Seq<FrameState<D>>|
        frame_witness(before, world, epoch, targets, colour, steps, after, frame, prepared, states)
}

/// Draws one frame: the views `steps`, each on its target out of `targets`,
/// after every target was cleared to `clear_colour`.
///
/// With a frame open on `gpu`, nothing happens. Else the frame that is
/// opened here is ended here, whether or not a view fails.
pub fn render_views<D: Draw>(
    gpu: &mut GpuDevice,
    commands: &mut DrawCommands<D>,
    world: &RenderWorld,
    steps: &Vec<ViewStep>,
    targets: &Vec<Option<Target>>,
    clear_colour: u32,
) -> (r: Result<RenderedFrame, RenderError>)
    requires
        world.wf(),
    ensures
        match r {
            Err(e) => {
                &&& frame_started(*old(gpu), *final(gpu), Err(e))
                &&& final(commands)@ == old(commands)@
            },
            Ok(frame) => {
                &&& !old(gpu).frame_open()
                &&& !final(gpu).frame_open()
                &&& final(gpu).epoch() == old(gpu).epoch() + 1
                &&& frame_rendered(
                    old(commands)@,
                    *world,
                    final(gpu).epoch(),
                    targets@,
                    clear_colour,
                    steps@,
                    final(commands)@,
                    frame,
                )
            },
        },
{
    let frame = match gpu.start_new_frame() {
        Ok(frame) => frame,
        Err(e) => {
            return Err(e);
        },
    };
    let ghost epoch = frame.epoch();
    let mut pass = match RenderPass::new(gpu, frame) {
        Ok(pass) => pass,
        Err(e) => {
            assert(false);
            return Err(e);
        },
    };
    commands.prepare(world);
    let ghost prepared = commands@;
    clear_targets(&mut pass, targets, clear_colour);
    let ghost mut states: Seq<FrameState<D>> = seq![
        FrameState { commands: commands@, pass: pass@ },
    ];
    let mut failure: Option<RenderError> = None;
    let n: usize = steps.len();
    let mut i: usize = 0;
    while i < n && failure.is_none()
        invariant
            world.wf(),
            pass.wf(),
            pass@.epoch == epoch,
            i <= n,
            n == steps@.len(),
            states.len() == i + 1,
            states[0] == (FrameState {
                commands: prepared,
                pass: PassView {
                    epoch,
                    target: None,
                    shader: None,
                    layout: None,
                    registries: 0,
                    commands: seq![GpuCommand::FrameBegin] + clear_commands(
                        targets@,
                        clear_colour,
                    ),
                },
            }),
            states[i as int] == (FrameState { commands: commands@, pass: pass@ }),
            failure is Some ==> i >= 1,
            forall|j: int|
                0 <= j < i ==> step_rendered(
                    #[trigger] states[j],
                    *world,
                    targets@,
                    steps@[j],
                    states[j + 1],
                    step_outcome(failure, j, i as int),
                ),
        decreases n - i + (if failure is None { 1int } else { 0int }),
    {
        let ghost earlier = states;
        let r = draw_view(commands, world, &mut pass, &steps[i], targets);
        proof {
            states = states.push(FrameState { commands: commands@, pass: pass@ });
            assert forall|j: int| 0 <= j < i + 1 implies step_rendered(
                #[trigger] states[j],
                *world,
                targets@,
                steps@[j],
                states[j + 1],
                step_outcome(
                    match r {
                        Ok(_) => None,
                        Err(e) => Some(e),
                    },
                    j,
                    i + 1,
                ),
            ) by {
                if j < i {
                    assert(states[j] == earlier[j]);
                    assert(states[j + 1] == earlier[j + 1]);
                    assert(step_rendered(
                        earlier[j],
                        *world,
                        targets@,
                        steps@[j],
                        earlier[j + 1],
                        step_outcome(None, j, i as int),
                    ));
                } else {
                    assert(states[j] == earlier[i as int]);
                    if r is Ok {
                        assert(r->Ok_0 == ());
                    }
                }
            }
        }
        match r {
            Ok(()) => {},
            Err(e) => {
                failure = Some(e);
            },
        }
        i += 1;
    }
    let ghost end = pass@;
    let frame = pass.finish();
    let record = match gpu.end_frame(frame) {
        Ok(record) => record,
        Err(e) => {
            assert(false);
            return Err(e);
        },
    };
    let rendered = RenderedFrame { commands: record, failure };
    proof {
        assert(frame_trace(*world, targets@, steps@, failure, states));
        assert(frame_witness(
            old(commands)@,
            *world,
            epoch,
            targets@,
            clear_colour,
            steps@,
            commands@,
            rendered,
            prepared,
            states,
        ));
    }
    Ok(rendered)
}

/// Clears every target that there is.
fn clear_targets(pass: &mut RenderPass, targets: &Vec<Option<Target>>, colour: u32)
    requires
        old(pass).wf(),
    ensures
        final(pass).wf(),
        final(pass)@ == old(pass)@.with(clear_commands(targets@, colour)),
{
    let ghost start = pass@;
    let mut i: usize = 0;
    assert(targets@.take(0) =~= Seq::empty());
    assert(start.commands + Seq::<GpuCommand>::empty() =~= start.commands);
    while i < targets.len()
        invariant
            i <= targets.len(),
            pass.wf(),
            pass@ == start.with(clear_commands(targets@.take(i as int), colour)),
        decreases targets.len() - i,
    {
        let ghost upto = targets@.take(i + 1);
        assert(upto.drop_last() =~= targets@.take(i as int));
        assert(upto.last() == targets@[i as int]);
        match &targets[i] {
            Some(target) => {
                pass.clear_render_target(target, colour, 0);
                assert(start.commands + clear_commands(targets@.take(i as int), colour) + seq![
                    GpuCommand::ClearTarget { target: target.index, colour, depth: 0 },
                ] =~= start.commands + clear_commands(upto, colour));
            },
            None => {
                assert(clear_commands(upto, colour) =~= clear_commands(
                    targets@.take(i as int),
                    colour,
                ));
            },
        }
        i += 1;
    }
    assert(targets@.take(targets@.len() as int) =~= targets@);
}

/// Draws one view.
fn draw_view<D: Draw>(
    commands: &mut DrawCommands<D>,
    world: &RenderWorld,
    pass: &mut RenderPass,
    step: &ViewStep,
    targets: &Vec<Option<Target>>,
) -> (r: Result<(), RenderError>)
    requires
        world.wf(),
        old(pass).wf(),
    ensures
        final(pass).wf(),
        final(pass)@.epoch == old(pass)@.epoch,
        step_rendered(
            FrameState { commands: old(commands)@, pass: old(pass)@ },
            *world,
            targets@,
            *step,
            FrameState { commands: final(commands)@, pass: final(pass)@ },
            r,
        ),
{
    if step.target >= targets.len() {
        return Err(RenderError::InvalidRenderTarget { target: step.target });
    }
    let target = match &targets[step.target] {
        Some(target) => target,
        None => {
            return Err(RenderError::InvalidRenderTarget { target: step.target });
        },
    };
    let ghost start = pass@;
    pass.select_render_target(target);
    if step.place_lights {
        pass.set_light_positions(&world.lights.lights, &step.view.camera);
        assert(pass@.commands =~= start.commands + (seq![
            GpuCommand::SelectTarget { target: target.index },
        ] + light_commands(world.lights.lights@, step.view.camera)));
    } else {
        assert(pass@.commands =~= start.commands + (seq![
            GpuCommand::SelectTarget { target: target.index },
        ] + Seq::<GpuCommand>::empty()));
    }
    commands.run(world, pass, &step.view, step.cam)
}

/// Draws one frame of what `cameras` see.
///
/// The frame is drawn in depth if one of the cameras asks for it. The
/// targets are those of [`frame_targets`] for screens of the sizes `bottom`
/// and `top`, the views those of [`plan_views`].
pub fn render_system<D: Draw, F: Fn(&ExtractedView) -> (ExtractedView, ExtractedView)>(
    gpu: &mut GpuDevice,
    commands: &mut DrawCommands<D>,
    world: &RenderWorld,
    cameras: &Vec<ExtractedCamera<F>>,
    bottom: (u32, u32),
    top: (u32, u32),
    clear_colour: u32,
) -> (r: Result<RenderedFrame, RenderError>)
    requires
        world.wf(),
        forall|i: int|
            0 <= i < cameras@.len() ==> ((#[trigger] cameras@[i]).screen matches Some(
                On3dsScreen::Top(Some(part)),
            ) ==> call_requires(part, (&cameras@[i].view,))),
    ensures
        match r {
            Err(e) => {
                &&& frame_started(*old(gpu), *final(gpu), Err(e))
                &&& final(commands)@ == old(commands)@
            },
            Ok(frame) => {
                &&& !old(gpu).frame_open()
                &&& !final(gpu).frame_open()
                &&& final(gpu).epoch() == old(gpu).epoch() + 1
                &&& exists|steps: Seq<ViewStep>|
                    {
                        &&& views_planned(cameras@, stereo_in_use(cameras@), steps)
                        &&& #[trigger] frame_rendered(
                            old(commands)@,
                            *world,
                            final(gpu).epoch(),
                            targets_of(stereo_in_use(cameras@), bottom, top),
                            clear_colour,
                            steps,
                            final(commands)@,
                            frame,
                        )
                    }
            },
        },
{
    if gpu.has_frame_open() {
        return Err(RenderError::FrameAlreadyOpen);
    }
    let use_3d = uses_stereo(cameras);
    let targets = frame_targets(use_3d, bottom, top);
    let steps = plan_views(cameras);
    render_views(gpu, commands, world, &steps, &targets, clear_colour)
}

/// Every target of a frame is cleared once, in the order of the targets:
/// the lower screen, the upper screen or its left picture and, when the
/// frame is drawn in depth, the right picture of the upper screen.
pub proof fn lemma_every_target_is_cleared_once(
    use_3d: bool,
    bottom: (u32, u32),
    top: (u32, u32),
    colour: u32,
)
    ensures
        clear_commands(targets_of(use_3d, bottom, top), colour) == if use_3d {
            seq![
                GpuCommand::ClearTarget { target: 0, colour, depth: 0 },
                GpuCommand::ClearTarget { target: 1, colour, depth: 0 },
                GpuCommand::ClearTarget { target: 2, colour, depth: 0 },
            ]
        } else {
            seq![
                GpuCommand::ClearTarget { target: 0, colour, depth: 0 },
                GpuCommand::ClearTarget { target: 1, colour, depth: 0 },
            ]
        },
{
    let three = targets_of(use_3d, bottom, top);
    let two = three.drop_last();
    let one = two.drop_last();
    assert(one.drop_last() =~= Seq::empty());
    assert(clear_commands(one.drop_last(), colour) =~= Seq::empty());
    assert(clear_commands(one, colour) =~= seq![
        GpuCommand::ClearTarget { target: 0, colour, depth: 0 },
    ]);
    assert(clear_commands(two, colour) =~= seq![
        GpuCommand::ClearTarget { target: 0, colour, depth: 0 },
        GpuCommand::ClearTarget { target: 1, colour, depth: 0 },
    ]);
    if use_3d {
        assert(clear_commands(three, colour) =~= seq![
            GpuCommand::ClearTarget { target: 0, colour, depth: 0 },
            GpuCommand::ClearTarget { target: 1, colour, depth: 0 },
            GpuCommand::ClearTarget { target: 2, colour, depth: 0 },
        ]);
    } else {
        assert(clear_commands(three, colour) =~= clear_commands(two, colour));
    }
}

proof fn lemma_states_record_more<D: Draw>(
    world: RenderWorld,
    targets: Seq<Option<Target>>,
    steps: Seq<ViewStep>,
    failure: Option<RenderError>,
    states: Seq<FrameState<D>>,
    k: int,
)
    requires
        states.len() >= 1,
        frame_trace(world, targets, steps, failure, states),
        0 <= k < states.len(),
    ensures
        recorded_more(states[0].pass, states[k].pass),
        draws_without_clearing::<D>() ==> cleared_nothing(states[0].pass, states[k].pass),
    decreases k,
{
    let start = states[0].pass;
    if k > 0 {
        lemma_states_record_more(world, targets, steps, failure, states, k - 1);
        let (mid, next) = (states[k - 1], states[k]);
        let step = steps[k - 1];
        assert(step_rendered(
            mid,
            world,
            targets,
            step,
            next,
            step_outcome(failure, k - 1, states.len() - 1),
        ));
        match step_target(targets, step) {
            None => {},
            Some(target) => {
                let ready = step_ready(world, mid.pass, step, target);
                lemma_run_records_more(
                    mid.commands,
                    world,
                    ready,
                    step.view,
                    step.cam,
                    next.commands,
                    next.pass,
                    step_outcome(failure, k - 1, states.len() - 1),
                );
                assert(mid.pass.commands.is_prefix_of(ready.commands));
                assert forall|i: int|
                    mid.pass.commands.len() <= i < ready.commands.len() implies !(
                #[trigger] ready.commands[i]).is_clear() by {
                    let j = i - mid.pass.commands.len();
                    if j > 0 {
                        assert(ready.commands[i] == light_commands(
                            world.lights.lights@,
                            step.view.camera,
                        )[j - 1]);
                    }
                }
                assert forall|i: int| 0 <= i < start.commands.len() implies start.commands[i]
                    == next.pass.commands[i] by {
                    assert(start.commands[i] == mid.pass.commands[i]);
                    assert(mid.pass.commands[i] == ready.commands[i]);
                    assert(ready.commands[i] == next.pass.commands[i]);
                }
                assert(start.commands =~= next.pass.commands.subrange(
                    0,
                    start.commands.len() as int,
                ));
                if draws_without_clearing::<D>() {
                    assert forall|i: int|
                        start.commands.len() <= i < next.pass.commands.len() implies !(
                    #[trigger] next.pass.commands[i]).is_clear() by {
                        if i < mid.pass.commands.len() {
                            assert(mid.pass.commands[i] == ready.commands[i]);
                            assert(ready.commands[i] == next.pass.commands[i]);
                        } else if i < ready.commands.len() {
                            assert(ready.commands[i] == next.pass.commands[i]);
                        }
                    }
                }
            },
        }
    } else {
        assert(start.commands.is_prefix_of(start.commands));
    }
}

/// The targets of a frame are cleared before anything else is done in it:
/// the record of the frame begins with the begin of the frame and the
/// clearing of the targets. If the render commands draw without clearing a
/// render target, nothing is cleared after that.
pub proof fn lemma_frame_clears_first<D: Draw>(
    before: Seq<D>,
    world: RenderWorld,
    epoch: u64,
    targets: Seq<Option<Target>>,
    colour: u32,
    steps: Seq<ViewStep>,
    after: Seq<D>,
    frame: RenderedFrame,
)
    requires
        frame_rendered(before, world, epoch, targets, colour, steps, after, frame),
    ensures
        (seq![GpuCommand::FrameBegin] + clear_commands(targets, colour)).is_prefix_of(
            frame.commands@,
        ),
        draws_without_clearing::<D>() ==> forall|i: int|
            1 + clear_commands(targets, colour).len() <= i < frame.commands@.len() ==> !(
            #[trigger] frame.commands@[i]).is_clear(),
{
    let (prepared, states) = choose|prepared: Seq<D>, states: Seq<FrameState<D>>|
        frame_witness(before, world, epoch, targets, colour, steps, after, frame, prepared, states);
    lemma_states_record_more(world, targets, steps, frame.failure, states, states.len() - 1);
    let first = seq![GpuCommand::FrameBegin] + clear_commands(targets, colour);
    let end = states.last().pass.commands;
    assert(states[0].pass.commands == first);
    assert(first =~= frame.commands@.subrange(0, first.len() as int)) by {
        assert forall|i: int| 0 <= i < first.len() implies first[i] == frame.commands@[i] by {
            assert(first[i] == end[i]);
        }
    }
    if draws_without_clearing::<D>() {
        assert forall|i: int| first.len() <= i < frame.commands@.len() implies !(
        #[trigger] frame.commands@[i]).is_clear() by {
            if i < end.len() {
                assert(frame.commands@[i] == end[i]);
            }
        }
    }
}

/// The steps in which a frame is made ready, after the data of the frame was
/// taken from the world and before anything is drawn.
#[derive(Clone, Copy, Debug, PartialEq, Eq, Hash, Structural)]
pub enum RenderSet3ds {
    /// Assets are prepared for the GPU.
    PrepareAssets,
    /// What depends on prepared assets is prepared.
    Prepare,
    /// What is drawn is put together from what was prepared.
    PrepareBindGroups,
}

impl RenderSet3ds {
    /// The place of the step among the steps.
    pub open spec fn position(self) -> nat {
        match self {
            RenderSet3ds::PrepareAssets => 0,
            RenderSet3ds::Prepare => 1,
            RenderSet3ds::PrepareBindGroups => 2,
        }
    }

    /// Whether this step is done before `other` begins.
    pub fn runs_before(self, other: RenderSet3ds) -> (before: bool)
        ensures
            before == (self.position() < other.position()),
    {
        match (self, other) {
            (RenderSet3ds::PrepareAssets, RenderSet3ds::Prepare) => true,
            (RenderSet3ds::PrepareAssets, RenderSet3ds::PrepareBindGroups) => true,
            (RenderSet3ds::Prepare, RenderSet3ds::PrepareBindGroups) => true,
            _ => false,
        }
    }

    /// The steps, in the order in which they are done.
    pub fn chain() -> (steps: Vec<RenderSet3ds>)
        ensures
            steps@.len() == 3,
            forall|i: int| 0 <= i < 3 ==> (#[trigger] steps@[i]).position() == i,
    {
        let mut steps: Vec<RenderSet3ds> = Vec::new();
        steps.push(RenderSet3ds::PrepareAssets);
        steps.push(RenderSet3ds::Prepare);
        steps.push(RenderSet3ds::PrepareBindGroups);
        steps
    }
}

/// How far the plugins of an application have come.
#[derive(Debug, Clone, Copy, PartialEq, Eq, Structural)]
pub enum PluginsState {
    /// Plugins are still being added.
    Adding,
    /// All plugins are added and ready to be finished.
    Ready,
    /// The plugins are finished.
    Finished,
    /// The plugins are finished and cleaned up.
    Cleaned,
}

/// What the main loop of an application does next.
#[derive(Debug, Clone, Copy, PartialEq, Eq, Structural)]
pub enum RunnerStep {
    /// Leave the loop.
    Stop,
    /// Give the task pools a turn, and nothing else: the plugins are not
    /// ready yet.
    Tick,
    /// Finish the plugins and clean them up, then update the application.
    FinishThenUpdate,
    /// Update the application.
    Update,
}

/// What the main loop of an application does next: it stops once the start
/// button is held, and it updates the application only with plugins that are
/// cleaned up.
pub fn app_runner(start_pressed: bool, plugins: PluginsState) -> (step: RunnerStep)
    ensures
        step == (if start_pressed {
            RunnerStep::Stop
        } else {
            match plugins {
                PluginsState::Cleaned => RunnerStep::Update,
                PluginsState::Ready => RunnerStep::FinishThenUpdate,
                _ => RunnerStep::Tick,
            }
        }),
{
    if start_pressed {
        return RunnerStep::Stop;
    }
    match plugins {
        PluginsState::Cleaned => RunnerStep::Update,
        PluginsState::Ready => RunnerStep::FinishThenUpdate,
        PluginsState::Adding => RunnerStep::Tick,
        PluginsState::Finished => RunnerStep::Tick,
    }
}

/// How handing the time of the frame to the host engine went.
#[derive(Debug, Clone, Copy, PartialEq, Eq, Structural)]
pub enum TimeSignal {
    /// The time was taken.
    Sent,
    /// The time of the frame before was still waiting to be taken.
    Full,
    /// Nobody is there to take the time any more.
    Disconnected,
}

/// Whether a frame can follow after the time of this one was handed over
/// with the outcome `signal`. It cannot if the time of the frame before was
/// never taken: then the host engine does not advance its clock. That nobody
/// takes the time any more is no fault: the host engine is shutting down.
pub fn frame_pacing_holds(signal: TimeSignal) -> (holds: bool)
    ensures
        holds == (signal != TimeSignal::Full),
{
    match signal {
        TimeSignal::Full => false,
        _ => true,
    }
}

} // verus!
