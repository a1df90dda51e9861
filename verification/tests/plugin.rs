use std::cell::RefCell;
use std::rc::Rc;

use bevy_3ds::assets::RenderAssets;
use bevy_3ds::camera::{CameraID, On3dsScreen};
use bevy_3ds::command::GpuCommand;
use bevy_3ds::draw::{Draw, DrawCommands};
use bevy_3ds::error::RenderError;
use bevy_3ds::frame::GpuDevice;
use bevy_3ds::gpu_buffer::LinearPool;
use bevy_3ds::lighting::{GpuLight, GpuLights, LightIndex};
use bevy_3ds::material::RenderMaterials;
use bevy_3ds::math::{Mat4, Vec3, Vec4};
use bevy_3ds::mesh::ExtractedMeshes;
use bevy_3ds::pass::{RenderPass, Target};
use bevy_3ds::plugin::{
    app_runner, frame_pacing_holds, frame_targets, plan_views, render_system, render_views,
    uses_stereo, ExtractedCamera, PluginsState, RenderSet3ds, RunnerStep, TimeSignal, ViewStep,
};
use bevy_3ds::shader::PicaShader;
use bevy_3ds::sprite::SpriteBatches;
use bevy_3ds::world::{ExtractedView, RenderWorld};

type Part = fn(&ExtractedView) -> (ExtractedView, ExtractedView);

const PREPARED: u32 = u32::MAX;

fn matrix(n: u32) -> Mat4 {
    let v = Vec4 { x: n, y: n, z: n, w: n };
    Mat4 { x_axis: v, y_axis: v, z_axis: v, w_axis: v }
}

fn view(n: u32) -> ExtractedView {
    ExtractedView { projection: matrix(n), camera: matrix(n + 1) }
}

fn part(view: &ExtractedView) -> (ExtractedView, ExtractedView) {
    let mut left = *view;
    let mut right = *view;
    left.camera = matrix(100);
    right.camera = matrix(200);
    (left, right)
}

fn camera(id: u32, n: u32, screen: Option<On3dsScreen<Part>>) -> ExtractedCamera<Part> {
    ExtractedCamera { id: CameraID(id), view: view(n), screen }
}

fn world() -> RenderWorld {
    let mut lights = GpuLights::default();
    lights.lights.push(GpuLight {
        index: LightIndex::new(3).unwrap(),
        global_pos: Vec3 { x: 7, y: 8, z: 9 },
    });
    RenderWorld {
        pool: LinearPool::new(1 << 20),
        meshes: RenderAssets::new(),
        images: RenderAssets::new(),
        materials: RenderMaterials::default(),
        extracted_meshes: ExtractedMeshes::default(),
        sprites: SpriteBatches::default(),
        lights,
        mesh_shader: PicaShader::new(1, vec![Ok(()); 1], vec![]),
        sprite_shader: PicaShader::new(2, vec![Ok(()); 1], vec![]),
    }
}

struct Marker {
    log: Rc<RefCell<Vec<(u32, u32)>>>,
    prepared: Rc<RefCell<u32>>,
    fail_on_camera: Option<u32>,
}

impl Draw for Marker {
    fn prepare(&mut self, _world: &RenderWorld) {
        self.log.borrow_mut().push((PREPARED, 0));
        *self.prepared.borrow_mut() += 1;
    }

    fn draw(
        &mut self,
        _world: &RenderWorld,
        pass: &mut RenderPass,
        view: &ExtractedView,
        cam: CameraID,
    ) -> Result<(), RenderError> {
        self.log.borrow_mut().push((cam.into_inner(), view.camera.x_axis.x));
        pass.unbind_normal_map();
        if self.fail_on_camera == Some(cam.into_inner()) {
            return Err(RenderError::Generic);
        }
        Ok(())
    }
}

fn registry(
    fail_on_camera: Option<u32>,
) -> (DrawCommands<Marker>, Rc<RefCell<Vec<(u32, u32)>>>, Rc<RefCell<u32>>) {
    let log = Rc::new(RefCell::new(Vec::new()));
    let prepared = Rc::new(RefCell::new(0));
    let mut commands = DrawCommands::new();
    commands.add_render_command(Marker {
        log: log.clone(),
        prepared: prepared.clone(),
        fail_on_camera,
    });
    (commands, log, prepared)
}

fn light(camera: Mat4) -> GpuCommand {
    GpuCommand::SetLightPosition { light: 3, position: Vec3 { x: 7, y: 8, z: 9 }, camera }
}

#[test]
fn frame_without_depth() {
    let cameras = vec![camera(0, 10, None), camera(1, 20, Some(On3dsScreen::Bottom))];
    assert!(!uses_stereo(&cameras));
    let (mut commands, log, prepared) = registry(None);
    let mut gpu = GpuDevice::new();
    let frame =
        render_system(&mut gpu, &mut commands, &world(), &cameras, (240, 320), (240, 400), 0xff)
            .unwrap();
    assert_eq!(frame.failure, None);
    assert_eq!(*prepared.borrow(), 1);
    assert_eq!(*log.borrow(), vec![(PREPARED, 0), (0, 11), (1, 21)]);
    assert_eq!(
        frame.commands,
        vec![
            GpuCommand::FrameBegin,
            GpuCommand::ClearTarget { target: 0, colour: 0xff, depth: 0 },
            GpuCommand::ClearTarget { target: 1, colour: 0xff, depth: 0 },
            GpuCommand::SelectTarget { target: 1 },
            light(matrix(11)),
            GpuCommand::UnbindNormalMap,
            GpuCommand::SelectTarget { target: 0 },
            light(matrix(21)),
            GpuCommand::UnbindNormalMap,
            GpuCommand::FrameEnd,
        ]
    );
    assert!(gpu.start_new_frame().is_ok());
}

#[test]
fn frame_in_depth() {
    let cameras = vec![
        camera(0, 10, Some(On3dsScreen::Top(Some(part as Part)))),
        camera(1, 20, Some(On3dsScreen::Bottom)),
        camera(2, 30, None),
    ];
    assert!(uses_stereo(&cameras));
    let steps = plan_views(&cameras);
    let own = |target, cam, n: u32, place_lights| ViewStep {
        target,
        cam: CameraID(cam),
        view: view(n),
        place_lights,
    };
    let mut left = own(1, 0, 10, true);
    left.view.camera = matrix(100);
    let mut right = own(2, 0, 10, true);
    right.view.camera = matrix(200);
    assert_eq!(
        steps,
        vec![left, right, own(0, 1, 20, true), own(1, 2, 30, true), own(2, 2, 30, false)]
    );

    let (mut commands, log, _) = registry(None);
    let mut gpu = GpuDevice::new();
    let frame =
        render_system(&mut gpu, &mut commands, &world(), &cameras, (240, 320), (240, 400), 1)
            .unwrap();
    assert_eq!(frame.failure, None);
    assert_eq!(
        *log.borrow(),
        vec![(PREPARED, 0), (0, 100), (0, 200), (1, 21), (2, 31), (2, 31)]
    );
    assert_eq!(
        frame.commands,
        vec![
            GpuCommand::FrameBegin,
            GpuCommand::ClearTarget { target: 0, colour: 1, depth: 0 },
            GpuCommand::ClearTarget { target: 1, colour: 1, depth: 0 },
            GpuCommand::ClearTarget { target: 2, colour: 1, depth: 0 },
            GpuCommand::SelectTarget { target: 1 },
            light(matrix(100)),
            GpuCommand::UnbindNormalMap,
            GpuCommand::SelectTarget { target: 2 },
            light(matrix(200)),
            GpuCommand::UnbindNormalMap,
            GpuCommand::SelectTarget { target: 0 },
            light(matrix(21)),
            GpuCommand::UnbindNormalMap,
            GpuCommand::SelectTarget { target: 1 },
            light(matrix(31)),
            GpuCommand::UnbindNormalMap,
            GpuCommand::SelectTarget { target: 2 },
            GpuCommand::UnbindNormalMap,
            GpuCommand::FrameEnd,
        ]
    );
}

#[test]
fn a_failing_view_cuts_the_frame_short_but_ends_it() {
    let cameras =
        vec![camera(0, 10, None), camera(1, 20, Some(On3dsScreen::Bottom)), camera(2, 30, None)];
    let (mut commands, log, _) = registry(Some(1));
    let mut gpu = GpuDevice::new();
    let frame =
        render_system(&mut gpu, &mut commands, &world(), &cameras, (240, 320), (240, 400), 0)
            .unwrap();
    assert_eq!(frame.failure, Some(RenderError::Generic));
    assert_eq!(*log.borrow(), vec![(PREPARED, 0), (0, 11), (1, 21)]);
    assert_eq!(frame.commands.first(), Some(&GpuCommand::FrameBegin));
    assert_eq!(frame.commands.last(), Some(&GpuCommand::FrameEnd));
    assert_eq!(
        frame.commands.iter().filter(|c| matches!(c, GpuCommand::SelectTarget { .. })).count(),
        2
    );
    // the next frame can be drawn
    let next = render_system(&mut gpu, &mut commands, &world(), &cameras[..1].to_vec_of(), (1, 1), (1, 1), 0);
    assert!(next.is_ok());
}

trait ToVecOf {
    fn to_vec_of(&self) -> Vec<ExtractedCamera<Part>>;
}

impl ToVecOf for [ExtractedCamera<Part>] {
    fn to_vec_of(&self) -> Vec<ExtractedCamera<Part>> {
        self.iter()
            .map(|c| ExtractedCamera {
                id: c.id,
                view: c.view,
                screen: match &c.screen {
                    Some(On3dsScreen::Bottom) => Some(On3dsScreen::Bottom),
                    Some(On3dsScreen::Top(f)) => Some(On3dsScreen::Top(*f)),
                    _ => None,
                },
            })
            .collect()
    }
}

#[test]
fn no_frame_is_drawn_inside_a_frame() {
    let cameras = vec![camera(0, 10, None)];
    let (mut commands, log, prepared) = registry(None);
    let mut gpu = GpuDevice::new();
    let open = gpu.start_new_frame().unwrap();
    let r = render_system(&mut gpu, &mut commands, &world(), &cameras, (1, 1), (1, 1), 0);
    assert!(matches!(r, Err(RenderError::FrameAlreadyOpen)));
    let r = render_views(&mut gpu, &mut commands, &world(), &vec![], &vec![], 0);
    assert!(matches!(r, Err(RenderError::FrameAlreadyOpen)));
    assert!(log.borrow().is_empty());
    assert_eq!(*prepared.borrow(), 0);
    assert_eq!(gpu.end_frame(open).unwrap().len(), 2);
}

#[test]
fn a_view_without_target_fails() {
    let (mut commands, log, _) = registry(None);
    let mut gpu = GpuDevice::new();
    let steps = vec![
        ViewStep { target: 1, cam: CameraID(0), view: view(1), place_lights: false },
        ViewStep { target: 2, cam: CameraID(1), view: view(2), place_lights: false },
        ViewStep { target: 0, cam: CameraID(2), view: view(3), place_lights: false },
    ];
    let targets = frame_targets(false, (240, 320), (240, 400));
    let frame = render_views(&mut gpu, &mut commands, &world(), &steps, &targets, 0).unwrap();
    assert_eq!(frame.failure, Some(RenderError::InvalidRenderTarget { target: 2 }));
    assert_eq!(*log.borrow(), vec![(PREPARED, 0), (0, 2)]);
    let mut far = steps;
    far[0].target = 3;
    let frame = render_views(&mut gpu, &mut commands, &world(), &far, &targets, 0).unwrap();
    assert_eq!(frame.failure, Some(RenderError::InvalidRenderTarget { target: 3 }));
    assert_eq!(frame.commands.len(), 4);
}

#[test]
fn frames_have_two_or_three_targets() {
    assert_eq!(
        frame_targets(false, (240, 320), (240, 400)),
        vec![
            Some(Target { index: 0, width: 240, height: 320 }),
            Some(Target { index: 1, width: 240, height: 400 }),
            None,
        ]
    );
    assert_eq!(
        frame_targets(true, (1, 2), (3, 4))[2],
        Some(Target { index: 2, width: 3, height: 4 })
    );
}

#[test]
fn render_steps_follow_each_other() {
    let assets = RenderSet3ds::PrepareAssets;
    let prepare = RenderSet3ds::Prepare;
    let groups = RenderSet3ds::PrepareBindGroups;
    assert_eq!(RenderSet3ds::chain(), vec![assets, prepare, groups]);
    assert!(assets.runs_before(prepare));
    assert!(assets.runs_before(groups));
    assert!(prepare.runs_before(groups));
    assert!(!prepare.runs_before(prepare));
    assert!(!groups.runs_before(assets));
    assert!(!prepare.runs_before(assets));
}

#[test]
fn the_main_loop_steps() {
    for state in [
        PluginsState::Adding,
        PluginsState::Ready,
        PluginsState::Finished,
        PluginsState::Cleaned,
    ] {
        assert_eq!(app_runner(true, state), RunnerStep::Stop);
    }
    assert_eq!(app_runner(false, PluginsState::Adding), RunnerStep::Tick);
    assert_eq!(app_runner(false, PluginsState::Finished), RunnerStep::Tick);
    assert_eq!(app_runner(false, PluginsState::Ready), RunnerStep::FinishThenUpdate);
    assert_eq!(app_runner(false, PluginsState::Cleaned), RunnerStep::Update);
}

#[test]
fn only_a_full_channel_breaks_the_pacing() {
    assert!(frame_pacing_holds(TimeSignal::Sent));
    assert!(frame_pacing_holds(TimeSignal::Disconnected));
    assert!(!frame_pacing_holds(TimeSignal::Full));
}
