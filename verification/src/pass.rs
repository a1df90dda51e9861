//! The render pass: the one place through which a frame is drawn.
//!
//! A pass holds the open frame. It remembers which render target, which
//! shader and which attribute layout are in force, checks every draw against
//! them and against the handles it is given, and records what the driver has
//! to do. A step that is refused leaves the pass as it was.

use vstd::prelude::*;
use vstd::layout::size_of;
use core::marker::PhantomData;
use std::rc::Rc;
use crate::command::{BufferTable, GpuCommand, Primitive, Uniform};
use crate::error::{Citro3dError, RenderError};
use crate::frame::{recorded_in_frame, Citro3dFrame, GpuDevice};
use crate::gpu_buffer::{LinearBuffer, LinearPool};
use crate::lighting::GpuLight;
use crate::material::{LutBinding, Material};
use crate::math::Mat4;
use crate::pipeline::{info_of, VertexAttribute, VertexAttrs};
use crate::shader::{Entrypoint, Index, PicaShader};
use crate::texenv::{Stage, TexEnv};
use crate::texture::GpuImage;

verus! {

/// The most buffers that one registry can hold.
pub const MAX_BUFFERS: usize = 12;

/// How many texture units the GPU has.
pub const TEXTURE_UNITS: i32 = 3;

/// A surface that can be drawn to.
#[derive(Debug, Clone, Copy, PartialEq, Eq, Structural)]
pub struct Target {
    /// The place of the target among the targets of the frame.
    pub index: usize,
    pub width: u32,
    pub height: u32,
}

/// What a registry knows of one buffer.
pub ghost struct EntryView {
    pub buffer: u64,
    pub stride: nat,
    pub len: nat,
    pub layout: Seq<VertexAttribute>,
}

/// A registry of vertex buffers, seen from outside.
pub ghost struct RegistryView {
    /// The frame that the registry was made in.
    pub frame: u64,
    /// The number of the registry among the registries of its frame.
    pub number: u64,
    /// How often the registry was reset.
    pub generation: u64,
    pub entries: Seq<EntryView>,
}

impl RegistryView {
    /// The buffer table of the registry, as the driver knows it.
    pub open spec fn table(self) -> BufferTable {
        BufferTable { registry: self.number, generation: self.generation }
    }
}

/// A handle to registered vertex data, seen from outside.
pub ghost struct SliceView {
    /// The frame that the handle was made in.
    pub frame: u64,
    /// The number of the registry that gave the handle.
    pub registry: u64,
    /// How often the registry had been reset when the handle was made.
    pub generation: u64,
    /// The place of the buffer in its registry.
    pub index: nat,
    pub entry: EntryView,
}

impl SliceView {
    /// The buffer table that the handle draws from.
    pub open spec fn table(self) -> BufferTable {
        BufferTable { registry: self.registry, generation: self.generation }
    }
}

struct VboEntry {
    buffer: u64,
    stride: usize,
    len: usize,
    layout: VertexAttrs,
}

impl VboEntry {
    spec fn view(self) -> EntryView {
        EntryView {
            buffer: self.buffer,
            stride: self.stride as nat,
            len: self.len as nat,
            layout: self.layout@,
        }
    }
}

/// A handle to vertex data that was registered for a draw.
pub struct VboSlice {
    frame: u64,
    registry: u64,
    generation: u64,
    index: usize,
    entry: VboEntry,
}

impl View for VboSlice {
    type V = SliceView;

    closed spec fn view(&self) -> SliceView {
        SliceView {
            frame: self.frame,
            registry: self.registry,
            generation: self.generation,
            index: self.index as nat,
            entry: self.entry.view(),
        }
    }
}

impl VboSlice {
    /// What every handle satisfies.
    pub closed spec fn wf(self) -> bool {
        self.entry.layout.wf()
    }

    /// How many vertices the handle stands for.
    pub fn len(&self) -> (n: usize)
        ensures
            n == self@.entry.len,
    {
        self.entry.len
    }

    /// The buffer that the handle refers to.
    pub fn buffer(&self) -> (id: u64)
        ensures
            id == self@.entry.buffer,
    {
        self.entry.buffer
    }
}

/// The registry of the vertex buffers of a draw.
pub struct VboBuffer {
    frame: u64,
    number: u64,
    generation: u64,
    entries: Vec<VboEntry>,
}

impl View for VboBuffer {
    type V = RegistryView;

    closed spec fn view(&self) -> RegistryView {
        RegistryView {
            frame: self.frame,
            number: self.number,
            generation: self.generation,
            entries: Seq::new(self.entries@.len(), |i: int| self.entries@[i].view()),
        }
    }
}

/// Whether a registry has room for another buffer.
pub open spec fn registry_has_room(registry: RegistryView) -> bool {
    registry.entries.len() < MAX_BUFFERS && registry.generation < u64::MAX
}

/// What making a registry does: the registry is empty and belongs to the
/// frame of the pass, which counts one registry more. A frame that has
/// counted as many registries as it can gets a registry without room.
pub open spec fn registry_made(before: PassView, after: PassView, registry: RegistryView) -> bool {
    if before.registries < u64::MAX {
        &&& registry == (RegistryView {
            frame: before.epoch,
            number: before.registries,
            generation: 0,
            entries: Seq::empty(),
        })
        &&& after == (PassView { registries: (before.registries + 1) as u64, ..before })
    } else {
        &&& registry == (RegistryView {
            frame: before.epoch,
            number: u64::MAX,
            generation: u64::MAX,
            entries: Seq::empty(),
        })
        &&& after == before
    }
}

/// What the driver is asked to do to enter the vertex data of `entry` into
/// the table of `registry`, behind what the table holds.
pub open spec fn registration(registry: RegistryView, entry: EntryView) -> GpuCommand {
    GpuCommand::RegisterBuffer {
        table: registry.table(),
        place: registry.entries.len() as usize,
        buffer: entry.buffer,
        stride: entry.stride as usize,
        count: entry.len as usize,
        layout: info_of(entry.layout),
    }
}

/// Whether `entry` can be entered into `registry` in `pass`, and if not, why
/// not: the registry has to be of the frame of the pass, and to have room.
pub open spec fn add_outcome(registry: RegistryView, pass: PassView) -> Result<(), RenderError> {
    if registry.frame != pass.epoch {
        Err(RenderError::StaleHandle)
    } else if !registry_has_room(registry) {
        Err(RenderError::Citro3d(Citro3dError::TooManyBuffers))
    } else {
        Ok(())
    }
}

/// What registering a buffer does. If it can be entered, it is entered last,
/// the handle names that entry, and the registration is recorded in the
/// pass. If not, registry and pass stay as they are.
pub open spec fn registered(
    before: RegistryView,
    pass_before: PassView,
    entry: EntryView,
    after: RegistryView,
    pass_after: PassView,
    r: Result<VboSlice, RenderError>,
) -> bool {
    match add_outcome(before, pass_before) {
        Ok(_) => {
            &&& r is Ok
            &&& r->Ok_0@ == (SliceView {
                frame: before.frame,
                registry: before.number,
                generation: before.generation,
                index: before.entries.len(),
                entry,
            })
            &&& after == (RegistryView { entries: before.entries.push(entry), ..before })
            &&& pass_after == pass_before.with(seq![registration(before, entry)])
        },
        Err(e) => {
            &&& r is Err
            &&& r->Err_0 == e
            &&& after == before
            &&& pass_after == pass_before
        },
    }
}

/// Whether `slice` still stands for vertex data that a pass of frame `epoch`
/// may draw: handle and registry are of that frame, the registry is the one
/// that gave the handle, it was not reset since and has the entry that the
/// handle names, and the buffer is live.
pub open spec fn slice_is_live(
    slice: SliceView,
    registry: RegistryView,
    pool: LinearPool,
    epoch: u64,
) -> bool {
    &&& slice.frame == epoch
    &&& registry.frame == epoch
    &&& slice.registry == registry.number
    &&& slice.generation == registry.generation
    &&& slice.index < registry.entries.len()
    &&& registry.entries[slice.index as int] == slice.entry
    &&& pool.holds(slice.entry.buffer)
}

impl VboBuffer {
    /// What every registry satisfies.
    pub closed spec fn wf(self) -> bool {
        &&& self.entries@.len() <= MAX_BUFFERS
        &&& forall|i: int| 0 <= i < self.entries@.len() ==> (#[trigger] self.entries@[i]).layout.wf()
    }

    /// An empty registry for the frame of `pass`.
    pub fn new(pass: &mut RenderPass) -> (registry: VboBuffer)
        requires
            old(pass).wf(),
        ensures
            final(pass).wf(),
            registry.wf(),
            registry_made(old(pass)@, final(pass)@, registry@),
    {
        let frame = pass.frame.number();
        let registry = if pass.frame.registries_made() < u64::MAX {
            let number = pass.frame.count_registry();
            VboBuffer { frame, number, generation: 0, entries: Vec::new() }
        } else {
            VboBuffer { frame, number: u64::MAX, generation: u64::MAX, entries: Vec::new() }
        };
        assert(registry@.entries =~= Seq::empty());
        registry
    }

    /// How many buffers are registered.
    pub fn len(&self) -> (n: usize)
        ensures
            n == self@.entries.len(),
    {
        self.entries.len()
    }

    fn enter(&mut self, pass: &mut RenderPass, entry: VboEntry) -> (r: Result<
        VboSlice,
        RenderError,
    >)
        requires
            old(self).wf(),
            old(pass).wf(),
            entry.layout.wf(),
        ensures
            final(self).wf(),
            final(pass).wf(),
            registered(old(self)@, old(pass)@, entry.view(), final(self)@, final(pass)@, r),
            r is Ok ==> r->Ok_0.wf(),
    {
        if self.frame != pass.frame.number() {
            return Err(RenderError::StaleHandle);
        }
        if self.entries.len() >= MAX_BUFFERS || self.generation == u64::MAX {
            return Err(RenderError::Citro3d(Citro3dError::TooManyBuffers));
        }
        let slice = VboSlice {
            frame: self.frame,
            registry: self.number,
            generation: self.generation,
            index: self.entries.len(),
            entry: VboEntry {
                buffer: entry.buffer,
                stride: entry.stride,
                len: entry.len,
                layout: entry.layout.duplicate(),
            },
        };
        pass.record(
            GpuCommand::RegisterBuffer {
                table: BufferTable { registry: self.number, generation: self.generation },
                place: self.entries.len(),
                buffer: entry.buffer,
                stride: entry.stride,
                count: entry.len,
                layout: entry.layout.info(),
            },
        );
        self.entries.push(entry);
        assert(self@.entries =~= old(self)@.entries.push(entry.view()));
        Ok(slice)
    }

    /// Registers the vertices in `vbo`, which are laid out as `attrib_info`
    /// says, with the buffer table of the registry, and gives a handle for
    /// one draw.
    pub fn add<T>(
        &mut self,
        pass: &mut RenderPass,
        vbo: &LinearBuffer<T>,
        attrib_info: &VertexAttrs,
    ) -> (r: Result<VboSlice, RenderError>)
        requires
            old(self).wf(),
            old(pass).wf(),
            attrib_info.wf(),
        ensures
            final(self).wf(),
            final(pass).wf(),
            registered(
                old(self)@,
                old(pass)@,
                EntryView {
                    buffer: vbo.id(),
                    stride: size_of::<T>(),
                    len: vbo@.len(),
                    layout: attrib_info@,
                },
                final(self)@,
                final(pass)@,
                r,
            ),
            r is Ok ==> r->Ok_0.wf(),
    {
        self.enter(
            pass,
            VboEntry {
                buffer: vbo.handle(),
                stride: core::mem::size_of::<T>(),
                len: vbo.len(),
                layout: attrib_info.duplicate(),
            },
        )
    }

    /// Registers the bytes in `vbo` as vertices of `stride` bytes each,
    /// laid out as `attrib_info` says. A `stride` of 0 is refused.
    pub fn add_bytes(
        &mut self,
        pass: &mut RenderPass,
        vbo: &LinearBuffer<u8>,
        attrib_info: &VertexAttrs,
        stride: u32,
    ) -> (r: Result<VboSlice, RenderError>)
        requires
            old(self).wf(),
            old(pass).wf(),
            attrib_info.wf(),
        ensures
            final(self).wf(),
            final(pass).wf(),
            stride == 0 ==> r is Err && r->Err_0 == RenderError::Citro3d(Citro3dError::InvalidSize)
                && final(self)@ == old(self)@ && final(pass)@ == old(pass)@,
            stride > 0 ==> registered(
                old(self)@,
                old(pass)@,
                EntryView {
                    buffer: vbo.id(),
                    stride: stride as nat,
                    len: vbo@.len() / (stride as nat),
                    layout: attrib_info@,
                },
                final(self)@,
                final(pass)@,
                r,
            ),
            r is Ok ==> r->Ok_0.wf(),
    {
        if stride == 0 {
            return Err(RenderError::Citro3d(Citro3dError::InvalidSize));
        }
        self.enter(
            pass,
            VboEntry {
                buffer: vbo.handle(),
                stride: stride as usize,
                len: vbo.len() / (stride as usize),
                layout: attrib_info.duplicate(),
            },
        )
    }

    /// Forgets every buffer. No handle that the registry gave before stands
    /// for anything from now on.
    pub fn reset(&mut self)
        requires
            old(self).wf(),
        ensures
            final(self).wf(),
            final(self)@.frame == old(self)@.frame,
            final(self)@.number == old(self)@.number,
            final(self)@.entries == Seq::<EntryView>::empty(),
            old(self)@.generation < u64::MAX ==> final(self)@.generation == old(self)@.generation
                + 1,
            old(self)@.generation == u64::MAX ==> final(self)@.generation == u64::MAX,
    {
        self.entries.clear();
        if self.generation < u64::MAX {
            self.generation = self.generation + 1;
        }
        assert(self@.entries =~= Seq::empty());
    }

    fn has(&self, slice: &VboSlice) -> (found: bool)
        requires
            self.wf(),
        ensures
            found == {
                &&& slice@.registry == self@.number
                &&& slice@.generation == self@.generation
                &&& slice@.index < self@.entries.len()
                &&& self@.entries[slice@.index as int] == slice@.entry
            },
    {
        if slice.registry != self.number || slice.generation != self.generation || slice.index
            >= self.entries.len() {
            return false;
        }
        let mine = &self.entries[slice.index];
        let same = mine.buffer == slice.entry.buffer && mine.stride == slice.entry.stride
            && mine.len == slice.entry.len && mine.layout.same_layout(&slice.entry.layout);
        assert(self@.entries[slice@.index as int] == mine.view());
        same
    }
}

/// The state of a render pass, seen from outside.
pub ghost struct PassView {
    /// The number of the frame that the pass draws in.
    pub epoch: u64,
    /// How many registries of vertex buffers were made in the frame so far.
    pub registries: u64,
    /// The render target that was selected last.
    pub target: Option<usize>,
    /// The entry point that the bound program was made of.
    pub shader: Option<Entrypoint>,
    /// The attribute layout that was set last.
    pub layout: Option<Seq<VertexAttribute>>,
    /// What was recorded in the frame so far.
    pub commands: Seq<GpuCommand>,
}

/// How far a pass has come towards a draw.
#[derive(Debug, Clone, Copy, PartialEq, Eq, Structural)]
pub enum PassStage {
    /// No render target was selected yet.
    Idle,
    /// A render target was selected, no shader bound.
    TargetSelected,
    /// A shader is bound, no attribute layout set.
    ShaderBound,
    /// Target, shader and layout are there: draws can be asked for.
    ReadyToDraw,
}

impl PassView {
    /// The pass after `commands` were recorded and nothing else changed.
    pub open spec fn with(self, commands: Seq<GpuCommand>) -> PassView {
        PassView { commands: self.commands + commands, ..self }
    }

    /// How far the pass has come towards a draw.
    pub open spec fn stage(self) -> PassStage {
        if self.target is None {
            PassStage::Idle
        } else if self.shader is None {
            PassStage::TargetSelected
        } else if self.layout is None {
            PassStage::ShaderBound
        } else {
            PassStage::ReadyToDraw
        }
    }
}

/// The render pass. A pass stays on the thread that made it.
pub struct RenderPass {
    frame: Citro3dFrame,
    target: Option<usize>,
    shader: Option<Entrypoint>,
    attr_info: Option<VertexAttrs>,
    thread: PhantomData<Rc<()>>,
}

impl View for RenderPass {
    type V = PassView;

    closed spec fn view(&self) -> PassView {
        PassView {
            epoch: self.frame.epoch(),
            registries: self.frame.registries(),
            target: self.target,
            shader: self.shader,
            layout: match self.attr_info {
                Some(info) => Some(info@),
                None => None,
            },
            commands: self.frame.commands(),
        }
    }
}

/// Whether a draw of `slice` may go ahead, and if not, why not. The first
/// thing found missing decides.
pub open spec fn draw_outcome(
    pass: PassView,
    slice: SliceView,
    registry: RegistryView,
    pool: LinearPool,
) -> Result<(), RenderError> {
    if pass.target is None {
        Err(RenderError::NoRenderTarget)
    } else if pass.shader is None {
        Err(RenderError::NoShaderBound)
    } else if pass.layout is None {
        Err(RenderError::NoAttributeLayout)
    } else if !slice_is_live(slice, registry, pool, pass.epoch) {
        Err(RenderError::StaleHandle)
    } else if pass.layout->Some_0 != slice.entry.layout {
        Err(RenderError::AttributeMismatch)
    } else {
        Ok(())
    }
}

/// What binding the program of `entry` does, for each answer `built` of the
/// driver: a program that was built is in force and its binding recorded; a
/// refusal is handed on, and the pass stays as it was.
pub open spec fn program_bound(
    before: PassView,
    entry: Entrypoint,
    built: Result<(), Citro3dError>,
    after: PassView,
    r: Result<(), RenderError>,
) -> bool {
    match built {
        Ok(_) => r is Ok && after == (PassView { shader: Some(entry), ..before }).with(
            seq![GpuCommand::BindProgram { entry }],
        ),
        Err(refusal) => r == Err::<(), RenderError>(RenderError::Citro3d(refusal)) && after
            == before,
    }
}

/// What binding the entry point `entry_point` of `shader` comes to: the
/// entry point has to exist, and the driver has to have built a program of
/// it.
pub open spec fn program_of(shader: PicaShader, entry_point: usize) -> Result<
    Entrypoint,
    RenderError,
> {
    if entry_point >= shader.entry_count() {
        Err(RenderError::InvalidEntryPoint { index: entry_point })
    } else {
        match shader.programs()[entry_point as int] {
            Ok(_) => Ok(Entrypoint { library: shader.library(), index: entry_point }),
            Err(refusal) => Err(RenderError::Citro3d(refusal)),
        }
    }
}

/// What the driver is asked to do for a material: its colours first, then
/// its lookup tables in their order, then what its Fresnel table acts on.
pub open spec fn material_commands(material: Material) -> Seq<GpuCommand> {
    seq![GpuCommand::SetLightingMaterial { colors: material.colors() }] + material.luts@.map_values(
        |binding: LutBinding| GpuCommand::BindLightLut { binding },
    ) + seq![GpuCommand::SetFresnel { selector: material.fresnel }]
}

/// What the driver is asked to do to place `lights`, in their order, for a
/// camera with the transform `camera`.
pub open spec fn light_commands(lights: Seq<GpuLight>, camera: Mat4) -> Seq<GpuCommand> {
    lights.map_values(
        |light: GpuLight|
            GpuCommand::SetLightPosition {
                light: light.index.index() as usize,
                position: light.global_pos,
                camera,
            },
    )
}

impl RenderPass {
    /// What every pass satisfies.
    pub closed spec fn wf(self) -> bool {
        &&& self.frame.wf()
        &&& self.attr_info matches Some(info) ==> info.wf()
    }

    /// A pass is only ever in a frame whose record is in order.
    pub proof fn lemma_wf_record(self)
        requires
            self.wf(),
        ensures
            recorded_in_frame(self@.commands),
    {
    }

    /// A pass over `frame`, which has to be the frame that `gpu` has open.
    /// Nothing is selected, bound or set in a new pass.
    pub fn new(gpu: &GpuDevice, frame: Citro3dFrame) -> (r: Result<RenderPass, RenderError>)
        requires
            frame.wf(),
        ensures
            gpu.holds_open(frame.epoch()) ==> r is Ok && r->Ok_0.wf() && r->Ok_0@ == (PassView {
                epoch: frame.epoch(),
                registries: frame.registries(),
                target: None,
                shader: None,
                layout: None,
                commands: frame.commands(),
            }),
            !gpu.holds_open(frame.epoch()) ==> r is Err && r->Err_0 == RenderError::FrameNotOpen,
    {
        if !gpu.is_current(&frame) {
            return Err(RenderError::FrameNotOpen);
        }
        Ok(RenderPass { frame, target: None, shader: None, attr_info: None, thread: PhantomData })
    }

    /// Ends the pass and gives the frame back, with all that was recorded.
    pub fn finish(self) -> (frame: Citro3dFrame)
        requires
            self.wf(),
        ensures
            frame.wf(),
            frame.epoch() == self@.epoch,
            frame.registries() == self@.registries,
            frame.commands() == self@.commands,
    {
        self.frame
    }

    /// The number of the frame that the pass draws in.
    pub fn epoch(&self) -> (epoch: u64)
        ensures
            epoch == self@.epoch,
    {
        self.frame.number()
    }

    /// How far the pass has come towards a draw.
    pub fn stage(&self) -> (stage: PassStage)
        ensures
            stage == self@.stage(),
    {
        if self.target.is_none() {
            PassStage::Idle
        } else if self.shader.is_none() {
            PassStage::TargetSelected
        } else if self.attr_info.is_none() {
            PassStage::ShaderBound
        } else {
            PassStage::ReadyToDraw
        }
    }

    fn record(&mut self, command: GpuCommand)
        requires
            old(self).wf(),
            !command.is_frame_boundary(),
        ensures
            final(self).wf(),
            final(self)@ == old(self)@.with(seq![command]),
    {
        self.frame.record(command);
        assert(old(self)@.commands + seq![command] =~= old(self)@.commands.push(command));
    }

    /// Fills `target` with `colour` and `depth`.
    pub fn clear_render_target(&mut self, target: &Target, colour: u32, depth: u32)
        requires
            old(self).wf(),
        ensures
            final(self).wf(),
            final(self)@ == old(self)@.with(
                seq![GpuCommand::ClearTarget { target: target.index, colour, depth }],
            ),
    {
        self.record(GpuCommand::ClearTarget { target: target.index, colour, depth });
    }

    /// Sends what is drawn from now on to `target`. Shader, attribute layout
    /// and everything else stay as they are.
    pub fn select_render_target(&mut self, target: &Target)
        requires
            old(self).wf(),
        ensures
            final(self).wf(),
            final(self)@ == (PassView { target: Some(target.index), ..old(self)@ }).with(
                seq![GpuCommand::SelectTarget { target: target.index }],
            ),
    {
        self.record(GpuCommand::SelectTarget { target: target.index });
        self.target = Some(target.index);
    }

    /// Binds the program of `entry`, given what the driver said when it was
    /// asked to build it. If the driver built the program, it is in force
    /// for all draws until another one is bound. If the driver refused, its
    /// refusal is the error, nothing is recorded and the program that was
    /// bound before stays.
    pub fn bind_program(&mut self, entry: Entrypoint, built: Result<(), Citro3dError>) -> (r:
        Result<(), RenderError>)
        requires
            old(self).wf(),
        ensures
            final(self).wf(),
            program_bound(old(self)@, entry, built, final(self)@, r),
    {
        match built {
            Ok(_) => {
                self.record(GpuCommand::BindProgram { entry });
                self.shader = Some(entry);
                Ok(())
            },
            Err(refusal) => Err(RenderError::Citro3d(refusal)),
        }
    }

    /// Binds the program made of entry point `entry_point` of `shader`, for
    /// all draws until another one is bound. Without that entry point, or if
    /// the driver could not build a program of it, nothing is bound and the
    /// program that was bound before stays.
    pub fn set_vertex_shader(&mut self, shader: &PicaShader, entry_point: usize) -> (r: Result<
        (),
        RenderError,
    >)
        requires
            old(self).wf(),
        ensures
            final(self).wf(),
            match program_of(*shader, entry_point) {
                Ok(entry) => r is Ok && final(self)@ == (PassView {
                    shader: Some(entry),
                    ..old(self)@
                }).with(seq![GpuCommand::BindProgram { entry }]),
                Err(e) => r == Err::<(), RenderError>(e) && final(self)@ == old(self)@,
            },
    {
        let entry = match shader.entry_point(entry_point) {
            Some(entry) => entry,
            None => {
                return Err(RenderError::InvalidEntryPoint { index: entry_point });
            },
        };
        match shader.program(entry_point) {
            Some(built) => self.bind_program(entry, built),
            None => Err(RenderError::InvalidEntryPoint { index: entry_point }),
        }
    }

    /// Declares the layout that the vertices of the draws to come are read
    /// by.
    pub fn set_attr_info(&mut self, info: &VertexAttrs)
        requires
            old(self).wf(),
            info.wf(),
        ensures
            final(self).wf(),
            final(self)@ == (PassView { layout: Some(info@), ..old(self)@ }).with(
                seq![GpuCommand::SetAttrInfo { layout: info_of(info@) }],
            ),
    {
        self.record(GpuCommand::SetAttrInfo { layout: info.info() });
        self.attr_info = Some(info.duplicate());
    }

    /// Sets stage `stage` of the texture combiner to `env`, whatever it was
    /// set to before.
    pub fn configure_texenv(&mut self, stage: Stage, env: TexEnv)
        requires
            old(self).wf(),
        ensures
            final(self).wf(),
            final(self)@ == old(self)@.with(
                seq![GpuCommand::ConfigureTexEnv { stage: stage.index() as usize, env }],
            ),
    {
        self.record(GpuCommand::ConfigureTexEnv { stage: stage.number(), env });
    }

    /// Puts `tex` into texture unit `index`.
    pub fn bind_texture(&mut self, index: i32, tex: &GpuImage) -> (r: Result<(), RenderError>)
        requires
            old(self).wf(),
        ensures
            final(self).wf(),
            0 <= index < TEXTURE_UNITS ==> r is Ok && final(self)@ == old(self)@.with(
                seq![GpuCommand::BindTexture { unit: index, texture: tex.texture() }],
            ),
            !(0 <= index < TEXTURE_UNITS) ==> r == Err::<(), RenderError>(
                RenderError::InvalidTextureUnit { unit: index },
            ) && final(self)@ == old(self)@,
    {
        if index < 0 || index >= TEXTURE_UNITS {
            return Err(RenderError::InvalidTextureUnit { unit: index });
        }
        self.record(GpuCommand::BindTexture { unit: index, texture: tex.handle() });
        Ok(())
    }

    /// Takes the surface normals from the texture in unit `index`.
    pub fn bind_normal_map(&mut self, index: i32) -> (r: Result<(), RenderError>)
        requires
            old(self).wf(),
        ensures
            final(self).wf(),
            0 <= index < TEXTURE_UNITS ==> r is Ok && final(self)@ == old(self)@.with(
                seq![GpuCommand::BindNormalMap { unit: index }],
            ),
            !(0 <= index < TEXTURE_UNITS) ==> r == Err::<(), RenderError>(
                RenderError::InvalidTextureUnit { unit: index },
            ) && final(self)@ == old(self)@,
    {
        if index < 0 || index >= TEXTURE_UNITS {
            return Err(RenderError::InvalidTextureUnit { unit: index });
        }
        self.record(GpuCommand::BindNormalMap { unit: index });
        Ok(())
    }

    /// Takes the surface normals from the vertices again.
    pub fn unbind_normal_map(&mut self)
        requires
            old(self).wf(),
        ensures
            final(self).wf(),
            final(self)@ == old(self)@.with(seq![GpuCommand::UnbindNormalMap]),
    {
        self.record(GpuCommand::UnbindNormalMap);
    }

    /// Sets the uniform at `index` of the vertex shader to `uni`.
    pub fn bind_vertex_uniform(&mut self, index: Index, uni: Uniform)
        requires
            old(self).wf(),
        ensures
            final(self).wf(),
            final(self)@ == old(self)@.with(
                seq![GpuCommand::BindVertexUniform { index, value: uni }],
            ),
    {
        self.record(GpuCommand::BindVertexUniform { index, value: uni });
    }

    /// Hands `material` to the lighting unit.
    pub fn set_lighting_material(&mut self, material: &Material)
        requires
            old(self).wf(),
        ensures
            final(self).wf(),
            final(self)@ == old(self)@.with(material_commands(*material)),
    {
        let ghost start = self@;
        self.record(
            GpuCommand::SetLightingMaterial {
                colors: crate::material::MaterialColors {
                    ambient: material.ambient,
                    diffuse: material.diffuse,
                    specular0: material.specular0,
                    specular1: material.specular1,
                    emission: material.emission,
                },
            },
        );
        let ghost all = material_commands(*material);
        let mut i: usize = 0;
        assert(all.take(1) =~= seq![GpuCommand::SetLightingMaterial { colors: material.colors() }]);
        while i < material.luts.len()
            invariant
                i <= material.luts.len(),
                self.wf(),
                all == material_commands(*material),
                all.len() == material.luts@.len() + 2,
                self@ == start.with(all.take(i + 1)),
            decreases material.luts.len() - i,
        {
            let binding = material.luts[i];
            assert(all[i + 1] == GpuCommand::BindLightLut { binding });
            self.record(GpuCommand::BindLightLut { binding });
            assert(start.commands + all.take(i + 1) + seq![all[i + 1]] =~= start.commands
                + all.take(i + 2));
            i += 1;
        }
        let last = GpuCommand::SetFresnel { selector: material.fresnel };
        assert(all[i + 1] == last);
        self.record(last);
        assert(start.commands + all.take(i + 1) + seq![all[i + 1]] =~= start.commands + all);
    }

    /// Places `lights` for a camera with the transform `view_mtx`.
    pub fn set_light_positions(&mut self, lights: &Vec<GpuLight>, view_mtx: &Mat4)
        requires
            old(self).wf(),
        ensures
            final(self).wf(),
            final(self)@ == old(self)@.with(light_commands(lights@, *view_mtx)),
    {
        let ghost start = self@;
        let ghost all = light_commands(lights@, *view_mtx);
        let mut i: usize = 0;
        assert(start.commands + all.take(0) =~= start.commands);
        while i < lights.len()
            invariant
                i <= lights.len(),
                self.wf(),
                all == light_commands(lights@, *view_mtx),
                self@ == start.with(all.take(i as int)),
            decreases lights.len() - i,
        {
            let light = lights[i];
            let command = GpuCommand::SetLightPosition {
                light: light.index.number(),
                position: light.global_pos,
                camera: *view_mtx,
            };
            assert(all[i as int] == command);
            self.record(command);
            assert(start.commands + all.take(i as int) + seq![all[i as int]] =~= start.commands
                + all.take(i + 1));
            i += 1;
        }
        assert(all.take(all.len() as int) =~= all);
    }

    fn check_draw(&self, slice: &VboSlice, registry: &VboBuffer, pool: &LinearPool) -> (r: Result<
        (),
        RenderError,
    >)
        requires
            self.wf(),
            registry.wf(),
        ensures
            r == draw_outcome(self@, slice@, registry@, *pool),
    {
        if self.target.is_none() {
            return Err(RenderError::NoRenderTarget);
        }
        if self.shader.is_none() {
            return Err(RenderError::NoShaderBound);
        }
        let layout = match &self.attr_info {
            Some(layout) => layout,
            None => {
                return Err(RenderError::NoAttributeLayout);
            },
        };
        let epoch = self.frame.number();
        if slice.frame != epoch || registry.frame != epoch || !registry.has(slice) || !pool.is_live(
            slice.entry.buffer,
        ) {
            return Err(RenderError::StaleHandle);
        }
        if !layout.same_layout(&slice.entry.layout) {
            return Err(RenderError::AttributeMismatch);
        }
        Ok(())
    }

    /// Draws the vertices that `verts` stands for. `registry` is the
    /// registry that gave the handle, `pool` the pool of its buffer. Nothing
    /// but the draw call is recorded.
    pub fn draw(
        &mut self,
        prim: Primitive,
        verts: VboSlice,
        registry: &VboBuffer,
        pool: &LinearPool,
    ) -> (r: Result<(), RenderError>)
        requires
            old(self).wf(),
            registry.wf(),
            verts.wf(),
        ensures
            final(self).wf(),
            r == draw_outcome(old(self)@, verts@, registry@, *pool),
            r is Ok ==> final(self)@ == old(self)@.with(seq![draw_call(prim, verts@)]),
            r is Err ==> final(self)@ == old(self)@,
    {
        match self.check_draw(&verts, registry, pool) {
            Ok(()) => {},
            Err(e) => {
                return Err(e);
            },
        }
        self.record(
            GpuCommand::DrawArrays {
                primitive: prim,
                table: BufferTable { registry: verts.registry, generation: verts.generation },
                first: verts.index,
                count: verts.entry.len,
            },
        );
        Ok(())
    }

    /// Draws the vertices that `buf` stands for in the order that `indices`
    /// names them. The buffer of the indices has to be live as well. Nothing
    /// but the draw call is recorded.
    pub fn draw_indexed(
        &mut self,
        prim: Primitive,
        buf: &VboSlice,
        registry: &VboBuffer,
        indices: &LinearBuffer<u16>,
        pool: &LinearPool,
    ) -> (r: Result<(), RenderError>)
        requires
            old(self).wf(),
            registry.wf(),
            buf.wf(),
        ensures
            final(self).wf(),
            r == indexed_draw_outcome(old(self)@, buf@, registry@, indices.id(), *pool),
            r is Ok ==> final(self)@ == old(self)@.with(
                seq![indexed_draw_call(prim, buf@, indices.id(), indices@.len())],
            ),
            r is Err ==> final(self)@ == old(self)@,
    {
        match self.check_draw(buf, registry, pool) {
            Ok(()) => {},
            Err(e) => {
                return Err(e);
            },
        }
        if !pool.is_live(indices.handle()) {
            return Err(RenderError::StaleHandle);
        }
        self.record(
            GpuCommand::DrawElements {
                primitive: prim,
                table: BufferTable { registry: buf.registry, generation: buf.generation },
                indices: indices.handle(),
                count: indices.len(),
            },
        );
        Ok(())
    }
}

/// The draw call of the vertices that `slice` stands for: as many vertices
/// as the handle has, of the table that the handle draws from, starting at
/// the place of the handle.
pub open spec fn draw_call(prim: Primitive, slice: SliceView) -> GpuCommand {
    GpuCommand::DrawArrays {
        primitive: prim,
        table: slice.table(),
        first: slice.index as usize,
        count: slice.entry.len as usize,
    }
}

/// The draw call of the vertices that `slice` stands for, in the order of
/// the `count` indices in the buffer `indices`.
pub open spec fn indexed_draw_call(
    prim: Primitive,
    slice: SliceView,
    indices: u64,
    count: nat,
) -> GpuCommand {
    GpuCommand::DrawElements {
        primitive: prim,
        table: slice.table(),
        indices,
        count: count as usize,
    }
}

/// The handle that a fresh registry of `pass` gives for `entry`, if `entry`
/// is the first that it registers.
pub open spec fn single_slice(pass: PassView, entry: EntryView) -> SliceView {
    SliceView { frame: pass.epoch, registry: pass.registries, generation: 0, index: 0, entry }
}

/// A fresh registry of `pass` after it has registered `entry` and nothing
/// else.
pub open spec fn single_registry(pass: PassView, entry: EntryView) -> RegistryView {
    RegistryView { frame: pass.epoch, number: pass.registries, generation: 0, entries: seq![entry] }
}

/// The pass after a fresh registry was made in `pass` and has registered
/// `entry`.
pub open spec fn registered_alone(pass: PassView, entry: EntryView) -> PassView {
    (PassView { registries: (pass.registries + 1) as u64, ..pass }).with(
        seq![
            registration(
                RegistryView {
                    frame: pass.epoch,
                    number: pass.registries,
                    generation: 0,
                    entries: Seq::empty(),
                },
                entry,
            ),
        ],
    )
}

/// Whether an indexed draw of `slice` may go ahead, and if not, why not:
/// what holds for a plain draw, and the buffer of the indices is live.
pub open spec fn indexed_draw_outcome(
    pass: PassView,
    slice: SliceView,
    registry: RegistryView,
    indices: u64,
    pool: LinearPool,
) -> Result<(), RenderError> {
    if draw_outcome(pass, slice, registry, pool) is Err {
        draw_outcome(pass, slice, registry, pool)
    } else if !pool.holds(indices) {
        Err(RenderError::StaleHandle)
    } else {
        Ok(())
    }
}

/// A handle to a buffer that is gone is refused: whatever the pass, the
/// draw fails, and if the pass is ready to draw, it fails as stale.
pub proof fn lemma_released_buffer_is_stale(
    pass: PassView,
    slice: SliceView,
    registry: RegistryView,
    pool: LinearPool,
)
    requires
        !pool.holds(slice.entry.buffer),
    ensures
        draw_outcome(pass, slice, registry, pool) is Err,
        pass.stage() == PassStage::ReadyToDraw ==> draw_outcome(pass, slice, registry, pool) == Err::<
            (),
            RenderError,
        >(RenderError::StaleHandle),
{
}

/// A handle that a registry gave before it was reset is refused after the
/// reset: whatever the pass, the draw fails, and if the pass is ready to
/// draw, it fails as stale. `before` is the registry when it gave the
/// handle, `after` the registry at any time after the reset.
pub proof fn lemma_reset_registry_is_stale(
    pass: PassView,
    slice: SliceView,
    before: RegistryView,
    after: RegistryView,
    pool: LinearPool,
)
    requires
        registry_has_room(before),
        slice.generation == before.generation,
        after.generation > before.generation,
    ensures
        draw_outcome(pass, slice, after, pool) is Err,
        pass.stage() == PassStage::ReadyToDraw ==> draw_outcome(pass, slice, after, pool) == Err::<
            (),
            RenderError,
        >(RenderError::StaleHandle),
{
}

/// A handle is refused by every registry but the one that gave it: whatever
/// the pass, the draw fails, and if the pass is ready to draw, it fails as
/// stale.
pub proof fn lemma_other_registry_is_stale(
    pass: PassView,
    slice: SliceView,
    registry: RegistryView,
    pool: LinearPool,
)
    requires
        slice.registry != registry.number,
    ensures
        draw_outcome(pass, slice, registry, pool) is Err,
        pass.stage() == PassStage::ReadyToDraw ==> draw_outcome(pass, slice, registry, pool) == Err::<
            (),
            RenderError,
        >(RenderError::StaleHandle),
{
}

/// A handle of another frame is refused: whatever the pass, the draw fails,
/// and if the pass is ready to draw, it fails as stale.
pub proof fn lemma_other_frame_is_stale(
    pass: PassView,
    slice: SliceView,
    registry: RegistryView,
    pool: LinearPool,
)
    requires
        slice.frame != pass.epoch || registry.frame != pass.epoch,
    ensures
        draw_outcome(pass, slice, registry, pool) is Err,
        pass.stage() == PassStage::ReadyToDraw ==> draw_outcome(pass, slice, registry, pool) == Err::<
            (),
            RenderError,
        >(RenderError::StaleHandle),
{
}

/// Vertices that were registered with one layout are not drawn with
/// another: if the pass is ready to draw and the handle is live, but the
/// layout of the pass is not the layout of the handle, the draw is refused
/// as a mismatch.
pub proof fn lemma_layout_mismatch_is_refused(
    pass: PassView,
    slice: SliceView,
    registry: RegistryView,
    pool: LinearPool,
)
    requires
        pass.stage() == PassStage::ReadyToDraw,
        slice_is_live(slice, registry, pool, pass.epoch),
        pass.layout != Some(slice.entry.layout),
    ensures
        draw_outcome(pass, slice, registry, pool) == Err::<(), RenderError>(
            RenderError::AttributeMismatch,
        ),
{
}

/// A draw goes ahead if and only if the pass is ready to draw, the handle is
/// live, and the layout of the pass is the layout of the handle.
pub proof fn lemma_draw_goes_ahead(
    pass: PassView,
    slice: SliceView,
    registry: RegistryView,
    pool: LinearPool,
)
    ensures
        draw_outcome(pass, slice, registry, pool) is Ok <==> {
            &&& pass.stage() == PassStage::ReadyToDraw
            &&& slice_is_live(slice, registry, pool, pass.epoch)
            &&& pass.layout == Some(slice.entry.layout)
        },
{
}

/// One draw in a frame of its own. In a new frame a target is cleared and
/// selected, a program bound, a layout set, and one buffer of that layout
/// registered and drawn. If the buffer is live, the draw goes ahead, and the
/// record of the frame holds the begin of the frame, the clear, the
/// selection, the binding, the layout, the registration, the draw call and
/// the end of the frame, each once and in this order.
pub proof fn lemma_single_draw_is_recorded_in_order(
    epoch: u64,
    target: Target,
    colour: u32,
    depth: u32,
    entry: Entrypoint,
    vertices: EntryView,
    prim: Primitive,
    pool: LinearPool,
)
    requires
        pool.holds(vertices.buffer),
    ensures
        ({
            let fresh = PassView {
                epoch,
                registries: 0,
                target: None,
                shader: None,
                layout: None,
                commands: seq![GpuCommand::FrameBegin],
            };
            let cleared = fresh.with(
                seq![GpuCommand::ClearTarget { target: target.index, colour, depth }],
            );
            let selected = (PassView { target: Some(target.index), ..cleared }).with(
                seq![GpuCommand::SelectTarget { target: target.index }],
            );
            let bound = (PassView { shader: Some(entry), ..selected }).with(
                seq![GpuCommand::BindProgram { entry }],
            );
            let laid_out = (PassView { layout: Some(vertices.layout), ..bound }).with(
                seq![GpuCommand::SetAttrInfo { layout: info_of(vertices.layout) }],
            );
            let registered = registered_alone(laid_out, vertices);
            let slice = single_slice(laid_out, vertices);
            let table = BufferTable { registry: 0, generation: 0 };
            &&& draw_outcome(registered, slice, single_registry(laid_out, vertices), pool) is Ok
            &&& registered.with(seq![draw_call(prim, slice)]).commands.push(GpuCommand::FrameEnd)
                == seq![
                GpuCommand::FrameBegin,
                GpuCommand::ClearTarget { target: target.index, colour, depth },
                GpuCommand::SelectTarget { target: target.index },
                GpuCommand::BindProgram { entry },
                GpuCommand::SetAttrInfo { layout: info_of(vertices.layout) },
                GpuCommand::RegisterBuffer {
                    table,
                    place: 0,
                    buffer: vertices.buffer,
                    stride: vertices.stride as usize,
                    count: vertices.len as usize,
                    layout: info_of(vertices.layout),
                },
                GpuCommand::DrawArrays {
                    primitive: prim,
                    table,
                    first: 0,
                    count: vertices.len as usize,
                },
                GpuCommand::FrameEnd,
            ]
        }),
{
    let fresh = PassView {
        epoch,
        registries: 0,
        target: None,
        shader: None,
        layout: None,
        commands: seq![GpuCommand::FrameBegin],
    };
    let cleared = fresh.with(seq![GpuCommand::ClearTarget { target: target.index, colour, depth }]);
    let selected = (PassView { target: Some(target.index), ..cleared }).with(
        seq![GpuCommand::SelectTarget { target: target.index }],
    );
    let bound = (PassView { shader: Some(entry), ..selected }).with(
        seq![GpuCommand::BindProgram { entry }],
    );
    let laid_out = (PassView { layout: Some(vertices.layout), ..bound }).with(
        seq![GpuCommand::SetAttrInfo { layout: info_of(vertices.layout) }],
    );
    let registered = registered_alone(laid_out, vertices);
    let slice = single_slice(laid_out, vertices);
    let table = BufferTable { registry: 0, generation: 0 };
    assert(single_registry(laid_out, vertices).entries[0] == vertices);
    assert(registered.with(seq![draw_call(prim, slice)]).commands.push(GpuCommand::FrameEnd) =~= seq![
        GpuCommand::FrameBegin,
        GpuCommand::ClearTarget { target: target.index, colour, depth },
        GpuCommand::SelectTarget { target: target.index },
        GpuCommand::BindProgram { entry },
        GpuCommand::SetAttrInfo { layout: info_of(vertices.layout) },
        GpuCommand::RegisterBuffer {
            table,
            place: 0,
            buffer: vertices.buffer,
            stride: vertices.stride as usize,
            count: vertices.len as usize,
            layout: info_of(vertices.layout),
        },
        GpuCommand::DrawArrays { primitive: prim, table, first: 0, count: vertices.len as usize },
        GpuCommand::FrameEnd,
    ]);
}

} // verus!
