//! The device and the frames it opens.
//!
//! All GPU work happens inside a frame, and a device has at most one frame
//! open at a time. A frame is a value: who holds it may record commands, and
//! handing it back to the device ends it.

use vstd::prelude::*;
use crate::command::GpuCommand;
use crate::error::RenderError;

verus! {

/// The GPU as far as frames are concerned.
#[derive(Debug)]
pub struct GpuDevice {
    frame_open: bool,
    epoch: u64,
}

/// An open frame, with what was recorded in it so far.
#[derive(Debug)]
pub struct Citro3dFrame {
    epoch: u64,
    registries: u64,
    commands: Vec<GpuCommand>,
}

/// Whether `commands` is what an open frame can hold: the begin of the
/// frame, and after it anything but the begin or the end of a frame.
pub open spec fn recorded_in_frame(commands: Seq<GpuCommand>) -> bool {
    &&& commands.len() >= 1
    &&& commands[0] == GpuCommand::FrameBegin
    &&& forall|i: int| 1 <= i < commands.len() ==> !(#[trigger] commands[i]).is_frame_boundary()
}

/// Whether `commands` is the record of one whole frame: it begins with the
/// begin of the frame, ends with its end, and no frame begins or ends in
/// between.
pub open spec fn whole_frame(commands: Seq<GpuCommand>) -> bool {
    &&& commands.len() >= 2
    &&& commands[0] == GpuCommand::FrameBegin
    &&& commands.last() == GpuCommand::FrameEnd
    &&& forall|i: int|
        1 <= i < commands.len() - 1 ==> !(#[trigger] commands[i]).is_frame_boundary()
}

impl Citro3dFrame {
    /// The number of the frame, counted by its device.
    pub closed spec fn epoch(self) -> u64 {
        self.epoch
    }

    /// What was recorded so far.
    pub closed spec fn commands(self) -> Seq<GpuCommand> {
        self.commands@
    }

    /// How many registries of vertex buffers were made in the frame so far.
    pub closed spec fn registries(self) -> u64 {
        self.registries
    }

    /// What every frame satisfies.
    pub open spec fn wf(self) -> bool {
        recorded_in_frame(self.commands())
    }

    /// Opens a frame on `gpu`.
    pub fn new(gpu: &mut GpuDevice) -> (r: Result<Citro3dFrame, RenderError>)
        ensures
            frame_started(*old(gpu), *final(gpu), r),
    {
        gpu.start_new_frame()
    }

    pub fn number(&self) -> (n: u64)
        ensures
            n == self.epoch(),
    {
        self.epoch
    }

    pub(crate) fn record(&mut self, command: GpuCommand)
        ensures
            final(self).epoch() == old(self).epoch(),
            final(self).registries() == old(self).registries(),
            final(self).commands() == old(self).commands().push(command),
    {
        self.commands.push(command);
    }

    pub(crate) fn registries_made(&self) -> (n: u64)
        ensures
            n == self.registries(),
    {
        self.registries
    }

    /// Counts one more registry, and gives its number.
    pub(crate) fn count_registry(&mut self) -> (number: u64)
        requires
            old(self).registries() < u64::MAX,
        ensures
            number == old(self).registries(),
            final(self).registries() == old(self).registries() + 1,
            final(self).epoch() == old(self).epoch(),
            final(self).commands() == old(self).commands(),
    {
        let number = self.registries;
        self.registries = number + 1;
        number
    }
}

/// What asking a device for a new frame does: with a frame open, or with
/// the frame counter at its end, the device stays as it is and the error says
/// which; else the device has the next frame open, and nothing is recorded in
/// it but its begin.
pub open spec fn frame_started(
    before: GpuDevice,
    after: GpuDevice,
    r: Result<Citro3dFrame, RenderError>,
) -> bool {
    if before.frame_open() {
        r is Err && r->Err_0 == RenderError::FrameAlreadyOpen && after == before
    } else if before.epoch() == u64::MAX {
        r is Err && r->Err_0 == RenderError::FrameCounterExhausted && after == before
    } else {
        &&& r is Ok
        &&& r->Ok_0.epoch() == before.epoch() + 1
        &&& r->Ok_0.registries() == 0
        &&& r->Ok_0.commands() == seq![GpuCommand::FrameBegin]
        &&& after.frame_open()
        &&& after.epoch() == before.epoch() + 1
    }
}

/// What handing a frame back to a device does: the frame that the device has
/// open is ended and its record comes out, closed by the end of the frame;
/// any other frame is refused and the device stays as it is.
pub open spec fn frame_ended(
    before: GpuDevice,
    frame: Citro3dFrame,
    after: GpuDevice,
    r: Result<Vec<GpuCommand>, RenderError>,
) -> bool {
    if before.holds_open(frame.epoch()) {
        &&& r is Ok
        &&& r->Ok_0@ == frame.commands().push(GpuCommand::FrameEnd)
        &&& !after.frame_open()
        &&& after.epoch() == before.epoch()
    } else {
        r is Err && r->Err_0 == RenderError::FrameNotOpen && after == before
    }
}

impl GpuDevice {
    /// Whether a frame is open.
    pub closed spec fn frame_open(self) -> bool {
        self.frame_open
    }

    /// The number of the frame that was opened last; 0 if none ever was.
    pub closed spec fn epoch(self) -> u64 {
        self.epoch
    }

    /// Whether the frame with number `epoch` is the one that is open.
    pub open spec fn holds_open(self, epoch: u64) -> bool {
        self.frame_open() && self.epoch() == epoch
    }

    /// A device that has not opened a frame yet.
    pub fn new() -> (gpu: GpuDevice)
        ensures
            !gpu.frame_open(),
            gpu.epoch() == 0,
    {
        GpuDevice { frame_open: false, epoch: 0 }
    }

    /// Whether a frame is open.
    pub fn has_frame_open(&self) -> (open: bool)
        ensures
            open == self.frame_open(),
    {
        self.frame_open
    }

    /// Opens a frame.
    pub fn start_new_frame(&mut self) -> (r: Result<Citro3dFrame, RenderError>)
        ensures
            frame_started(*old(self), *final(self), r),
    {
        if self.frame_open {
            return Err(RenderError::FrameAlreadyOpen);
        }
        if self.epoch == u64::MAX {
            return Err(RenderError::FrameCounterExhausted);
        }
        self.epoch = self.epoch + 1;
        self.frame_open = true;
        let mut commands: Vec<GpuCommand> = Vec::new();
        commands.push(GpuCommand::FrameBegin);
        Ok(Citro3dFrame { epoch: self.epoch, registries: 0, commands })
    }

    /// Whether `frame` is the frame that this device has open.
    pub fn is_current(&self, frame: &Citro3dFrame) -> (current: bool)
        ensures
            current == self.holds_open(frame.epoch()),
    {
        self.frame_open && self.epoch == frame.epoch
    }

    /// Ends `frame` and gives what was recorded in it, for the driver to
    /// carry out.
    pub fn end_frame(&mut self, frame: Citro3dFrame) -> (r: Result<Vec<GpuCommand>, RenderError>)
        ensures
            frame_ended(*old(self), frame, *final(self), r),
    {
        if !self.frame_open || self.epoch != frame.epoch {
            return Err(RenderError::FrameNotOpen);
        }
        self.frame_open = false;
        let mut commands = frame.commands;
        commands.push(GpuCommand::FrameEnd);
        Ok(commands)
    }
}

impl Default for GpuDevice {
    fn default() -> (gpu: GpuDevice)
        ensures
            !gpu.frame_open(),
            gpu.epoch() == 0,
    {
        GpuDevice::new()
    }
}

/// While a frame is open, a second one cannot be had.
pub proof fn lemma_frames_do_not_nest(
    before: GpuDevice,
    after: GpuDevice,
    r: Result<Citro3dFrame, RenderError>,
)
    requires
        before.frame_open(),
        frame_started(before, after, r),
    ensures
        r is Err,
        r->Err_0 == RenderError::FrameAlreadyOpen,
        after == before,
{
}

/// A frame that was ended is refused from then on, whatever the device has
/// done since: it has opened no frame, or frames with later numbers.
pub proof fn lemma_ended_frame_is_refused(
    before: GpuDevice,
    frame: Citro3dFrame,
    ended: GpuDevice,
    later: GpuDevice,
    again: GpuDevice,
    first: Result<Vec<GpuCommand>, RenderError>,
    second: Result<Vec<GpuCommand>, RenderError>,
)
    requires
        frame_ended(before, frame, ended, first),
        first is Ok,
        later == ended || later.epoch() > ended.epoch(),
        frame_ended(later, frame, again, second),
    ensures
        second is Err,
        second->Err_0 == RenderError::FrameNotOpen,
        again == later,
{
}

/// The record that comes out of a frame is that of one whole frame.
pub proof fn lemma_record_is_whole_frame(
    before: GpuDevice,
    frame: Citro3dFrame,
    after: GpuDevice,
    r: Result<Vec<GpuCommand>, RenderError>,
)
    requires
        frame.wf(),
        frame_ended(before, frame, after, r),
        r is Ok,
    ensures
        whole_frame(r->Ok_0@),
{
}

/// A device without an open frame opens one, unless its frame counter is
/// at its end, and nothing is recorded in the new frame but its begin.
pub proof fn lemma_new_frame_holds_its_begin(
    before: GpuDevice,
    after: GpuDevice,
    r: Result<Citro3dFrame, RenderError>,
)
    requires
        !before.frame_open(),
        before.epoch() < u64::MAX,
        frame_started(before, after, r),
    ensures
        r is Ok,
        r->Ok_0.commands() == seq![GpuCommand::FrameBegin],
        after.frame_open(),
{
}

/// A frame begins once and ends once: in the record of a whole frame the
/// first command, and no other, is the begin of the frame, and the last
/// command, and no other, is its end.
pub proof fn lemma_frame_begins_and_ends_once(commands: Seq<GpuCommand>)
    requires
        whole_frame(commands),
    ensures
        forall|i: int|
            0 <= i < commands.len() ==> (#[trigger] commands[i] == GpuCommand::FrameBegin <==> i
                == 0),
        forall|i: int|
            0 <= i < commands.len() ==> (#[trigger] commands[i] == GpuCommand::FrameEnd <==> i
                == commands.len() - 1),
{
    assert forall|i: int| 0 <= i < commands.len() implies (#[trigger] commands[i]
        == GpuCommand::FrameBegin <==> i == 0) && (commands[i] == GpuCommand::FrameEnd <==> i
        == commands.len() - 1) by {
        if 1 <= i < commands.len() - 1 {
            assert(!commands[i].is_frame_boundary());
        }
    }
}

} // verus!
