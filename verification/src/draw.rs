//! Render commands and the registry that runs them.
//!
//! A render command draws one kind of thing. The commands of a registry run
//! in the order in which they were registered, each on the pass as the one
//! before left it, and the first that fails ends the run.

use vstd::prelude::*;
use core::marker::PhantomData;
use crate::camera::CameraID;
use crate::command::{without_clear, GpuCommand};
use crate::error::RenderError;
use crate::pass::{PassView, RenderPass};
use crate::world::{ExtractedView, RenderWorld};

verus! {

/// Whether a pass that was `before` can have become `after` by recording
/// more in the same frame.
pub open spec fn recorded_more(before: PassView, after: PassView) -> bool {
    after.epoch == before.epoch && before.commands.is_prefix_of(after.commands)
}

/// Whether nothing that was recorded from `before` to `after` clears a
/// render target.
pub open spec fn cleared_nothing(before: PassView, after: PassView) -> bool {
    forall|i: int|
        before.commands.len() <= i < after.commands.len() ==> !(
        #[trigger] after.commands[i]).is_clear()
}

/// A way to draw one kind of thing, which keeps nothing between frames.
pub trait RenderCommand {
    /// What [`RenderCommand::render`] does, or may do, to the pass. Unless
    /// a command says more, nothing is known of it but that it records in
    /// the frame of the pass.
    open spec fn rendered(
        world: RenderWorld,
        before: PassView,
        view: ExtractedView,
        cam: CameraID,
        after: PassView,
        r: Result<(), RenderError>,
    ) -> bool {
        true
    }

    /// Draws what camera `cam` sees of this kind, looking through `view`.
    fn render(world: &RenderWorld, pass: &mut RenderPass, view: &ExtractedView, cam: CameraID) -> (r:
        Result<(), RenderError>)
        requires
            world.wf(),
            old(pass).wf(),
        ensures
            final(pass).wf(),
            recorded_more(old(pass)@, final(pass)@),
            Self::rendered(*world, old(pass)@, *view, cam, final(pass)@, r),
    ;
}

/// Something that can be registered to draw in every pass.
pub trait Draw: Sized {
    /// What [`Draw::prepare`] does, or may do, to the command. Unless a
    /// command says more, nothing is known of it.
    open spec fn prepared(before: Self, world: RenderWorld, after: Self) -> bool {
        true
    }

    /// What [`Draw::draw`] does, or may do, to the command and the pass.
    /// Unless a command says more, nothing is known of it but that it
    /// records in the frame of the pass.
    open spec fn drew(
        before: Self,
        world: RenderWorld,
        pass_before: PassView,
        view: ExtractedView,
        cam: CameraID,
        after: Self,
        pass_after: PassView,
        r: Result<(), RenderError>,
    ) -> bool {
        true
    }

    /// Brings what the command keeps of the world up to date. Called once
    /// per frame, before any draw.
    fn prepare(&mut self, world: &RenderWorld)
        requires
            world.wf(),
        ensures
            Self::prepared(*old(self), *world, *final(self)),
    ;

    /// Draws what camera `cam` sees, looking through `view`.
    fn draw(
        &mut self,
        world: &RenderWorld,
        pass: &mut RenderPass,
        view: &ExtractedView,
        cam: CameraID,
    ) -> (r: Result<(), RenderError>)
        requires
            world.wf(),
            old(pass).wf(),
        ensures
            final(pass).wf(),
            recorded_more(old(pass)@, final(pass)@),
            Self::drew(*old(self), *world, old(pass)@, *view, cam, *final(self), final(pass)@, r),
    ;
}

/// A [`RenderCommand`] made ready for a registry.
pub struct RenderCommandState<C: RenderCommand> {
    command: PhantomData<C>,
}

impl<C: RenderCommand> RenderCommandState<C> {
    pub fn new() -> (state: Self) {
        RenderCommandState { command: PhantomData }
    }
}

impl<C: RenderCommand> Draw for RenderCommandState<C> {
    open spec fn prepared(before: Self, world: RenderWorld, after: Self) -> bool {
        after == before
    }

    open spec fn drew(
        before: Self,
        world: RenderWorld,
        pass_before: PassView,
        view: ExtractedView,
        cam: CameraID,
        after: Self,
        pass_after: PassView,
        r: Result<(), RenderError>,
    ) -> bool {
        after == before && C::rendered(world, pass_before, view, cam, pass_after, r)
    }

    fn prepare(&mut self, world: &RenderWorld) {
    }

    fn draw(
        &mut self,
        world: &RenderWorld,
        pass: &mut RenderPass,
        view: &ExtractedView,
        cam: CameraID,
    ) -> (r: Result<(), RenderError>) {
        C::render(world, pass, view, cam)
    }
}

/// Whether the commands of kind `D` draw without clearing a render target,
/// whatever they are asked to draw.
pub open spec fn draws_without_clearing<D: Draw>() -> bool {
    forall|
        before: D,
        world: RenderWorld,
        pass_before: PassView,
        view: ExtractedView,
        cam: CameraID,
        after: D,
        pass_after: PassView,
        r: Result<(), RenderError>,
    |
        recorded_more(pass_before, pass_after) && #[trigger] D::drew(
            before,
            world,
            pass_before,
            view,
            cam,
            after,
            pass_after,
            r,
        ) ==> cleared_nothing(pass_before, pass_after)
}

/// What command `i` of a run returned, if the run as a whole returned `r`
/// after `invoked` commands: the last one returned `r`, all before it
/// succeeded.
pub open spec fn step_result(r: Result<(), RenderError>, i: int, invoked: int) -> Result<
    (),
    RenderError,
> {
    if i == invoked - 1 {
        r
    } else {
        Ok(())
    }
}

/// Whether `passes` are the states that the pass went through while the
/// commands `before` ran: the pass as it was at the start, and then as each
/// command that was invoked left it.
///
/// The commands are invoked in their order, each on the pass as the one
/// before it left it. All but the last one invoked succeed. If the last one
/// fails, its error is the result and the commands after it are not
/// invoked: they stay as they were. If it succeeds, it is the last command
/// there is.
pub open spec fn run_trace<D: Draw>(
    before: Seq<D>,
    world: RenderWorld,
    start: PassView,
    view: ExtractedView,
    cam: CameraID,
    after: Seq<D>,
    end: PassView,
    r: Result<(), RenderError>,
    passes: Seq<PassView>,
) -> bool {
    let invoked = passes.len() - 1;
    &&& after.len() == before.len()
    &&& 0 <= invoked <= before.len()
    &&& passes[0] == start
    &&& passes[invoked] == end
    &&& forall|i: int|
        0 <= i < invoked ==> recorded_more(#[trigger] passes[i], passes[i + 1]) && D::drew(
            before[i],
            world,
            passes[i],
            view,
            cam,
            after[i],
            passes[i + 1],
            step_result(r, i, invoked),
        )
    &&& forall|j: int| invoked <= j < before.len() ==> after[j] == before[j]
    &&& r is Ok ==> invoked == before.len()
    &&& r is Err ==> invoked >= 1
}

/// What a run of the commands `before` does.
pub open spec fn ran<D: Draw>(
    before: Seq<D>,
    world: RenderWorld,
    start: PassView,
    view: ExtractedView,
    cam: CameraID,
    after: Seq<D>,
    end: PassView,
    r: Result<(), RenderError>,
) -> bool {
    exists|passes: Seq<PassView>|
        run_trace(before, world, start, view, cam, after, end, r, passes)
}

/// The render commands of an application, in the order in which they were
/// registered.
pub struct DrawCommands<D: Draw> {
    commands: Vec<D>,
}

impl<D: Draw> View for DrawCommands<D> {
    type V = Seq<D>;

    closed spec fn view(&self) -> Seq<D> {
        self.commands@
    }
}

impl<D: Draw> DrawCommands<D> {
    /// A registry without commands.
    pub fn new() -> (registry: Self)
        ensures
            registry@ == Seq::<D>::empty(),
    {
        DrawCommands { commands: Vec::new() }
    }

    /// Registers `command` behind all that are registered.
    pub fn add_render_command(&mut self, command: D)
        ensures
            final(self)@ == old(self)@.push(command),
    {
        self.commands.push(command);
    }

    /// How many commands are registered.
    pub fn len(&self) -> (n: usize)
        ensures
            n == self@.len(),
    {
        self.commands.len()
    }

    /// Prepares every command, in the order of registration. Nothing is
    /// drawn.
    pub fn prepare(&mut self, world: &RenderWorld)
        requires
            world.wf(),
        ensures
            final(self)@.len() == old(self)@.len(),
            forall|i: int|
                0 <= i < old(self)@.len() ==> D::prepared(
                    old(self)@[i],
                    *world,
                    #[trigger] final(self)@[i],
                ),
    {
        let n: usize = self.commands.len();
        let mut i: usize = 0;
        while i < n
            invariant
                world.wf(),
                i <= n,
                n == old(self)@.len(),
                self@.len() == n,
                forall|j: int| 0 <= j < i ==> D::prepared(old(self)@[j], *world, #[trigger] self@[j]),
                forall|j: int| i <= j < n ==> self@[j] == old(self)@[j],
            decreases n - i,
        {
            self.commands[i].prepare(world);
            i += 1;
        }
    }

    /// Runs every command on `pass`, in the order of registration, until
    /// one fails.
    pub fn run(
        &mut self,
        world: &RenderWorld,
        pass: &mut RenderPass,
        view: &ExtractedView,
        cam: CameraID,
    ) -> (r: Result<(), RenderError>)
        requires
            world.wf(),
            old(pass).wf(),
        ensures
            final(pass).wf(),
            recorded_more(old(pass)@, final(pass)@),
            ran(old(self)@, *world, old(pass)@, *view, cam, final(self)@, final(pass)@, r),
    {
        let n: usize = self.commands.len();
        let ghost mut passes: Seq<PassView> = seq![pass@];
        let mut i: usize = 0;
        while i < n
            invariant
                world.wf(),
                pass.wf(),
                i <= n,
                n == old(self)@.len(),
                self@.len() == n,
                passes.len() == i + 1,
                passes[0] == old(pass)@,
                passes[i as int] == pass@,
                recorded_more(old(pass)@, pass@),
                forall|j: int|
                    0 <= j < i ==> recorded_more(#[trigger] passes[j], passes[j + 1]) && D::drew(
                        old(self)@[j],
                        *world,
                        passes[j],
                        *view,
                        cam,
                        self@[j],
                        passes[j + 1],
                        Ok(()),
                    ),
                forall|j: int| i <= j < n ==> self@[j] == old(self)@[j],
            decreases n - i,
        {
            let ghost entered = pass@;
            let ghost earlier = passes;
            let ghost untouched = self@;
            let r = self.commands[i].draw(world, pass, view, cam);
            proof {
                passes = passes.push(pass@);
                assert(self@.len() == n);
                assert(forall|j: int| 0 <= j < n && j != i ==> self@[j] == untouched[j]);
                assert(passes[i as int] == entered);
                assert(passes[i + 1] == pass@);
                assert(D::drew(
                    old(self)@[i as int],
                    *world,
                    passes[i as int],
                    *view,
                    cam,
                    self@[i as int],
                    passes[i + 1],
                    r,
                ));
                assert forall|j: int| 0 <= j < i implies recorded_more(
                    #[trigger] passes[j],
                    passes[j + 1],
                ) && D::drew(
                    old(self)@[j],
                    *world,
                    passes[j],
                    *view,
                    cam,
                    self@[j],
                    passes[j + 1],
                    Ok(()),
                ) by {
                    assert(passes[j] == earlier[j]);
                    assert(passes[j + 1] == earlier[j + 1]);
                    assert(recorded_more(earlier[j], earlier[j + 1]));
                }
            }
            match r {
                Ok(()) => {
                    assert(r->Ok_0 == ());
                },
                Err(e) => {
                    proof {
                        assert forall|j: int| 0 <= j < i + 1 implies recorded_more(
                            #[trigger] passes[j],
                            passes[j + 1],
                        ) && D::drew(
                            old(self)@[j],
                            *world,
                            passes[j],
                            *view,
                            cam,
                            self@[j],
                            passes[j + 1],
                            step_result(r, j, i + 1),
                        ) by {
                            if j < i {
                                assert(recorded_more(passes[j], passes[j + 1]));
                            }
                        }
                        assert(run_trace(
                            old(self)@,
                            *world,
                            old(pass)@,
                            *view,
                            cam,
                            self@,
                            pass@,
                            r,
                            passes,
                        ));
                    }
                    return Err(e);
                },
            }
            i += 1;
        }
        proof {
            assert forall|j: int| 0 <= j < n implies recorded_more(
                #[trigger] passes[j],
                passes[j + 1],
            ) && D::drew(
                old(self)@[j],
                *world,
                passes[j],
                *view,
                cam,
                self@[j],
                passes[j + 1],
                step_result(Ok(()), j, n as int),
            ) by {
                assert(recorded_more(passes[j], passes[j + 1]));
            }
            assert(run_trace(
                old(self)@,
                *world,
                old(pass)@,
                *view,
                cam,
                self@,
                pass@,
                Ok(()),
                passes,
            ));
        }
        Ok(())
    }
}

impl<D: Draw> Default for DrawCommands<D> {
    fn default() -> (registry: Self)
        ensures
            registry@ == Seq::<D>::empty(),
    {
        DrawCommands::new()
    }
}

/// What an earlier command recorded stands before what a later command
/// recorded: the record only ever grows along a run.
pub proof fn lemma_run_keeps_order<D: Draw>(
    before: Seq<D>,
    world: RenderWorld,
    start: PassView,
    view: ExtractedView,
    cam: CameraID,
    after: Seq<D>,
    end: PassView,
    r: Result<(), RenderError>,
    passes: Seq<PassView>,
    i: int,
    j: int,
)
    requires
        run_trace(before, world, start, view, cam, after, end, r, passes),
        0 <= i <= j < passes.len(),
    ensures
        recorded_more(passes[i], passes[j]),
    decreases j - i,
{
    if i < j {
        lemma_run_keeps_order(before, world, start, view, cam, after, end, r, passes, i, j - 1);
        assert(recorded_more(passes[j - 1], passes[j - 1 + 1]));
    }
}

/// A run that fails returns the error of the command that failed. That
/// command is the last one invoked: every command before it succeeded, and
/// no command after it has changed.
pub proof fn lemma_run_fails_fast<D: Draw>(
    before: Seq<D>,
    world: RenderWorld,
    start: PassView,
    view: ExtractedView,
    cam: CameraID,
    after: Seq<D>,
    end: PassView,
    r: Result<(), RenderError>,
    passes: Seq<PassView>,
)
    requires
        run_trace(before, world, start, view, cam, after, end, r, passes),
        r is Err,
    ensures
        ({
            let failed = passes.len() - 2;
            &&& 0 <= failed < before.len()
            &&& D::drew(
                before[failed],
                world,
                passes[failed],
                view,
                cam,
                after[failed],
                end,
                r,
            )
            &&& forall|i: int|
                0 <= i < failed ==> D::drew(
                    before[i],
                    world,
                    #[trigger] passes[i],
                    view,
                    cam,
                    after[i],
                    passes[i + 1],
                    Ok(()),
                )
            &&& forall|j: int| failed < j < before.len() ==> #[trigger] after[j] == before[j]
        }),
{
    let failed = passes.len() - 2;
    assert(recorded_more(passes[failed], passes[failed + 1]));
    assert forall|i: int| 0 <= i < failed implies D::drew(
        before[i],
        world,
        #[trigger] passes[i],
        view,
        cam,
        after[i],
        passes[i + 1],
        Ok(()),
    ) by {
        assert(recorded_more(passes[i], passes[i + 1]));
    }
}

/// A run that succeeds has invoked every command.
pub proof fn lemma_run_invokes_all<D: Draw>(
    before: Seq<D>,
    world: RenderWorld,
    start: PassView,
    view: ExtractedView,
    cam: CameraID,
    after: Seq<D>,
    end: PassView,
    r: Result<(), RenderError>,
    passes: Seq<PassView>,
)
    requires
        run_trace(before, world, start, view, cam, after, end, r, passes),
        r is Ok,
    ensures
        passes.len() == before.len() + 1,
        forall|i: int|
            0 <= i < before.len() ==> D::drew(
                before[i],
                world,
                #[trigger] passes[i],
                view,
                cam,
                after[i],
                passes[i + 1],
                Ok(()),
            ),
{
    assert forall|i: int| 0 <= i < before.len() implies D::drew(
        before[i],
        world,
        #[trigger] passes[i],
        view,
        cam,
        after[i],
        passes[i + 1],
        Ok(()),
    ) by {
        assert(recorded_more(passes[i], passes[i + 1]));
        assert(r->Ok_0 == ());
    }
}

/// What is recorded behind a pass is recorded in its frame, and clears
/// nothing if none of the commands does.
pub proof fn lemma_more_without_clear(before: PassView, more: Seq<GpuCommand>, after: PassView)
    requires
        after.epoch == before.epoch,
        after.commands == before.commands + more,
    ensures
        recorded_more(before, after),
        without_clear(more) ==> cleared_nothing(before, after),
{
    assert(before.commands =~= after.commands.subrange(0, before.commands.len() as int));
    if without_clear(more) {
        assert forall|i: int| before.commands.len() <= i < after.commands.len() implies !(
        #[trigger] after.commands[i]).is_clear() by {
            assert(after.commands[i] == more[i - before.commands.len()]);
        }
    }
}

/// Recording goes on: what was recorded behind `first`, and then behind
/// `second`, was recorded behind `first`; and if neither part cleared
/// anything, nothing was cleared.
pub proof fn lemma_recorded_more_goes_on(first: PassView, second: PassView, third: PassView)
    requires
        recorded_more(first, second),
        recorded_more(second, third),
    ensures
        recorded_more(first, third),
        cleared_nothing(first, second) && cleared_nothing(second, third) ==> cleared_nothing(
            first,
            third,
        ),
{
    assert(first.commands =~= third.commands.subrange(0, first.commands.len() as int)) by {
        assert forall|i: int| 0 <= i < first.commands.len() implies first.commands[i]
            == third.commands[i] by {
            assert(first.commands[i] == second.commands[i]);
            assert(second.commands[i] == third.commands[i]);
        }
    }
    if cleared_nothing(first, second) && cleared_nothing(second, third) {
        assert forall|i: int| first.commands.len() <= i < third.commands.len() implies !(
        #[trigger] third.commands[i]).is_clear() by {
            if i < second.commands.len() {
                assert(second.commands[i] == third.commands[i]);
            }
        }
    }
}

proof fn lemma_trace_records_more<D: Draw>(
    before: Seq<D>,
    world: RenderWorld,
    start: PassView,
    view: ExtractedView,
    cam: CameraID,
    after: Seq<D>,
    end: PassView,
    r: Result<(), RenderError>,
    passes: Seq<PassView>,
    k: int,
)
    requires
        run_trace(before, world, start, view, cam, after, end, r, passes),
        0 <= k < passes.len(),
    ensures
        recorded_more(start, passes[k]),
        draws_without_clearing::<D>() ==> cleared_nothing(start, passes[k]),
    decreases k,
{
    if k > 0 {
        lemma_trace_records_more(before, world, start, view, cam, after, end, r, passes, k - 1);
        let (mid, next) = (passes[k - 1], passes[k]);
        assert(recorded_more(mid, next));
        assert(start.commands.is_prefix_of(next.commands)) by {
            assert(start.commands =~= next.commands.subrange(0, start.commands.len() as int)) by {
                assert forall|i: int| 0 <= i < start.commands.len() implies start.commands[i]
                    == next.commands[i] by {
                    assert(start.commands[i] == mid.commands[i]);
                    assert(mid.commands[i] == next.commands[i]);
                }
            }
        }
        if draws_without_clearing::<D>() {
            assert(D::drew(
                before[k - 1],
                world,
                mid,
                view,
                cam,
                after[k - 1],
                next,
                step_result(r, k - 1, passes.len() - 1),
            ));
            assert(cleared_nothing(mid, next));
            assert forall|i: int| start.commands.len() <= i < next.commands.len() implies !(
            #[trigger] next.commands[i]).is_clear() by {
                if i < mid.commands.len() {
                    assert(mid.commands[i] == next.commands[i]);
                }
            }
        }
    } else {
        assert(start.commands.is_prefix_of(start.commands));
    }
}

/// A run records behind what the pass held, in the frame of the pass. If
/// the commands draw without clearing a render target, so does the run.
pub proof fn lemma_run_records_more<D: Draw>(
    before: Seq<D>,
    world: RenderWorld,
    start: PassView,
    view: ExtractedView,
    cam: CameraID,
    after: Seq<D>,
    end: PassView,
    r: Result<(), RenderError>,
)
    requires
        ran(before, world, start, view, cam, after, end, r),
    ensures
        recorded_more(start, end),
        draws_without_clearing::<D>() ==> cleared_nothing(start, end),
{
    let passes = choose|passes: Seq<PassView>|
        run_trace(before, world, start, view, cam, after, end, r, passes);
    lemma_trace_records_more(
        before,
        world,
        start,
        view,
        cam,
        after,
        end,
        r,
        passes,
        passes.len() - 1,
    );
}

} // verus!
