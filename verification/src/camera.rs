//! Cameras, the screens they draw to, and the filter that says which drawable
//! is shown by which camera.

use vstd::prelude::*;
use std::collections::HashMap;

verus! {

/// Identifies one logical camera.
#[derive(Clone, Copy, PartialEq, Eq, Debug, Structural)]
pub struct CameraID(pub u32);

impl Default for CameraID {
    fn default() -> (id: Self)
        ensures
            id == CameraID(0),
    {
        CameraID(0)
    }
}

impl From<u32> for CameraID {
    fn from(value: u32) -> (id: Self) {
        CameraID(value)
    }
}

impl vstd::std_specs::convert::FromSpecImpl<u32> for CameraID {
    open spec fn obeys_from_spec() -> bool {
        true
    }

    open spec fn from_spec(value: u32) -> Self {
        CameraID(value)
    }
}

impl CameraID {
    /// The number this camera is known by.
    pub fn into_inner(self) -> (n: u32)
        ensures
            n == self.0,
    {
        self.0
    }
}

/// One of the two pictures of the upper screen, one for each eye.
#[derive(Clone, Copy, PartialEq, Eq, Debug, Structural)]
pub enum Side {
    Left,
    Right,
}

/// The screen that a camera draws to. `F` is what makes the views of the two
/// eyes out of the view of the camera.
#[non_exhaustive]
pub enum On3dsScreen<F> {
    /// The lower screen.
    Bottom,
    /// The upper screen; in depth, if a way to part the eyes is given.
    Top(Option<F>),
}

impl<F> Default for On3dsScreen<F> {
    fn default() -> (screen: Self)
        ensures
            screen == On3dsScreen::<F>::Top(None),
    {
        On3dsScreen::Top(None)
    }
}

impl<F> On3dsScreen<F> {
    /// The place, among the render targets of a frame, of the target that
    /// this screen is drawn to for the eye `side`: 0 for the lower screen,
    /// 1 for the upper screen or its left picture, 2 for its right picture.
    pub open spec fn target_index(self, side: Option<Side>) -> usize {
        match (side, self) {
            (_, On3dsScreen::Bottom) => 0,
            (Some(Side::Right), On3dsScreen::Top(_)) => 2,
            (_, On3dsScreen::Top(_)) => 1,
        }
    }

    /// Whether the screen is drawn in depth.
    pub open spec fn in_depth(self) -> bool {
        self matches On3dsScreen::Top(Some(_))
    }

    pub fn to_target_index(&self, side: Option<Side>) -> (index: usize)
        ensures
            index == self.target_index(side),
    {
        match (side, self) {
            (_, On3dsScreen::Bottom) => 0,
            (None, On3dsScreen::Top(_)) => 1,
            (Some(Side::Left), On3dsScreen::Top(_)) => 1,
            (Some(Side::Right), On3dsScreen::Top(_)) => 2,
        }
    }
}

/// Which cameras a drawable is shown by.
#[derive(Clone, Debug)]
pub enum RenderOn {
    /// Shown by exactly the cameras listed.
    Specific(Vec<CameraID>),
    /// Shown by this camera and no other.
    Only(CameraID),
    /// Shown by every camera but this one.
    Except(CameraID),
}

impl Default for RenderOn {
    fn default() -> (on: Self)
        ensures
            on == RenderOn::Only(CameraID(0)),
    {
        RenderOn::Only(CameraID(0))
    }
}

impl RenderOn {
    /// Whether camera `cam` shows a drawable that carries this filter.
    pub open spec fn renders_in(self, cam: CameraID) -> bool {
        match self {
            RenderOn::Specific(ids) => ids@.contains(cam),
            RenderOn::Only(id) => id == cam,
            RenderOn::Except(id) => id != cam,
        }
    }

    pub fn should_render_in(&self, cam: CameraID) -> (shown: bool)
        ensures
            shown == self.renders_in(cam),
    {
        match self {
            RenderOn::Specific(ids) => {
                let mut i: usize = 0;
                while i < ids.len()
                    invariant
                        i <= ids.len(),
                        self.renders_in(cam) == ids@.contains(cam),
                        forall|j: int| 0 <= j < i ==> ids@[j] != cam,
                    decreases ids.len() - i,
                {
                    if ids[i] == cam {
                        assert(ids@[i as int] == cam);
                        return true;
                    }
                    i += 1;
                }
                false
            },
            RenderOn::Only(id) => *id == cam,
            RenderOn::Except(id) => *id != cam,
        }
    }

    /// Marks the filter as one that still has to be handed down to the
    /// children of the entity it sits on.
    pub fn make_pending(self) -> (pending: PendingRenderOn)
        ensures
            pending.0 == self,
    {
        PendingRenderOn(self)
    }
}

/// A filter that waits to be applied to every descendant of its entity.
pub struct PendingRenderOn(pub RenderOn);

/// The number that the host engine knows an entity by.
#[derive(Clone, Copy, PartialEq, Eq, Debug, Structural)]
pub struct Entity(pub u64);

/// A scene whose filter waits to be handed down.
#[derive(Debug)]
pub struct PendingScene {
    pub entity: Entity,
    pub children: Vec<Entity>,
}

/// What has to be done for one scene: its filter is put on every target, in
/// their order, and then it waits no longer.
#[derive(Debug)]
pub struct SceneUpdate {
    pub scene: Entity,
    pub targets: Vec<Entity>,
}

/// The entities below `children`, `depth` generations deep at most, each
/// behind all that are below it, and the children in their order.
pub open spec fn descendants(
    elements: Map<u64, Vec<Entity>>,
    children: Seq<Entity>,
    depth: nat,
) -> Seq<Entity>
    decreases depth, children.len(),
{
    if children.len() == 0 {
        Seq::empty()
    } else {
        let child = children.last();
        descendants(elements, children.drop_last(), depth) + (if depth > 0
            && elements.contains_key(child.0) {
            descendants(elements, elements[child.0]@, (depth - 1) as nat)
        } else {
            Seq::empty()
        }) + seq![child]
    }
}

fn set_render_on(
    targets: &mut Vec<Entity>,
    children: &Vec<Entity>,
    scene_elements: &HashMap<u64, Vec<Entity>>,
    depth: usize,
)
    ensures
        final(targets)@ == old(targets)@ + descendants(scene_elements@, children@, depth as nat),
    decreases depth,
{
    broadcast use vstd::std_specs::hash::group_hash_axioms;

    let mut i: usize = 0;
    assert(children@.take(0) =~= Seq::empty());
    assert(old(targets)@ + Seq::<Entity>::empty() =~= old(targets)@);
    while i < children.len()
        invariant
            i <= children.len(),
            targets@ == old(targets)@ + descendants(
                scene_elements@,
                children@.take(i as int),
                depth as nat,
            ),
        decreases children.len() - i,
    {
        let ghost upto = children@.take(i + 1);
        assert(upto.drop_last() =~= children@.take(i as int));
        assert(upto.last() == children@[i as int]);
        let ghost before = targets@;
        let child = children[i];
        if depth > 0 {
            match scene_elements.get(&child.0) {
                Some(grandchildren) => {
                    set_render_on(targets, grandchildren, scene_elements, depth - 1);
                },
                None => {
                    assert(targets@ + Seq::<Entity>::empty() =~= targets@);
                },
            }
        } else {
            assert(targets@ + Seq::<Entity>::empty() =~= targets@);
        }
        targets.push(child);
        assert(targets@ =~= old(targets)@ + descendants(scene_elements@, upto, depth as nat));
        i += 1;
    }
    assert(children@.take(children@.len() as int) =~= children@);
}

/// Hands the filter of every waiting scene down to all that is below the
/// scene.
///
/// `scene_elements` holds, for every entity that has children and does not
/// wait itself, its children. Nothing is followed deeper than there are
/// such entities.
pub fn pending_render_system(
    scenes: &Vec<PendingScene>,
    scene_elements: &HashMap<u64, Vec<Entity>>,
) -> (updates: Vec<SceneUpdate>)
    ensures
        updates@.len() == scenes@.len(),
        forall|i: int|
            0 <= i < scenes@.len() ==> {
                let update = #[trigger] updates@[i];
                &&& update.scene == scenes@[i].entity
                &&& update.targets@ == descendants(
                    scene_elements@,
                    scenes@[i].children@,
                    scene_elements@.len(),
                )
            },
{
    broadcast use vstd::std_specs::hash::group_hash_axioms;

    let depth: usize = scene_elements.len();
    let mut updates: Vec<SceneUpdate> = Vec::new();
    let mut i: usize = 0;
    while i < scenes.len()
        invariant
            i <= scenes.len(),
            depth == scene_elements@.len(),
            updates@.len() == i,
            forall|j: int|
                0 <= j < i ==> {
                    let update = #[trigger] updates@[j];
                    &&& update.scene == scenes@[j].entity
                    &&& update.targets@ == descendants(
                        scene_elements@,
                        scenes@[j].children@,
                        scene_elements@.len(),
                    )
                },
        decreases scenes.len() - i,
    {
        let mut targets: Vec<Entity> = Vec::new();
        set_render_on(&mut targets, &scenes[i].children, scene_elements, depth);
        assert(targets@ =~= descendants(
            scene_elements@,
            scenes@[i as int].children@,
            scene_elements@.len(),
        ));
        updates.push(SceneUpdate { scene: scenes[i].entity, targets });
        i += 1;
    }
    updates
}

} // verus!
