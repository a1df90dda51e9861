//! The lights of the fixed-function lighting unit.

use vstd::prelude::*;
use crate::math::Vec3;

verus! {

/// How many lights the lighting unit has.
pub const NB_LIGHTS: usize = 8;

/// One of the lights of the lighting unit.
#[derive(Debug, Clone, Copy, PartialEq, Eq, Structural)]
pub struct LightIndex(usize);

impl LightIndex {
    /// The place of the light in the lighting unit.
    pub closed spec fn index(self) -> nat {
        self.0 as nat
    }

    #[verifier::type_invariant]
    spec fn inv(self) -> bool {
        self.0 < NB_LIGHTS
    }

    /// Light `index`, if the lighting unit has it.
    pub fn new(index: usize) -> (light: Option<LightIndex>)
        ensures
            index < NB_LIGHTS ==> light is Some && light->Some_0.index() == index,
            index >= NB_LIGHTS ==> light is None,
    {
        if index < NB_LIGHTS {
            Some(LightIndex(index))
        } else {
            None
        }
    }

    pub fn number(&self) -> (n: usize)
        ensures
            n == self.index(),
            n < NB_LIGHTS,
    {
        proof {
            use_type_invariant(self);
        }
        self.0
    }
}

/// A light that the GPU has, and where it stands.
#[derive(Debug, Clone, Copy, PartialEq, Eq, Structural)]
pub struct GpuLight {
    pub index: LightIndex,
    pub global_pos: Vec3,
}

/// The lights that are lit in this frame.
#[derive(Debug)]
pub struct GpuLights {
    pub lights: Vec<GpuLight>,
}

impl Default for GpuLights {
    fn default() -> (lights: GpuLights)
        ensures
            lights.lights@ == Seq::<GpuLight>::empty(),
    {
        GpuLights { lights: Vec::new() }
    }
}

/// A light of the scene.
#[derive(Debug, Clone, Copy, PartialEq, Eq, Structural)]
pub struct ExtractedPointLight {
    /// Where the light stands in the world.
    pub position: Vec3,
    /// The colour of the light: red, green and blue.
    pub color: Vec3,
    pub radius: u32,
    pub intensity: u32,
    pub range: u32,
    pub shadow: bool,
}

/// What is done with one light of the lighting unit.
#[derive(Debug, Clone, Copy, PartialEq, Eq, Structural)]
pub enum LightAction {
    /// The light is lit and set up after the light of the scene at this
    /// place.
    Enable { light: usize },
    /// The light is put out.
    Disable,
    /// There is no such light, and none is needed.
    Leave,
}

/// What is done with the lights of the lighting unit in a frame.
#[derive(Debug)]
pub struct LightPlan {
    /// How many lights are made before anything else. Each takes the first
    /// place that has no light.
    pub create: usize,
    /// What is done with the light at each place, once the lights are made.
    pub actions: Vec<LightAction>,
}

/// How many of the first `upto` places have no light.
pub open spec fn empty_places(slots: Seq<bool>, upto: int) -> nat
    decreases upto,
{
    if upto <= 0 {
        0
    } else {
        empty_places(slots, upto - 1) + (if slots[upto - 1] {
            0nat
        } else {
            1nat
        })
    }
}

/// How many lights are made for `wanted` lights of the scene: one for each
/// place that has no light, but no more than there are lights of the scene.
pub open spec fn lights_made(slots: Seq<bool>, wanted: nat) -> nat {
    if empty_places(slots, slots.len() as int) <= wanted {
        empty_places(slots, slots.len() as int)
    } else {
        wanted
    }
}

/// Whether place `i` has a light once the lights for `wanted` lights of the
/// scene are made.
pub open spec fn has_light(slots: Seq<bool>, wanted: nat, i: int) -> bool {
    slots[i] || empty_places(slots, i + 1) <= lights_made(slots, wanted)
}

/// What is done with the light at place `i`: the first lights are lit, one
/// for each light of the scene; the others are put out if they exist.
pub open spec fn light_action(slots: Seq<bool>, wanted: nat, i: int) -> LightAction {
    if i < wanted {
        LightAction::Enable { light: i as usize }
    } else if has_light(slots, wanted, i) {
        LightAction::Disable
    } else {
        LightAction::Leave
    }
}

/// A place that no light is made for lies behind the last light of the
/// scene: every light of the scene finds its place with a light.
pub proof fn lemma_lit_places_have_lights(slots: Seq<bool>, wanted: nat, i: int)
    requires
        0 <= i < slots.len(),
        i < wanted,
    ensures
        has_light(slots, wanted, i),
{
    lemma_empty_places_bounds(slots, i + 1);
    lemma_empty_places_grow(slots, i + 1, slots.len() as int);
}

proof fn lemma_empty_places_bounds(slots: Seq<bool>, upto: int)
    ensures
        empty_places(slots, upto) <= (if upto < 0 {
            0
        } else {
            upto
        }),
    decreases upto,
{
    if upto > 0 {
        lemma_empty_places_bounds(slots, upto - 1);
    }
}

proof fn lemma_empty_places_grow(slots: Seq<bool>, a: int, b: int)
    requires
        a <= b,
    ensures
        empty_places(slots, a) <= empty_places(slots, b),
    decreases b - a,
{
    if a < b {
        lemma_empty_places_grow(slots, a, b - 1);
    }
}

/// Plans the lights of a frame.
///
/// `slots` says which places of the lighting unit have a light. The plan
/// says how many lights are made and what is done with each place;
/// `gpu_lights` holds, for each light that is lit, where it stands.
pub fn prepare_point_lights(
    slots: &[bool; 8],
    lights: &Vec<ExtractedPointLight>,
    gpu_lights: &mut GpuLights,
) -> (plan: LightPlan)
    ensures
        plan.create == lights_made(slots@, lights@.len()),
        plan.actions@.len() == NB_LIGHTS,
        forall|i: int|
            0 <= i < NB_LIGHTS ==> #[trigger] plan.actions@[i] == light_action(
                slots@,
                lights@.len(),
                i,
            ),
        final(gpu_lights).lights@.len() == (if lights@.len() < NB_LIGHTS {
            lights@.len()
        } else {
            NB_LIGHTS as nat
        }),
        forall|i: int|
            0 <= i < final(gpu_lights).lights@.len() ==> {
                let lit = #[trigger] final(gpu_lights).lights@[i];
                lit.index.index() == i && lit.global_pos == lights@[i].position
            },
{
    let wanted: usize = lights.len();
    let mut empty: usize = 0;
    let mut i: usize = 0;
    while i < NB_LIGHTS
        invariant
            i <= NB_LIGHTS,
            slots@.len() == NB_LIGHTS,
            empty == empty_places(slots@, i as int),
            empty <= i,
        decreases NB_LIGHTS - i,
    {
        if !slots[i] {
            empty += 1;
        }
        i += 1;
    }
    let create: usize = if empty <= wanted {
        empty
    } else {
        wanted
    };
    gpu_lights.lights.clear();
    let mut actions: Vec<LightAction> = Vec::new();
    let mut seen: usize = 0;
    let mut i: usize = 0;
    while i < NB_LIGHTS
        invariant
            i <= NB_LIGHTS,
            slots@.len() == NB_LIGHTS,
            wanted == lights@.len(),
            create == lights_made(slots@, wanted as nat),
            seen == empty_places(slots@, i as int),
            seen <= i,
            actions@.len() == i,
            forall|j: int|
                0 <= j < i ==> #[trigger] actions@[j] == light_action(slots@, wanted as nat, j),
            gpu_lights.lights@.len() == (if wanted < i {
                wanted
            } else {
                i
            }),
            forall|j: int|
                0 <= j < gpu_lights.lights@.len() ==> {
                    let lit = #[trigger] gpu_lights.lights@[j];
                    lit.index.index() == j && lit.global_pos == lights@[j].position
                },
        decreases NB_LIGHTS - i,
    {
        if !slots[i] {
            seen += 1;
        }
        if i < wanted {
            actions.push(LightAction::Enable { light: i });
            gpu_lights.lights.push(
                GpuLight { index: LightIndex::new(i).unwrap(), global_pos: lights[i].position },
            );
        } else if slots[i] || seen <= create {
            actions.push(LightAction::Disable);
        } else {
            actions.push(LightAction::Leave);
        }
        i += 1;
    }
    LightPlan { create, actions }
}

} // verus!
