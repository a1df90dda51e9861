use bevy_3ds::lighting::{
    prepare_point_lights, ExtractedPointLight, GpuLights, LightAction, LightIndex,
};
use bevy_3ds::math::Vec3;

fn light(n: u32) -> ExtractedPointLight {
    ExtractedPointLight {
        position: Vec3 { x: n, y: n + 1, z: n + 2 },
        color: Vec3 { x: 0, y: 0, z: 0 },
        radius: 0,
        intensity: 0,
        range: 0,
        shadow: false,
    }
}

#[test]
fn the_lighting_unit_has_eight_lights() {
    assert_eq!(LightIndex::new(7).unwrap().number(), 7);
    assert_eq!(LightIndex::new(8), None);
}

#[test]
fn first_frame_makes_a_light_for_each_light_of_the_scene() {
    let mut lit = GpuLights::default();
    let plan = prepare_point_lights(&[false; 8], &vec![light(10), light(20), light(30)], &mut lit);
    assert_eq!(plan.create, 3);
    let mut expected = vec![
        LightAction::Enable { light: 0 },
        LightAction::Enable { light: 1 },
        LightAction::Enable { light: 2 },
    ];
    expected.extend([LightAction::Leave; 5]);
    assert_eq!(plan.actions, expected);
    assert_eq!(lit.lights.len(), 3);
    assert_eq!(lit.lights[1].index.number(), 1);
    assert_eq!(lit.lights[1].global_pos, Vec3 { x: 20, y: 21, z: 22 });
}

#[test]
fn lights_that_are_not_needed_are_put_out() {
    let mut lit = GpuLights::default();
    lit.lights.push(bevy_3ds::lighting::GpuLight {
        index: LightIndex::new(5).unwrap(),
        global_pos: Vec3 { x: 0, y: 0, z: 0 },
    });
    let slots = [true, true, false, true, false, false, false, false];
    let plan = prepare_point_lights(&slots, &vec![light(1)], &mut lit);
    // one light is made, in the first empty place
    assert_eq!(plan.create, 1);
    assert_eq!(
        plan.actions,
        vec![
            LightAction::Enable { light: 0 },
            LightAction::Disable,
            LightAction::Disable,
            LightAction::Disable,
            LightAction::Leave,
            LightAction::Leave,
            LightAction::Leave,
            LightAction::Leave,
        ]
    );
    assert_eq!(lit.lights.len(), 1);
    assert_eq!(lit.lights[0].index.number(), 0);
}

#[test]
fn no_more_than_eight_lights_are_lit() {
    let mut lit = GpuLights::default();
    let lights: Vec<ExtractedPointLight> = (0..10).map(light).collect();
    let slots = [true, false, true, true, true, true, true, true];
    let plan = prepare_point_lights(&slots, &lights, &mut lit);
    assert_eq!(plan.create, 1);
    assert_eq!(plan.actions, (0..8).map(|i| LightAction::Enable { light: i }).collect::<Vec<_>>());
    assert_eq!(lit.lights.len(), 8);
    assert_eq!(lit.lights[7].global_pos, Vec3 { x: 7, y: 8, z: 9 });

    let plan = prepare_point_lights(&[true; 8], &vec![], &mut lit);
    assert_eq!(plan.create, 0);
    assert_eq!(plan.actions, vec![LightAction::Disable; 8]);
    assert!(lit.lights.is_empty());
}
