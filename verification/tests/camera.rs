use std::collections::HashMap;

use bevy_3ds::camera::{
    pending_render_system, CameraID, Entity, On3dsScreen, PendingScene, RenderOn, Side,
};

#[test]
fn camera_id_wraps_its_number() {
    assert_eq!(CameraID::from(7).into_inner(), 7);
    assert_eq!(CameraID::default(), CameraID(0));
    assert_eq!(CameraID(u32::MAX).into_inner(), u32::MAX);
}

#[test]
fn render_on_filters_cameras() {
    let only = RenderOn::Only(CameraID(2));
    assert!(only.should_render_in(CameraID(2)));
    assert!(!only.should_render_in(CameraID(3)));

    let except = RenderOn::Except(CameraID(2));
    assert!(!except.should_render_in(CameraID(2)));
    assert!(except.should_render_in(CameraID(0)));

    let specific = RenderOn::Specific(vec![CameraID(1), CameraID(4)]);
    assert!(specific.should_render_in(CameraID(1)));
    assert!(specific.should_render_in(CameraID(4)));
    assert!(!specific.should_render_in(CameraID(2)));
    assert!(!RenderOn::Specific(vec![]).should_render_in(CameraID(0)));
}

#[test]
fn default_filter_is_the_first_camera() {
    assert!(RenderOn::default().should_render_in(CameraID(0)));
    assert!(!RenderOn::default().should_render_in(CameraID(1)));
}

#[test]
fn pending_filter_keeps_the_filter() {
    let pending = RenderOn::Except(CameraID(9)).make_pending();
    assert!(matches!(pending.0, RenderOn::Except(CameraID(9))));
}

#[test]
fn screens_map_to_their_targets() {
    let bottom: On3dsScreen<fn()> = On3dsScreen::Bottom;
    let top: On3dsScreen<fn()> = On3dsScreen::Top(None);
    let deep: On3dsScreen<fn()> = On3dsScreen::Top(Some(|| ()));
    for side in [None, Some(Side::Left), Some(Side::Right)] {
        assert_eq!(bottom.to_target_index(side), 0);
    }
    for screen in [&top, &deep] {
        assert_eq!(screen.to_target_index(None), 1);
        assert_eq!(screen.to_target_index(Some(Side::Left)), 1);
        assert_eq!(screen.to_target_index(Some(Side::Right)), 2);
    }
    let standard: On3dsScreen<fn()> = On3dsScreen::default();
    assert!(matches!(standard, On3dsScreen::Top(None)));
}

#[test]
fn filter_is_handed_down_to_all_descendants() {
    // 1 -> [2, 3], 2 -> [4, 5], 5 -> [6]
    let mut elements = HashMap::new();
    elements.insert(2u64, vec![Entity(4), Entity(5)]);
    elements.insert(5u64, vec![Entity(6)]);
    elements.insert(40u64, vec![Entity(41)]);
    let scenes = vec![
        PendingScene { entity: Entity(1), children: vec![Entity(2), Entity(3)] },
        PendingScene { entity: Entity(10), children: vec![] },
    ];
    let updates = pending_render_system(&scenes, &elements);
    assert_eq!(updates.len(), 2);
    assert_eq!(updates[0].scene, Entity(1));
    assert_eq!(
        updates[0].targets,
        vec![Entity(4), Entity(6), Entity(5), Entity(2), Entity(3)]
    );
    assert_eq!(updates[1].scene, Entity(10));
    assert!(updates[1].targets.is_empty());
}

#[test]
fn a_circle_of_children_is_left_after_as_many_rounds_as_there_are_parents() {
    let mut elements = HashMap::new();
    elements.insert(1u64, vec![Entity(2)]);
    elements.insert(2u64, vec![Entity(1)]);
    let scenes = vec![PendingScene { entity: Entity(0), children: vec![Entity(1)] }];
    let updates = pending_render_system(&scenes, &elements);
    assert_eq!(updates[0].targets, vec![Entity(1), Entity(2), Entity(1)]);
}
