use bevy_3ds::assets::{
    extract_render_asset, prepare_assets, AssetEvent, AssetId, ExtractedAssets, PrepNextFrameAssets,
    PrepareAsset, PrepareAssetError, RenderAssets,
};
use bevy_3ds::command::{Primitive, PrimitiveTopology};
use bevy_3ds::error::{Citro3dError, RenderError};
use bevy_3ds::gpu_buffer::LinearPool;
use bevy_3ds::math::{Vec2, Vec3};
use bevy_3ds::mesh::{GpuMesh, MeshData};

#[test]
fn prepared_assets_are_found_by_their_number() {
    let mut assets: RenderAssets<&str> = RenderAssets::default();
    assert_eq!(assets.len(), 0);
    assets.insert(AssetId(1), "one");
    assets.insert(AssetId(2), "two");
    assets.insert(AssetId(1), "uno");
    assert_eq!(assets.len(), 2);
    assert_eq!(assets.get(AssetId(1)), Some(&"uno"));
    assert!(assets.contains(AssetId(2)));
    assert_eq!(assets.get(AssetId(3)), None);
    assert_eq!(assets.remove(AssetId(1)), Some("uno"));
    assert_eq!(assets.remove(AssetId(1)), None);
    assert!(!assets.contains(AssetId(1)));
    let far = AssetId(u128::MAX);
    assets.insert(far, "far");
    assert_eq!(assets.get(far), Some(&"far"));
}

#[test]
fn events_say_what_to_prepare_and_what_to_forget() {
    let id = AssetId;
    let (changed, removed) = extract_render_asset(&vec![
        AssetEvent::Added { id: id(1) },
        AssetEvent::Added { id: id(2) },
        AssetEvent::Modified { id: id(1) },
        AssetEvent::LoadedWithDependencies { id: id(9) },
        AssetEvent::Removed { id: id(2) },
        AssetEvent::Removed { id: id(3) },
        AssetEvent::Modified { id: id(4) },
        AssetEvent::Removed { id: id(5) },
        AssetEvent::Added { id: id(5) },
        AssetEvent::Removed { id: id(3) },
    ]);
    assert_eq!(changed, vec![id(1), id(4), id(5)]);
    assert_eq!(removed, vec![id(2), id(3), id(5), id(3)]);
    assert_eq!(extract_render_asset(&vec![]), (vec![], vec![]));
}

/// Numbers are prepared by doubling them; odd numbers need another frame, in
/// which they come back one higher.
struct Doubling;

impl PrepareAsset for Doubling {
    type ExtractedAsset = u32;
    type PreparedAsset = u32;
    type Param = Vec<u32>;

    fn prepare_asset_3ds(
        extracted: u32,
        param: &mut Vec<u32>,
    ) -> Result<u32, PrepareAssetError<u32>> {
        param.push(extracted);
        if extracted == 99 {
            Err(PrepareAssetError::Rejected)
        } else if extracted % 2 == 1 {
            Err(PrepareAssetError::RetryNextUpdate(extracted + 1))
        } else {
            Ok(extracted * 2)
        }
    }
}

#[test]
fn what_is_not_ready_is_tried_again_in_the_next_frame() {
    let mut extracted: ExtractedAssets<Doubling> = ExtractedAssets::default();
    let mut prepared: RenderAssets<u32> = RenderAssets::new();
    let mut waiting: PrepNextFrameAssets<Doubling> = PrepNextFrameAssets::default();
    let mut seen = Vec::new();

    prepared.insert(AssetId(7), 70);
    prepared.insert(AssetId(8), 80);
    waiting.assets.push((AssetId(1), 10));
    waiting.assets.push((AssetId(7), 11));
    waiting.assets.push((AssetId(2), 13));
    extracted.removed.push(AssetId(1));
    extracted.removed.push(AssetId(8));
    extracted.extracted.push((AssetId(3), 5));
    extracted.extracted.push((AssetId(7), 99));
    extracted.extracted.push((AssetId(1), 6));
    prepare_assets(&mut extracted, &mut prepared, &mut waiting, &mut seen);

    assert_eq!(seen, vec![10, 11, 13, 5, 99, 6]);
    assert!(extracted.extracted.is_empty() && extracted.removed.is_empty());
    assert_eq!(waiting.assets, vec![(AssetId(7), 12), (AssetId(2), 14), (AssetId(3), 6)]);
    assert_eq!(prepared.get(AssetId(1)), Some(&12));
    assert_eq!(prepared.get(AssetId(7)), Some(&70));
    assert_eq!(prepared.get(AssetId(8)), None);
    assert_eq!(prepared.len(), 2);

    prepare_assets(&mut extracted, &mut prepared, &mut waiting, &mut seen);
    assert!(waiting.assets.is_empty());
    assert_eq!(prepared.get(AssetId(7)), Some(&24));
    assert_eq!(prepared.get(AssetId(2)), Some(&28));
    assert_eq!(prepared.get(AssetId(3)), Some(&12));
    assert_eq!(seen, vec![10, 11, 13, 5, 99, 6, 12, 14, 6]);
}

#[test]
fn meshes_are_prepared_put_off_or_rejected() {
    let quad = |topology| MeshData {
        positions: Some(vec![Vec3 { x: 0, y: 0, z: 0 }; 4]),
        uvs: Some(vec![Vec2 { x: 0, y: 0 }; 4]),
        normals: Some(vec![Vec3 { x: 0, y: 0, z: 0 }; 4]),
        tangents: None,
        indices: None,
        topology,
    };
    let mut extracted: ExtractedAssets<MeshData> = ExtractedAssets::default();
    let mut prepared: RenderAssets<GpuMesh> = RenderAssets::new();
    let mut waiting: PrepNextFrameAssets<MeshData> = PrepNextFrameAssets::default();
    // room for one quad, not for two
    let mut pool = LinearPool::new(4 * 44 + 100);
    extracted.extracted.push((AssetId(1), quad(PrimitiveTopology::TriangleList)));
    extracted.extracted.push((AssetId(2), quad(PrimitiveTopology::LineList)));
    extracted.extracted.push((AssetId(3), quad(PrimitiveTopology::TriangleStrip)));
    prepare_assets(&mut extracted, &mut prepared, &mut waiting, &mut pool);
    assert!(prepared.contains(AssetId(1)));
    assert!(!prepared.contains(AssetId(2)));
    assert!(!prepared.contains(AssetId(3)));
    assert_eq!(waiting.assets.len(), 1);
    assert_eq!(waiting.assets[0].0, AssetId(3));
    assert_eq!(pool.used(), 176);

    // once the first mesh is gone, the one that waited finds room
    let gone = prepared.remove(AssetId(1)).unwrap();
    pool.release(gone.vert_buf);
    prepare_assets(&mut extracted, &mut prepared, &mut waiting, &mut pool);
    assert!(waiting.assets.is_empty());
    assert_eq!(prepared.get(AssetId(3)).unwrap().prim_kind, Primitive::TriangleStrip);
    assert_eq!(pool.used(), 176);
}

#[test]
fn the_drivers_answer_to_a_registration() {
    assert_eq!(Citro3dError::from_buffer_result(0), Ok(0));
    assert_eq!(Citro3dError::from_buffer_result(11), Ok(11));
    assert_eq!(Citro3dError::from_buffer_result(i32::MAX), Ok(i32::MAX as usize));
    assert_eq!(Citro3dError::from_buffer_result(-1), Err(Citro3dError::TooManyBuffers));
    assert_eq!(Citro3dError::from_buffer_result(-2), Err(Citro3dError::InvalidMemoryLocation));
    assert_eq!(Citro3dError::from_buffer_result(-3), Err(Citro3dError::System(-3)));
    assert_eq!(Citro3dError::from_buffer_result(i32::MIN), Err(Citro3dError::System(i32::MIN)));
    assert!(RenderError::Citro3d(Citro3dError::NotFound) != RenderError::Ctru(0));
}
