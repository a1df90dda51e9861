use bevy_3ds::romfs_assets::reader::RomfsAssetReader;

#[test]
fn assets_lie_below_the_root() {
    assert_eq!(RomfsAssetReader::process_path("peach.png"), "romfs:/peach.png");
    assert_eq!(RomfsAssetReader::process_path("models/box.gltf"), "romfs:/models/box.gltf");
    assert_eq!(RomfsAssetReader::process_path(""), "romfs:/");
    assert_eq!(RomfsAssetReader::process_path("/etc/x"), "/etc/x");
    assert_eq!(RomfsAssetReader::process_path("romfs"), "romfs:/romfs");
    assert_eq!(RomfsAssetReader::process_path("ümlaut/ß.png"), "romfs:/ümlaut/ß.png");
}

#[test]
fn rooted_paths_are_told() {
    assert!(RomfsAssetReader::already_rooted("romfs:/peach.png"));
    assert!(RomfsAssetReader::already_rooted("romfs:/"));
    assert!(RomfsAssetReader::already_rooted("romfs:"));
    assert!(!RomfsAssetReader::already_rooted("romfs:x"));
    assert!(!RomfsAssetReader::already_rooted("romfs"));
    assert!(!RomfsAssetReader::already_rooted(""));
    assert!(!RomfsAssetReader::already_rooted("a/romfs:/b"));
    assert!(!RomfsAssetReader::already_rooted("Romfs:/b"));
}

#[test]
fn meta_files_add_to_the_extension() {
    assert_eq!(RomfsAssetReader::get_meta_path("peach.png"), "peach.png.meta");
    assert_eq!(RomfsAssetReader::get_meta_path("a.b/c.tar.gz"), "a.b/c.tar.gz.meta");
    assert_eq!(RomfsAssetReader::get_meta_path("x."), "x..meta");
    assert_eq!(RomfsAssetReader::get_meta_path("a/b.png/"), "a/b.png.meta");
    assert_eq!(RomfsAssetReader::get_meta_path("a/b.png/."), "a/b.png.meta");
    assert_eq!(RomfsAssetReader::meta_extension("png"), "png.meta");
    assert_eq!(RomfsAssetReader::meta_extension(""), ".meta");
    assert_eq!(RomfsAssetReader::meta_path("models/box.gltf", "bin"), "models/box.bin.meta");
}

#[test]
fn paths_without_extension_have_no_meta_file() {
    assert_eq!(
        RomfsAssetReader::try_get_meta_path("peach.png"),
        Some("peach.png.meta".to_string())
    );
    assert_eq!(
        RomfsAssetReader::try_get_meta_path("a/b.png/"),
        Some("a/b.png.meta".to_string())
    );
    for without in ["", "peach", ".hidden", "a.b/c", "..", "a/..", "/"] {
        assert_eq!(RomfsAssetReader::try_get_meta_path(without), None, "{}", without);
    }
}

#[test]
fn extensions_are_told() {
    for with in ["peach.png", "a/b.c", ".a.b", "x.", "a.b/c.d", "a.b/", "a/b.png/", "a/b.png/."] {
        assert!(RomfsAssetReader::has_extension(with), "{}", with);
    }
    for without in ["", "peach", ".hidden", "a.b/c", "..", "a/..", ".", "a/.b"] {
        assert!(!RomfsAssetReader::has_extension(without), "{}", without);
    }
}

#[test]
fn separators_are_found() {
    assert!(RomfsAssetReader::separator_in("a/b"));
    assert!(RomfsAssetReader::separator_in("\\"));
    assert!(RomfsAssetReader::separator_in("png/"));
    assert!(!RomfsAssetReader::separator_in("png"));
    assert!(!RomfsAssetReader::separator_in(""));
    assert!(!RomfsAssetReader::separator_in("tar.gz"));
}
