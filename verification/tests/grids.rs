use nas_rom_manager::grids::{
    capsule_reply, grid_dir_path, grid_file_name, grid_file_path, hero_reply, kind_dir_name, replaces,
    CapsuleUpload, GridKind, HeroUpload,
};

#[test]
fn each_kind_has_its_directory() {
    assert_eq!(kind_dir_name(GridKind::Full), "full");
    assert_eq!(kind_dir_name(GridKind::Thumb), "thumb");
    assert_eq!(kind_dir_name(GridKind::Hero), "hero");
    assert_eq!(grid_dir_path("/cache", GridKind::Hero), "/cache/hero");
}

#[test]
fn image_is_named_after_the_rom() {
    assert_eq!(grid_file_name("rom-1", "png"), "rom-1.png");
    assert_eq!(grid_file_path("/cache", GridKind::Full, "rom-1", "png"), "/cache/full/rom-1.png");
    assert_eq!(grid_file_path("/cache", GridKind::Thumb, "rom-1", "webp"), "/cache/thumb/rom-1.webp");
}

#[test]
fn upload_replaces_the_file_named_like_the_rom() {
    assert!(replaces("ROM-1", "rom-1"));
    assert!(!replaces("rom-1.png", "rom-1"));
}

#[test]
fn replies_name_the_new_files() {
    let capsules = CapsuleUpload {
        full_capsule_url: "https://example.org/full".to_string(),
        full_capsule_ext: "png".to_string(),
        thumb_capsule_url: "https://example.org/thumb".to_string(),
        thumb_capsule_ext: "jpg".to_string(),
        timeout: 5,
    };
    assert_eq!(capsule_reply("rom-1", &capsules), "rom-1.jpg,rom-1.png");
    let hero = HeroUpload { hero_url: "https://example.org/hero".to_string(), hero_ext: "webp".to_string(), timeout: 5 };
    assert_eq!(hero_reply("rom-1", &hero), "rom-1.webp");
}
