use nas_rom_manager::archive::{
    archive_path_of, entry_name_of, get_root_of_zip, path_below, plan_pack, plan_unpack,
    sanitize_file_path, unpack_step, ArchiveEntry, PackEntry, UnpackStep, WINDOWS_RULES,
};

fn s(v: &[&str]) -> Vec<String> {
    v.iter().map(|x| x.to_string()).collect()
}

fn entry(name: &str, is_dir: bool) -> ArchiveEntry {
    ArchiveEntry { name: name.to_string(), is_dir }
}

#[test]
fn names_are_not_held_to_windows_rules() {
    assert!(!WINDOWS_RULES);
    assert_eq!(sanitize_file_path("con/aux.txt"), s(&["con", "aux.txt"]));
}

#[test]
fn entry_path_is_split_into_segments() {
    assert_eq!(sanitize_file_path("Game/data/level1.bin"), s(&["Game", "data", "level1.bin"]));
    assert_eq!(sanitize_file_path("Game\\data\\level1.bin"), s(&["Game", "data", "level1.bin"]));
}

#[test]
fn parent_references_are_dropped() {
    assert_eq!(sanitize_file_path("../../etc/passwd"), s(&["etc", "passwd"]));
    assert_eq!(sanitize_file_path("Game/../../x"), s(&["Game", "x"]));
    assert_eq!(sanitize_file_path("./Game/./x"), s(&["Game", "x"]));
    assert_eq!(sanitize_file_path(".."), Vec::<String>::new());
}

#[test]
fn absolute_roots_are_dropped() {
    assert_eq!(sanitize_file_path("/etc/passwd"), s(&["etc", "passwd"]));
    assert_eq!(sanitize_file_path("C:\\Windows\\x"), s(&["C", "Windows", "x"]));
    assert_eq!(sanitize_file_path("//a///b/"), s(&["a", "b"]));
}

#[test]
fn illegal_characters_are_removed() {
    assert_eq!(sanitize_file_path("Game/a?b*c<d>e|f\"g:h"), s(&["Game", "abcdefgh"]));
    assert_eq!(sanitize_file_path("Game/a\u{1}b"), s(&["Game", "ab"]));
}

#[test]
fn long_names_are_cut() {
    let long = "x".repeat(300);
    let segments = sanitize_file_path(&format!("Game/{}", long));
    assert_eq!(segments.len(), 2);
    assert_eq!(segments[1], "x".repeat(255));
}

#[test]
fn root_is_the_first_segment() {
    assert_eq!(get_root_of_zip("Game/data/level1.bin"), Some("Game".to_string()));
    assert_eq!(get_root_of_zip("./Game/x"), Some("Game".to_string()));
    assert_eq!(get_root_of_zip("/Game/x"), Some("Game".to_string()));
    assert_eq!(get_root_of_zip("Game"), Some("Game".to_string()));
}

#[test]
fn entry_without_usable_name_has_no_root() {
    assert_eq!(get_root_of_zip(""), None);
    assert_eq!(get_root_of_zip("../.."), None);
    assert_eq!(get_root_of_zip("/"), None);
}

#[test]
fn path_below_directory() {
    assert_eq!(path_below("/out", &s(&["Game", "a.bin"])), "/out/Game/a.bin");
    assert_eq!(path_below("/out/", &s(&["Game"])), "/out/Game");
    assert_eq!(path_below("/out", &s(&[])), "/out");
}

#[test]
fn file_entry_is_written_below_the_output_directory() {
    assert_eq!(
        unpack_step("/lib/roms/ps3", &entry("Game/PS3_GAME/EBOOT.BIN", false)),
        UnpackStep::WriteFile {
            parent: "/lib/roms/ps3/Game/PS3_GAME".to_string(),
            path: "/lib/roms/ps3/Game/PS3_GAME/EBOOT.BIN".to_string()
        }
    );
}

#[test]
fn file_entry_at_top_level_is_written_into_the_output_directory() {
    assert_eq!(
        unpack_step("/out", &entry("a.bin", false)),
        UnpackStep::WriteFile { parent: "/out".to_string(), path: "/out/a.bin".to_string() }
    );
}

#[test]
fn directory_entry_is_created() {
    assert_eq!(
        unpack_step("/out", &entry("Game/data/", true)),
        UnpackStep::CreateDir("/out/Game/data".to_string())
    );
}

#[test]
fn entry_that_climbs_out_stays_below_the_output_directory() {
    assert_eq!(
        unpack_step("/out", &entry("../../etc/passwd", false)),
        UnpackStep::WriteFile { parent: "/out/etc".to_string(), path: "/out/etc/passwd".to_string() }
    );
    assert_eq!(
        unpack_step("/out", &entry("/etc/passwd", false)),
        UnpackStep::WriteFile { parent: "/out/etc".to_string(), path: "/out/etc/passwd".to_string() }
    );
}

#[test]
fn entry_without_usable_name_is_skipped() {
    assert_eq!(unpack_step("/out", &entry("..", false)), UnpackStep::Skip);
    assert_eq!(unpack_step("/out", &entry("", true)), UnpackStep::Skip);
}

#[test]
fn unpack_plan_has_one_step_for_each_entry() {
    let entries = vec![entry("Game/", true), entry("Game/a.bin", false), entry("Game/sub/b.bin", false)];
    let plan = plan_unpack("/lib/roms/ps3", &entries);
    assert_eq!(
        plan.steps,
        vec![
            UnpackStep::CreateDir("/lib/roms/ps3/Game".to_string()),
            UnpackStep::WriteFile {
                parent: "/lib/roms/ps3/Game".to_string(),
                path: "/lib/roms/ps3/Game/a.bin".to_string()
            },
            UnpackStep::WriteFile {
                parent: "/lib/roms/ps3/Game/sub".to_string(),
                path: "/lib/roms/ps3/Game/sub/b.bin".to_string()
            },
        ]
    );
    assert_eq!(plan.root, Some("/lib/roms/ps3/Game".to_string()));
}

#[test]
fn unpack_plan_of_empty_archive_has_no_root() {
    let plan = plan_unpack("/out", &Vec::new());
    assert!(plan.steps.is_empty());
    assert_eq!(plan.root, None);
}

#[test]
fn archive_lies_next_to_the_folder() {
    assert_eq!(archive_path_of("/lib/roms/ps3/Game"), Some("/lib/roms/ps3/Game.zip".to_string()));
    assert_eq!(archive_path_of("/lib/roms/ps3/Game/"), Some("/lib/roms/ps3/Game.zip".to_string()));
    assert_eq!(archive_path_of("Game"), Some("Game.zip".to_string()));
    assert_eq!(archive_path_of("/"), None);
    assert_eq!(archive_path_of(""), None);
}

#[test]
fn entry_name_includes_the_folder_name() {
    assert_eq!(
        entry_name_of("/lib/roms/ps3/Game", "/lib/roms/ps3/Game/PS3_GAME/EBOOT.BIN"),
        Some("Game/PS3_GAME/EBOOT.BIN".to_string())
    );
    assert_eq!(entry_name_of("Game", "Game/a.bin"), Some("Game/a.bin".to_string()));
}

#[test]
fn file_outside_the_folder_has_no_entry_name() {
    assert_eq!(entry_name_of("/lib/roms/ps3/Game", "/lib/roms/ps3/Other/a.bin"), None);
    assert_eq!(entry_name_of("/lib/roms/ps3/Game", "/lib/roms/ps3/Game"), None);
    assert_eq!(entry_name_of("/lib/roms/ps3/Game", "/lib"), None);
    assert_eq!(entry_name_of("", "/lib/a"), None);
}

#[test]
fn pack_plan_names_every_file_below_the_folder() {
    let files = s(&["/lib/ps3/Game/a.bin", "/lib/ps3/Game/sub/b.bin", "/elsewhere/c.bin"]);
    let plan = plan_pack("/lib/ps3/Game", &files).unwrap();
    assert_eq!(plan.archive_path, "/lib/ps3/Game.zip");
    assert_eq!(
        plan.entries,
        vec![
            PackEntry { source: "/lib/ps3/Game/a.bin".to_string(), name: "Game/a.bin".to_string() },
            PackEntry { source: "/lib/ps3/Game/sub/b.bin".to_string(), name: "Game/sub/b.bin".to_string() },
        ]
    );
}

#[test]
fn nothing_to_pack_without_a_folder() {
    assert!(plan_pack("/", &s(&["/a"])).is_none());
}

#[test]
fn packed_files_are_unpacked_to_the_same_relative_paths() {
    let files = s(&["/lib/ps3/Game/a.bin", "/lib/ps3/Game/sub/b.bin", "/lib/ps3/Game/sub/deep/c d.bin"]);
    let plan = plan_pack("/lib/ps3/Game", &files).unwrap();
    let entries: Vec<ArchiveEntry> = plan.entries.iter().map(|e| entry(&e.name, false)).collect();
    let unpack = plan_unpack("/other/ps3", &entries);
    let written: Vec<String> = unpack
        .steps
        .iter()
        .map(|step| match step {
            UnpackStep::WriteFile { path, .. } => path.clone(),
            other => panic!("unexpected step {:?}", other),
        })
        .collect();
    assert_eq!(
        written,
        s(&["/other/ps3/Game/a.bin", "/other/ps3/Game/sub/b.bin", "/other/ps3/Game/sub/deep/c d.bin"])
    );
    assert_eq!(unpack.root, Some("/other/ps3/Game".to_string()));
}
