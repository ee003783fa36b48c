use nas_rom_manager::download::{
    content_disposition, download_cleanup, find_rom_dir, resolve_download, DownloadRejection,
    DownloadTarget, ROMDownload,
};

#[test]
fn file_shaped_rom_is_sent_as_it_is() {
    assert_eq!(
        resolve_download(Some("/lib/roms/snes/game.sfc"), Some("")),
        Ok(DownloadTarget::File("/lib/roms/snes/game.sfc".to_string()))
    );
}

#[test]
fn folder_shaped_rom_is_sent_as_archive() {
    assert_eq!(
        resolve_download(Some("/lib/roms/ps3/Game/PS3_GAME/EBOOT.BIN"), Some("ps3")),
        Ok(DownloadTarget::Archive {
            rom_dir: "/lib/roms/ps3/Game".to_string(),
            archive_path: "/lib/roms/ps3/Game.zip".to_string()
        })
    );
}

#[test]
fn download_without_path_is_rejected() {
    assert_eq!(resolve_download(None, Some("")), Err(DownloadRejection::MissingPath));
    assert_eq!(resolve_download(None, None), Err(DownloadRejection::MissingPath));
}

#[test]
fn download_without_parent_is_rejected() {
    assert_eq!(resolve_download(Some("/a"), None), Err(DownloadRejection::MissingParent));
}

#[test]
fn path_outside_the_parent_is_rejected() {
    assert_eq!(
        resolve_download(Some("/lib/roms/ps3/Game/EBOOT.BIN"), Some("snes")),
        Err(DownloadRejection::NotBelowParent)
    );
}

#[test]
fn file_directly_in_the_parent_is_no_folder_rom() {
    assert_eq!(
        resolve_download(Some("/lib/roms/ps3/game.iso"), Some("ps3")),
        Err(DownloadRejection::NotBelowParent)
    );
}

#[test]
fn rom_dir_is_the_folder_directly_in_the_parent() {
    assert_eq!(find_rom_dir("/lib/roms/ps3/Game/a/b/c.bin", "ps3"), Some("/lib/roms/ps3/Game".to_string()));
    assert_eq!(find_rom_dir("roms/ps3/Game/c.bin", "ps3"), Some("roms/ps3/Game".to_string()));
    assert_eq!(find_rom_dir("/ps3/Game/c.bin", "ps3"), Some("/ps3/Game".to_string()));
}

#[test]
fn deepest_boundary_counts() {
    assert_eq!(find_rom_dir("/ps3/x/ps3/Game/c.bin", "ps3"), Some("/ps3/x/ps3/Game".to_string()));
    assert_eq!(find_rom_dir("/ps3/Game/ps3/c.bin", "ps3"), None);
}

#[test]
fn short_paths_have_no_rom_dir() {
    assert_eq!(find_rom_dir("", "ps3"), None);
    assert_eq!(find_rom_dir("/", "ps3"), None);
    assert_eq!(find_rom_dir("ps3", "ps3"), None);
    assert_eq!(find_rom_dir("/ps3/Game", "ps3"), None);
    assert_eq!(find_rom_dir("/lib/Game/ps3", "ps3"), None);
}

#[test]
fn boundary_is_compared_exactly() {
    assert_eq!(find_rom_dir("/lib/PS3/Game/c.bin", "ps3"), None);
}

#[test]
fn disposition_names_the_file() {
    assert_eq!(
        content_disposition("/lib/roms/snes/Chrono Trigger.sfc"),
        Some("attachment; filename = \"Chrono Trigger.sfc\"".to_string())
    );
    assert_eq!(content_disposition("/"), None);
}

#[test]
fn archive_is_deleted_after_download() {
    let data = ROMDownload { path: "/lib/roms/ps3/Game.zip".to_string(), parent: "ps3".to_string() };
    assert_eq!(download_cleanup(&data), Some("/lib/roms/ps3/Game.zip".to_string()));
}

#[test]
fn plain_file_is_kept_after_download() {
    let data = ROMDownload { path: "/lib/roms/snes/game.sfc".to_string(), parent: "".to_string() };
    assert_eq!(download_cleanup(&data), None);
}

#[test]
fn request_with_a_boundary_is_turned_away_only_without_a_rom_folder() {
    for path in ["/lib/roms/ps3/Game/a/b/c.bin", "roms/ps3/Game/c.bin", "/ps3/Game/c.bin", "/ps3/Game", "ps3", "", "//ps3//Game//c.bin"] {
        let answer = resolve_download(Some(path), Some("ps3"));
        match find_rom_dir(path, "ps3") {
            Some(dir) => {
                let archive = format!("{}.zip", dir);
                assert_eq!(answer, Ok(DownloadTarget::Archive { rom_dir: dir, archive_path: archive }));
            },
            None => assert_eq!(answer, Err(DownloadRejection::NotBelowParent)),
        }
    }
}
