use nas_rom_manager::library::{Library, Parser, ParserPattern, SystemTagConfig, ROM};
use nas_rom_manager::listing::{DirEntry, EntryKind, FileEntry, FolderScan, TitleFolder};
use nas_rom_manager::parsers::{ParserRegistry, ValidationError};
use nas_rom_manager::pattern::PatternError;
use nas_rom_manager::scanner::{
    build_rom, extras_paths, load_extra, load_extras, load_platform, load_platform_extras, load_rom,
    load_roms, parse_added_rom, rom_format, scan_targets, AddedRom, ParseRomError,
};
use nas_rom_manager::extras::ExtrasIndex;
use nas_rom_manager::watcher::{Watcher, WatcherEvent};

fn pattern(glob: &str, regex: &str) -> ParserPattern {
    ParserPattern {
        glob: glob.to_string(),
        regex: regex.to_string(),
        download_strategy: "{\"type\":\"single-file\"}".to_string(),
    }
}

fn parser(abbreviation: &str, folder: &str, patterns: Vec<ParserPattern>) -> Parser {
    Parser {
        name: format!("System {}", abbreviation),
        abbreviation: abbreviation.to_string(),
        igdb_platform_id: "19".to_string(),
        folder: folder.to_string(),
        sgdb_id: "".to_string(),
        full_capsule_path: "".to_string(),
        thumb_capsule_path: "".to_string(),
        hero_path: "".to_string(),
        tag_config: SystemTagConfig {
            background_color: "255 0 128".to_string(),
            border_color: "0 0 0".to_string(),
        },
        patterns,
        bios_files: Vec::new(),
    }
}

fn snes() -> Parser {
    parser("snes", "snes", vec![pattern("*.sfc", "(?<title>.+)\\.sfc")])
}

fn library() -> Library {
    Library {
        library_path: "library".to_string(),
        rom_dir: "roms".to_string(),
        emulator_dir: "emulators".to_string(),
        bios_dir: "bios".to_string(),
        dlc_dir: "dlc".to_string(),
        update_dir: "updates".to_string(),
    }
}

fn file(folder: &str, relative: &str, size: u64) -> FileEntry {
    FileEntry {
        relative: relative.to_string(),
        path: format!("{}/{}", folder, relative),
        size,
        add_date: "Jan  1, 2024".to_string(),
    }
}

fn dir(name: &str) -> DirEntry {
    DirEntry { name: name.to_string(), kind: EntryKind::Directory }
}

fn plain(name: &str) -> DirEntry {
    DirEntry { name: name.to_string(), kind: EntryKind::File }
}

#[test]
fn format_is_the_extension() {
    assert_eq!(rom_format("library/roms/snes/Chrono Trigger.sfc"), "sfc");
    assert_eq!(rom_format("library/roms/ps3/Game"), "");
    assert_eq!(rom_format("library/roms.d/ps3/Game"), "");
    assert_eq!(rom_format(""), "");
}

#[test]
fn rom_takes_the_captured_title() {
    let p = snes();
    let f = file("library/roms/snes", "Chrono Trigger.sfc", 4_194_304);
    let rom = build_rom(&p, &p.patterns[0], &f, Some("Chrono Trigger".to_string()));
    assert_eq!(
        rom,
        ROM {
            title: "Chrono Trigger".to_string(),
            path: "library/roms/snes/Chrono Trigger.sfc".to_string(),
            size: 4_194_304,
            add_date: "Jan  1, 2024".to_string(),
            format: "sfc".to_string(),
            system: "snes".to_string(),
            system_full_name: "System snes".to_string(),
            download_strategy: "{\"type\":\"single-file\"}".to_string(),
        }
    );
}

#[test]
fn rom_without_capture_is_titled_by_its_path() {
    let p = snes();
    let f = file("library/roms/snes", "Chrono Trigger.sfc", 1);
    let rom = build_rom(&p, &p.patterns[0], &f, None);
    assert_eq!(rom.title, "library/roms/snes/Chrono Trigger.sfc");
    assert_eq!(rom.path, "library/roms/snes/Chrono Trigger.sfc");
}

#[test]
fn rom_title_is_read_from_the_relative_path() {
    let p = snes();
    let rom = load_rom(&p, &p.patterns[0], &file("library/roms/snes", "Chrono Trigger.sfc", 1)).unwrap();
    assert_eq!(rom.title, "Chrono Trigger");
}

#[test]
fn rom_whose_name_the_regex_misses_is_titled_by_its_path() {
    let p = parser("snes", "snes", vec![pattern("*", "(?<title>.+)\\.sfc")]);
    let rom = load_rom(&p, &p.patterns[0], &file("library/roms/snes", "Chrono Trigger.smc", 1)).unwrap();
    assert_eq!(rom.title, "library/roms/snes/Chrono Trigger.smc");
}

#[test]
fn rom_with_regex_without_title_group_is_titled_by_its_path() {
    let p = parser("snes", "snes", vec![pattern("*", "(.+)\\.sfc")]);
    let rom = load_rom(&p, &p.patterns[0], &file("library/roms/snes", "Chrono Trigger.sfc", 1)).unwrap();
    assert_eq!(rom.title, "library/roms/snes/Chrono Trigger.sfc");
}

#[test]
fn rom_with_invalid_regex_is_an_error() {
    let p = parser("snes", "snes", vec![pattern("*", "(?<title>")]);
    assert_eq!(
        load_rom(&p, &p.patterns[0], &file("library/roms/snes", "a.sfc", 1)).err(),
        Some(PatternError::InvalidRegex)
    );
}

#[test]
fn scan_finds_the_rom_of_the_scenario() {
    let mut registry = ParserRegistry::new();
    registry.register(snes()).unwrap();
    let mut watcher = Watcher::new();
    let entries = vec![dir("snes")];
    let mut scans = scan_targets(&registry, &library(), &entries);
    assert_eq!(scans.len(), 1);
    assert_eq!(scans[0].path, "library/roms/snes");
    scans[0].files.push(file("library/roms/snes", "Chrono Trigger.sfc", 4_194_304));
    let roms = load_roms(&library(), &mut watcher, &registry, &scans);
    assert_eq!(roms.len(), 1);
    assert_eq!(roms[0].title, "Chrono Trigger");
    assert_eq!(roms[0].system, "snes");
    assert_eq!(roms[0].format, "sfc");
    assert_eq!(roms[0].path, "library/roms/snes/Chrono Trigger.sfc");
}

#[test]
fn platform_roms_come_pattern_by_pattern() {
    let p = parser(
        "snes",
        "snes",
        vec![pattern("*.sfc", "(?<title>.+)\\.sfc"), pattern("*.smc", "(?<title>.+)\\.smc")],
    );
    let files = vec![
        file("/r/snes", "b.smc", 1),
        file("/r/snes", "a.sfc", 2),
        file("/r/snes", "notes.txt", 3),
        file("/r/snes", "c.sfc", 4),
    ];
    let roms = load_platform(&p, &files).unwrap();
    let titles: Vec<&str> = roms.iter().map(|r| r.title.as_str()).collect();
    assert_eq!(titles, vec!["a", "c", "b"]);
    assert_eq!(roms[0].size, 2);
    assert_eq!(roms[2].path, "/r/snes/b.smc");
}

#[test]
fn file_is_cataloged_by_the_first_pattern_that_matches_it() {
    let p = parser("snes", "snes", vec![pattern("*.sfc", "(?<title>.+)\\.sfc"), pattern("*", "(?<title>.)")]);
    let files = vec![file("/r/snes", "a.sfc", 1), file("/r/snes", "b.bin", 2)];
    let roms = load_platform(&p, &files).unwrap();
    assert_eq!(roms.len(), 2);
    assert_eq!(roms[0].title, "a");
    assert_eq!(roms[0].path, "/r/snes/a.sfc");
    assert_eq!(roms[1].title, "b");
    assert_eq!(roms[1].path, "/r/snes/b.bin");
}

#[test]
fn no_path_is_cataloged_twice() {
    let p = parser("snes", "snes", vec![
        pattern("*.sfc", "(?<title>.+)\\.sfc"),
        pattern("**/*.sfc", "x"),
        pattern("**", "x"),
    ]);
    let files = vec![
        file("/r/snes", "a.sfc", 1),
        file("/r/snes", "sub", 0),
        file("/r/snes", "sub/b.sfc", 2),
        file("/r/snes", "sub/c.txt", 3),
    ];
    let roms = load_platform(&p, &files).unwrap();
    let mut paths: Vec<&str> = roms.iter().map(|r| r.path.as_str()).collect();
    assert_eq!(paths, vec!["/r/snes/a.sfc", "/r/snes/sub/b.sfc", "/r/snes/sub", "/r/snes/sub/c.txt"]);
    paths.sort();
    paths.dedup();
    assert_eq!(paths.len(), roms.len());
}

#[test]
fn platform_without_files_has_no_roms() {
    assert!(load_platform(&snes(), &Vec::new()).unwrap().is_empty());
}

#[test]
fn platform_with_invalid_pattern_is_an_error() {
    let p = parser("snes", "snes", vec![pattern("*.sfc", "ok"), pattern("*.[", "ok")]);
    assert_eq!(load_platform(&p, &vec![file("/r", "a.sfc", 1)]).err(), Some(ValidationError::InvalidGlob(1)));
    let q = parser("snes", "snes", vec![pattern("*.sfc", "(")]);
    assert_eq!(load_platform(&q, &Vec::new()).err(), Some(ValidationError::InvalidRegex(0)));
}

#[test]
fn nested_files_need_a_tree_wildcard() {
    let flat = snes();
    let deep = parser("snes", "snes", vec![pattern("**/*.sfc", "(?<title>[^/]+)\\.sfc")]);
    let files = vec![file("/r/snes", "rpg/Chrono Trigger.sfc", 1), file("/r/snes", "Top.sfc", 1)];
    let flat_titles: Vec<String> = load_platform(&flat, &files).unwrap().into_iter().map(|r| r.title).collect();
    assert_eq!(flat_titles, vec!["Top".to_string()]);
    let deep_titles: Vec<String> = load_platform(&deep, &files).unwrap().into_iter().map(|r| r.title).collect();
    assert_eq!(deep_titles, vec!["Chrono Trigger".to_string(), "Top".to_string()]);
}

#[test]
fn only_folders_with_a_parser_are_scanned() {
    let mut registry = ParserRegistry::new();
    registry.register(snes()).unwrap();
    registry.register(parser("gba", "gba", vec![pattern("*.gba", "(?<title>.+)\\.gba")])).unwrap();
    let entries = vec![dir("snes"), dir("n64"), plain("gba"), dir("gba"), DirEntry { name: "snes".to_string(), kind: EntryKind::Other }];
    let scans = scan_targets(&registry, &library(), &entries);
    assert_eq!(
        scans,
        vec![
            FolderScan { folder: "snes".to_string(), path: "library/roms/snes".to_string(), files: Vec::new() },
            FolderScan { folder: "gba".to_string(), path: "library/roms/gba".to_string(), files: Vec::new() },
        ]
    );
}

#[test]
fn scanned_folders_are_asked_to_be_watched() {
    let mut registry = ParserRegistry::new();
    registry.register(snes()).unwrap();
    registry.register(parser("gba", "gba", vec![pattern("*.gba", "(?<title>.+)\\.gba")])).unwrap();
    let scans = vec![
        FolderScan {
            folder: "snes".to_string(),
            path: "library/roms/snes".to_string(),
            files: vec![file("library/roms/snes", "a.sfc", 1)],
        },
        FolderScan { folder: "unknown".to_string(), path: "library/roms/unknown".to_string(), files: vec![file("x", "b.sfc", 1)] },
        FolderScan { folder: "gba".to_string(), path: "library/roms/gba".to_string(), files: vec![file("library/roms/gba", "c.gba", 1)] },
    ];
    let mut watcher = Watcher::new();
    watcher.unwatch_path("/earlier");
    let roms = load_roms(&library(), &mut watcher, &registry, &scans);
    let titles: Vec<&str> = roms.iter().map(|r| r.title.as_str()).collect();
    assert_eq!(titles, vec!["a", "c"]);
    assert_eq!(
        watcher.drain(),
        vec![
            WatcherEvent::Remove("/earlier".to_string()),
            WatcherEvent::Add("library/roms/snes".to_string(), "library".to_string()),
            WatcherEvent::Add("library/roms/gba".to_string(), "library".to_string()),
        ]
    );
}

#[test]
fn folder_with_broken_parser_is_skipped_and_still_watched() {
    let mut registry = ParserRegistry::new();
    registry.insert(parser("bad", "bad", vec![pattern("*.[", "x")]));
    registry.register(snes()).unwrap();
    let scans = vec![
        FolderScan { folder: "bad".to_string(), path: "/r/bad".to_string(), files: vec![file("/r/bad", "a.x", 1)] },
        FolderScan { folder: "snes".to_string(), path: "/r/snes".to_string(), files: vec![file("/r/snes", "a.sfc", 1)] },
    ];
    let mut watcher = Watcher::new();
    let roms = load_roms(&library(), &mut watcher, &registry, &scans);
    assert_eq!(roms.len(), 1);
    assert_eq!(roms[0].system, "snes");
    assert_eq!(watcher.pending(), 2);
}

#[test]
fn scanning_twice_gives_the_same_catalog() {
    let mut registry = ParserRegistry::new();
    registry.register(snes()).unwrap();
    let scans = vec![FolderScan {
        folder: "snes".to_string(),
        path: "/r/snes".to_string(),
        files: vec![file("/r/snes", "a.sfc", 1), file("/r/snes", "b.sfc", 2)],
    }];
    let mut watcher = Watcher::new();
    let first = load_roms(&library(), &mut watcher, &registry, &scans);
    let second = load_roms(&library(), &mut watcher, &registry, &scans);
    assert_eq!(first, second);
    let dlcs = vec![title("a", vec![plain("dlc.bin")])];
    let one = load_extra(&dlcs);
    let two = load_extra(&dlcs);
    assert_eq!(one.get("a"), two.get("a"));
    assert_eq!(one.len(), two.len());
}

fn title(rom_id: &str, entries: Vec<DirEntry>) -> TitleFolder {
    TitleFolder { rom_id: rom_id.to_string(), kind: EntryKind::Directory, entries }
}

#[test]
fn extras_are_recorded_per_rom() {
    let titles = vec![
        title("zelda", vec![plain("dlc1.nsp"), dir("nested"), plain("dlc2.nsp")]),
        title("mario", vec![plain("pack.nsp")]),
        TitleFolder { rom_id: "stray.txt".to_string(), kind: EntryKind::File, entries: vec![plain("x")] },
        title("empty", vec![]),
        title("folders-only", vec![dir("a"), dir("b")]),
    ];
    let index = load_extra(&titles);
    assert_eq!(index.len(), 2);
    assert_eq!(index.get("zelda"), Some(&vec!["dlc1.nsp".to_string(), "dlc2.nsp".to_string()]));
    assert_eq!(index.get("mario"), Some(&vec!["pack.nsp".to_string()]));
    assert_eq!(index.get("stray.txt"), None);
    assert_eq!(index.get("empty"), None);
    assert_eq!(index.get("folders-only"), None);
    assert_eq!(index.get("nested"), None);
}

#[test]
fn file_in_a_rom_folder_is_recorded_under_the_rom() {
    let index = load_extra(&vec![title("0100F2C0115B6000", vec![plain("expansion.nsp")])]);
    assert_eq!(index.len(), 1);
    assert_eq!(index.get("0100F2C0115B6000"), Some(&vec!["expansion.nsp".to_string()]));
    assert_eq!(index.get("expansion.nsp"), None);
}

#[test]
fn missing_extras_directory_gives_an_empty_index() {
    assert_eq!(load_extra(&Vec::new()).len(), 0);
}

#[test]
fn platform_extras_add_to_the_index() {
    let mut index = ExtrasIndex::new();
    index.add("zelda", "old.nsp");
    load_platform_extras(&mut index, &vec![title("zelda", vec![plain("new.nsp")])]);
    assert_eq!(index.get("zelda"), Some(&vec!["old.nsp".to_string(), "new.nsp".to_string()]));
}

#[test]
fn dlcs_and_updates_are_kept_apart() {
    let dlcs = vec![title("zelda", vec![plain("dlc.nsp")])];
    let updates = vec![title("zelda", vec![plain("v2.nsp")])];
    let (d, u) = load_extras(&dlcs, &updates);
    assert_eq!(d.get("zelda"), Some(&vec!["dlc.nsp".to_string()]));
    assert_eq!(u.get("zelda"), Some(&vec!["v2.nsp".to_string()]));
}

#[test]
fn extras_lie_in_the_library() {
    assert_eq!(extras_paths(&library()), ("library/dlc".to_string(), "library/updates".to_string()));
}

fn added_file(path: &str) -> AddedRom {
    AddedRom {
        file: FileEntry { relative: "ignored".to_string(), path: path.to_string(), size: 9, add_date: "d".to_string() },
        kind: EntryKind::File,
        contents: Vec::new(),
    }
}

#[test]
fn added_file_is_matched_by_its_name() {
    let mut registry = ParserRegistry::new();
    registry.register(snes()).unwrap();
    let rom = parse_added_rom("snes", &added_file("/lib/roms/snes/Chrono Trigger.sfc"), &registry).unwrap();
    assert_eq!(rom.title, "Chrono Trigger");
    assert_eq!(rom.path, "/lib/roms/snes/Chrono Trigger.sfc");
    assert_eq!(rom.size, 9);
    assert_eq!(rom.format, "sfc");
    assert_eq!(rom.system, "snes");
}

#[test]
fn added_file_takes_the_first_matching_pattern() {
    let mut registry = ParserRegistry::new();
    registry
        .register(parser("snes", "snes", vec![
            pattern("*.smc", "(?<title>.+)"),
            pattern("*.sfc", "(?<title>.+)\\.sfc"),
            pattern("*", "(?<title>.)"),
        ]))
        .unwrap();
    let rom = parse_added_rom("snes", &added_file("/lib/roms/snes/Game.sfc"), &registry).unwrap();
    assert_eq!(rom.title, "Game");
}

#[test]
fn added_rom_for_unknown_parser_is_an_error() {
    let registry = ParserRegistry::new();
    assert_eq!(
        parse_added_rom("snes", &added_file("/lib/a.sfc"), &registry).err(),
        Some(ParseRomError::UnknownParser)
    );
}

#[test]
fn added_rom_that_no_pattern_matches_is_an_error() {
    let mut registry = ParserRegistry::new();
    registry.register(snes()).unwrap();
    assert_eq!(
        parse_added_rom("snes", &added_file("/lib/roms/snes/notes.txt"), &registry).err(),
        Some(ParseRomError::NoMatch)
    );
    assert_eq!(parse_added_rom("snes", &added_file("/"), &registry).err(), Some(ParseRomError::NoMatch));
}

#[test]
fn added_rom_with_broken_parser_is_an_error() {
    let mut registry = ParserRegistry::new();
    registry.insert(parser("bad", "bad", vec![pattern("*", "(")]));
    assert_eq!(
        parse_added_rom("bad", &added_file("/lib/a.sfc"), &registry).err(),
        Some(ParseRomError::InvalidPattern(ValidationError::InvalidRegex(0)))
    );
}

#[test]
fn added_folder_is_matched_by_what_lies_below_it() {
    let mut registry = ParserRegistry::new();
    registry
        .register(parser("ps3", "ps3", vec![
            pattern("**/*.iso", "(?<title>.+)\\.iso"),
            pattern("**/EBOOT.BIN", "(?<title>[^/]+)/PS3_GAME"),
        ]))
        .unwrap();
    let rom = AddedRom {
        file: FileEntry { relative: "Game".to_string(), path: "/lib/roms/ps3/Game".to_string(), size: 0, add_date: "d".to_string() },
        kind: EntryKind::Directory,
        contents: vec![
            file("/lib/roms/ps3/Game", "PS3_DISC.SFB", 1),
            file("/lib/roms/ps3/Game", "Game/PS3_GAME/USRDIR/EBOOT.BIN", 77),
            file("/lib/roms/ps3/Game", "second/EBOOT.BIN", 78),
        ],
    };
    let found = parse_added_rom("ps3", &rom, &registry).unwrap();
    assert_eq!(found.title, "Game");
    assert_eq!(found.path, "/lib/roms/ps3/Game/Game/PS3_GAME/USRDIR/EBOOT.BIN");
    assert_eq!(found.size, 77);
}

#[test]
fn added_empty_folder_matches_nothing() {
    let mut registry = ParserRegistry::new();
    registry.register(snes()).unwrap();
    let rom = AddedRom {
        file: FileEntry { relative: "".to_string(), path: "/lib/roms/snes/Game.sfc".to_string(), size: 0, add_date: "d".to_string() },
        kind: EntryKind::Directory,
        contents: Vec::new(),
    };
    assert_eq!(parse_added_rom("snes", &rom, &registry).err(), Some(ParseRomError::NoMatch));
}
