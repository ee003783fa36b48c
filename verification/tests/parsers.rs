use nas_rom_manager::library::{Library, Parser, ParserPattern, SystemTagConfig};
use nas_rom_manager::listing::{DirEntry, EntryKind};
use nas_rom_manager::parsers::{
    bios_folder, check_color, check_fields, check_parser, check_patterns, load_bios_files,
    load_parsers, parser_file_path, plan_delete, plan_save, rom_folder, validate_parser,
    ParserRegistry, ValidationError,
};

fn pattern(glob: &str, regex: &str) -> ParserPattern {
    ParserPattern { glob: glob.to_string(), regex: regex.to_string(), download_strategy: "{}".to_string() }
}

fn parser(abbreviation: &str, folder: &str) -> Parser {
    Parser {
        name: format!("System {}", abbreviation),
        abbreviation: abbreviation.to_string(),
        igdb_platform_id: "19".to_string(),
        folder: folder.to_string(),
        sgdb_id: "".to_string(),
        full_capsule_path: "".to_string(),
        thumb_capsule_path: "".to_string(),
        hero_path: "".to_string(),
        tag_config: SystemTagConfig {
            background_color: "255 0 128".to_string(),
            border_color: "0 0 0".to_string(),
        },
        patterns: vec![pattern("*.sfc", "(?<title>.+)\\.sfc")],
        bios_files: Vec::new(),
    }
}

fn library() -> Library {
    Library {
        library_path: "/lib".to_string(),
        rom_dir: "roms".to_string(),
        emulator_dir: "emulators".to_string(),
        bios_dir: "bios".to_string(),
        dlc_dir: "dlc".to_string(),
        update_dir: "updates".to_string(),
    }
}

#[test]
fn color_of_three_numbers_is_accepted() {
    assert_eq!(check_color("255 0 128"), Ok(()));
    assert_eq!(check_color("0 0 0"), Ok(()));
    assert_eq!(check_color("+1 002 999999"), Ok(()));
}

#[test]
fn empty_color_is_rejected() {
    assert_eq!(check_color(""), Err(ValidationError::EmptyBackgroundColor));
}

#[test]
fn color_with_other_than_three_parts_is_rejected() {
    assert_eq!(check_color("255 0"), Err(ValidationError::MalformedBackgroundColor));
    assert_eq!(check_color("255 0 128 7"), Err(ValidationError::MalformedBackgroundColor));
    assert_eq!(check_color("255,0,128"), Err(ValidationError::MalformedBackgroundColor));
    assert_eq!(check_color("255  0 128"), Err(ValidationError::MalformedBackgroundColor));
    assert_eq!(check_color(" 255 0 128"), Err(ValidationError::MalformedBackgroundColor));
}

#[test]
fn color_with_part_that_is_no_number_is_rejected() {
    assert_eq!(check_color("255 0 x"), Err(ValidationError::NonNumericBackgroundColor));
    assert_eq!(check_color("ff 00 80"), Err(ValidationError::NonNumericBackgroundColor));
    assert_eq!(check_color("255 -1 0"), Err(ValidationError::NonNumericBackgroundColor));
    assert_eq!(check_color("255 0 "), Err(ValidationError::NonNumericBackgroundColor));
    assert_eq!(check_color("1.5 0 0"), Err(ValidationError::NonNumericBackgroundColor));
}

#[test]
fn complete_parser_is_valid() {
    let p = parser("snes", "snes");
    assert_eq!(check_fields(&p), Ok(()));
    assert_eq!(check_patterns(&p.patterns), Ok(()));
    assert_eq!(check_parser(&p), Ok(()));
    assert!(validate_parser(&p));
}

#[test]
fn parser_without_name_is_invalid() {
    let mut p = parser("snes", "snes");
    p.name = "".to_string();
    assert_eq!(check_parser(&p), Err(ValidationError::EmptyName));
    assert!(!validate_parser(&p));
}

#[test]
fn parser_without_abbreviation_is_invalid() {
    let mut p = parser("snes", "snes");
    p.abbreviation = "".to_string();
    assert_eq!(check_parser(&p), Err(ValidationError::EmptyAbbreviation));
}

#[test]
fn parser_without_folder_is_invalid() {
    let mut p = parser("snes", "snes");
    p.folder = "".to_string();
    assert_eq!(check_parser(&p), Err(ValidationError::EmptyFolder));
}

#[test]
fn parser_with_bad_color_is_invalid() {
    let mut p = parser("snes", "snes");
    p.tag_config.background_color = "".to_string();
    assert_eq!(check_parser(&p), Err(ValidationError::EmptyBackgroundColor));
    p.tag_config.background_color = "1 2".to_string();
    assert_eq!(check_parser(&p), Err(ValidationError::MalformedBackgroundColor));
    p.tag_config.background_color = "1 2 c".to_string();
    assert_eq!(check_parser(&p), Err(ValidationError::NonNumericBackgroundColor));
}

#[test]
fn parser_without_patterns_is_invalid() {
    let mut p = parser("snes", "snes");
    p.patterns.clear();
    assert_eq!(check_parser(&p), Err(ValidationError::NoPatterns));
}

#[test]
fn parser_with_repetition_in_a_glob_is_valid() {
    let mut p = parser("snes", "snes");
    p.patterns.push(pattern("<a:1,>", "(?<title>.+)"));
    p.patterns.push(pattern("disc<[0-9]:1,2>.bin", "(?<title>.+)"));
    assert_eq!(check_parser(&p), Ok(()));
}

#[test]
fn parser_with_oversized_repetition_in_a_glob_is_invalid() {
    let mut p = parser("snes", "snes");
    p.patterns.push(pattern("<a:9999999999>", "(?<title>.+)"));
    assert_eq!(check_parser(&p), Err(ValidationError::InvalidGlob(1)));
    let mut q = parser("snes", "snes");
    q.patterns = vec![pattern("<11:9223372036854775808>", "(?<title>.+)")];
    assert_eq!(check_parser(&q), Err(ValidationError::InvalidGlob(0)));
}

#[test]
fn parser_with_invalid_glob_is_invalid() {
    let mut p = parser("snes", "snes");
    p.patterns.push(pattern("*.[sfc", "(?<title>.+)"));
    assert_eq!(check_parser(&p), Err(ValidationError::InvalidGlob(1)));
    assert!(!validate_parser(&p));
}

#[test]
fn parser_with_invalid_regex_is_invalid() {
    let mut p = parser("snes", "snes");
    p.patterns.insert(0, pattern("*.smc", "(?<title>.+"));
    assert_eq!(check_parser(&p), Err(ValidationError::InvalidRegex(0)));
}

#[test]
fn first_broken_rule_is_reported() {
    let mut p = parser("snes", "snes");
    p.name = "".to_string();
    p.folder = "".to_string();
    p.patterns.clear();
    assert_eq!(check_parser(&p), Err(ValidationError::EmptyName));
    let mut q = parser("snes", "snes");
    q.patterns = vec![pattern("*.[a", "(?<t>"), pattern("*.[b", "ok")];
    assert_eq!(check_parser(&q), Err(ValidationError::InvalidGlob(0)));
    q.tag_config.background_color = "x".to_string();
    assert_eq!(check_parser(&q), Err(ValidationError::MalformedBackgroundColor));
}

#[test]
fn border_color_is_not_checked() {
    let mut p = parser("snes", "snes");
    p.tag_config.border_color = "".to_string();
    assert!(validate_parser(&p));
}

#[test]
fn registry_keeps_parsers_by_abbreviation() {
    let mut registry = ParserRegistry::new();
    assert_eq!(registry.len(), 0);
    assert_eq!(registry.register(parser("snes", "snes")), Ok(()));
    assert_eq!(registry.register(parser("gba", "gba")), Ok(()));
    assert_eq!(registry.len(), 2);
    assert!(registry.contains("snes"));
    assert!(!registry.contains("n64"));
    assert_eq!(registry.get("gba").unwrap().folder, "gba");
    assert!(registry.get("n64").is_none());
}

#[test]
fn registry_turns_invalid_parser_away() {
    let mut registry = ParserRegistry::new();
    let mut bad = parser("snes", "snes");
    bad.patterns.clear();
    assert_eq!(registry.register(bad), Err(ValidationError::NoPatterns));
    assert_eq!(registry.len(), 0);
}

#[test]
fn later_parser_replaces_earlier_one() {
    let mut registry = ParserRegistry::new();
    registry.insert(parser("snes", "snes"));
    registry.insert(parser("snes", "super-nintendo"));
    assert_eq!(registry.len(), 1);
    assert_eq!(registry.get("snes").unwrap().folder, "super-nintendo");
}

#[test]
fn registry_forgets_removed_parser() {
    let mut registry = ParserRegistry::new();
    registry.insert(parser("snes", "snes"));
    registry.insert(parser("gba", "gba"));
    assert_eq!(registry.remove("snes").unwrap().abbreviation, "snes");
    assert!(registry.remove("snes").is_none());
    assert_eq!(registry.len(), 1);
    assert!(registry.contains("gba"));
}

#[test]
fn parser_is_found_by_folder() {
    let mut registry = ParserRegistry::new();
    registry.insert(parser("snes", "super-nintendo"));
    registry.insert(parser("gba", "gba"));
    assert_eq!(registry.find_by_folder("super-nintendo").unwrap().abbreviation, "snes");
    assert_eq!(registry.find_by_folder("gba").unwrap().abbreviation, "gba");
    assert!(registry.find_by_folder("snes").is_none());
}

#[test]
fn first_registered_parser_owns_a_shared_folder() {
    let mut registry = ParserRegistry::new();
    registry.insert(parser("a", "shared"));
    registry.insert(parser("b", "shared"));
    assert_eq!(registry.find_by_folder("shared").unwrap().abbreviation, "a");
}

#[test]
fn systems_lists_every_parser_once() {
    let mut registry = ParserRegistry::new();
    registry.insert(parser("snes", "snes"));
    registry.insert(parser("gba", "gba"));
    registry.insert(parser("snes", "snes2"));
    let mut names: Vec<String> = registry.systems().into_iter().map(|p| p.abbreviation).collect();
    names.sort();
    assert_eq!(names, vec!["gba".to_string(), "snes".to_string()]);
}

#[test]
fn loading_keeps_valid_parsers_and_reports_the_others() {
    let mut broken = parser("bad", "bad");
    broken.tag_config.background_color = "red".to_string();
    let mut unnamed = parser("n64", "n64");
    unnamed.name = "".to_string();
    let candidates = vec![parser("snes", "snes"), broken, parser("gba", "gba"), unnamed];
    let (registry, rejected) = load_parsers(&candidates);
    assert_eq!(registry.len(), 2);
    assert!(registry.contains("snes"));
    assert!(registry.contains("gba"));
    assert_eq!(
        rejected,
        vec![(1, ValidationError::MalformedBackgroundColor), (3, ValidationError::EmptyName)]
    );
}

#[test]
fn loading_nothing_gives_an_empty_registry() {
    let (registry, rejected) = load_parsers(&Vec::new());
    assert_eq!(registry.len(), 0);
    assert!(rejected.is_empty());
}

#[test]
fn bios_files_are_the_files_of_the_folder() {
    let entries = vec![
        DirEntry { name: "bios.bin".to_string(), kind: EntryKind::File },
        DirEntry { name: "sub".to_string(), kind: EntryKind::Directory },
        DirEntry { name: "link".to_string(), kind: EntryKind::Other },
        DirEntry { name: "keys.txt".to_string(), kind: EntryKind::File },
    ];
    assert_eq!(load_bios_files(&entries), vec!["bios.bin".to_string(), "keys.txt".to_string()]);
    assert!(load_bios_files(&Vec::new()).is_empty());
}

#[test]
fn parser_file_is_named_after_the_folder() {
    let p = parser("snes", "super-nintendo");
    assert_eq!(parser_file_path("/config/parsers", &p), "/config/parsers/super-nintendo.json");
}

#[test]
fn system_folders_lie_in_the_library() {
    let p = parser("snes", "super-nintendo");
    assert_eq!(rom_folder(&library(), &p), "/lib/roms/super-nintendo");
    assert_eq!(bios_folder(&library(), &p), "/lib/bios/super-nintendo");
}

#[test]
fn saving_a_new_parser_creates_and_watches_its_folder() {
    let p = parser("snes", "snes");
    let plan = plan_save("/config/parsers", &library(), &p, false);
    assert_eq!(plan.file_path, "/config/parsers/snes.json");
    assert_eq!(plan.new_folder, Some("/lib/roms/snes".to_string()));
}

#[test]
fn saving_a_known_parser_only_writes_its_file() {
    let p = parser("snes", "snes");
    let plan = plan_save("/config/parsers", &library(), &p, true);
    assert_eq!(plan.file_path, "/config/parsers/snes.json");
    assert_eq!(plan.new_folder, None);
}

#[test]
fn deleting_a_parser_removes_its_file_and_watch() {
    let p = parser("snes", "snes");
    let plan = plan_delete("/config/parsers", &library(), &p);
    assert_eq!(plan.file_path, "/config/parsers/snes.json");
    assert_eq!(plan.unwatch, "/lib/roms/snes");
}

#[test]
fn new_registry_owns_no_folder() {
    let registry = ParserRegistry::new();
    assert_eq!(registry.len(), 0);
    assert!(registry.find_by_folder("snes").is_none());
    assert!(registry.find_by_folder("").is_none());
    assert!(registry.systems().is_empty());
}

#[test]
fn every_valid_parser_with_its_own_abbreviation_is_loaded() {
    let mut broken = parser("gba", "gba");
    broken.name = "".to_string();
    let candidates = vec![parser("snes", "snes"), broken, parser("nes", "nes"), parser("ps2", "ps2")];
    let (registry, rejected) = load_parsers(&candidates);
    assert_eq!(registry.len(), 3);
    for i in [0, 2, 3] {
        assert_eq!(registry.get(&candidates[i].abbreviation), Some(&candidates[i]));
    }
    assert_eq!(registry.get("gba"), None);
    assert_eq!(rejected, vec![(1, ValidationError::EmptyName)]);
}
