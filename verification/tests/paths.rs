use nas_rom_manager::paths::{
    assemble_path, extension_of, file_name_of, join_paths, join_strings, parent_of, segments_of,
    starts_at_root, strings_of,
};

fn s(v: &[&str]) -> Vec<String> {
    v.iter().map(|x| x.to_string()).collect()
}

#[test]
fn segments_leave_out_empty_pieces() {
    assert_eq!(segments_of("/lib/roms//snes/"), s(&["lib", "roms", "snes"]));
    assert_eq!(segments_of("a"), s(&["a"]));
    assert_eq!(segments_of(""), Vec::<String>::new());
    assert_eq!(segments_of("///"), Vec::<String>::new());
}

#[test]
fn absolute_paths_start_at_the_root() {
    assert!(starts_at_root("/a"));
    assert!(starts_at_root("/"));
    assert!(!starts_at_root("a/b"));
    assert!(!starts_at_root(""));
}

#[test]
fn paths_are_joined_with_one_separator() {
    assert_eq!(join_paths("/lib", "roms"), "/lib/roms");
    assert_eq!(join_paths("/lib/", "roms"), "/lib/roms");
    assert_eq!(join_paths("", "roms"), "roms");
    assert_eq!(join_paths("/lib", ""), "/lib/");
}

#[test]
fn absolute_path_replaces_the_base() {
    assert_eq!(join_paths("/lib", "/mnt/roms"), "/mnt/roms");
}

#[test]
fn join_agrees_with_std() {
    for (base, rest) in [("/lib", "roms"), ("/lib/", "roms"), ("", "roms"), ("/lib", "/abs"), ("a/b", "c/d"),
        ("/lib", ""), ("", "")] {
        let expected = std::path::PathBuf::from(base).join(rest);
        assert_eq!(join_paths(base, rest), expected.to_str().unwrap(), "{:?} {:?}", base, rest);
    }
}

#[test]
fn file_name_is_the_last_segment() {
    assert_eq!(file_name_of("/lib/roms/snes/Chrono Trigger.sfc"), Some("Chrono Trigger.sfc".to_string()));
    assert_eq!(file_name_of("/lib/roms/snes/"), Some("snes".to_string()));
    assert_eq!(file_name_of("game.sfc"), Some("game.sfc".to_string()));
    assert_eq!(file_name_of("/"), None);
    assert_eq!(file_name_of(""), None);
}

#[test]
fn extension_follows_the_last_dot() {
    assert_eq!(extension_of("Chrono Trigger.sfc"), Some("sfc".to_string()));
    assert_eq!(extension_of("archive.tar.gz"), Some("gz".to_string()));
    assert_eq!(extension_of("name."), Some("".to_string()));
    assert_eq!(extension_of(".hidden.txt"), Some("txt".to_string()));
}

#[test]
fn names_without_extension() {
    assert_eq!(extension_of("README"), None);
    assert_eq!(extension_of(".hidden"), None);
    assert_eq!(extension_of(""), None);
}

#[test]
fn extension_agrees_with_std() {
    for name in ["a.b", "a", ".a", "a.", "a.b.c", ".a.b", "a b.c d"] {
        let expected = std::path::Path::new(name).extension().map(|e| e.to_str().unwrap().to_string());
        assert_eq!(extension_of(name), expected, "{:?}", name);
    }
}

#[test]
fn parent_drops_the_last_segment() {
    assert_eq!(parent_of("/lib/roms/snes/game.sfc"), Some("/lib/roms/snes".to_string()));
    assert_eq!(parent_of("roms/game.sfc"), Some("roms".to_string()));
    assert_eq!(parent_of("game.sfc"), Some("".to_string()));
    assert_eq!(parent_of("/game.sfc"), Some("/".to_string()));
    assert_eq!(parent_of("/"), None);
    assert_eq!(parent_of(""), None);
}

#[test]
fn paths_are_assembled_from_segments() {
    assert_eq!(assemble_path(true, &s(&["lib", "roms"])), "/lib/roms");
    assert_eq!(assemble_path(false, &s(&["lib", "roms"])), "lib/roms");
    assert_eq!(assemble_path(true, &s(&[])), "/");
    assert_eq!(assemble_path(false, &s(&[])), "");
    assert_eq!(assemble_path(false, &s(&["one"])), "one");
}

#[test]
fn texts_are_joined_with_separator() {
    let joined: String = join_strings(&s(&["a", "b", "c"]), '-').into_iter().collect();
    assert_eq!(joined, "a-b-c");
    let single: String = join_strings(&s(&["a"]), '-').into_iter().collect();
    assert_eq!(single, "a");
    let none: String = join_strings(&s(&[]), '-').into_iter().collect();
    assert_eq!(none, "");
    let with_empty: String = join_strings(&s(&["", "a", ""]), '/').into_iter().collect();
    assert_eq!(with_empty, "/a/");
}

#[test]
fn strings_are_made_of_character_vectors() {
    let parts: Vec<Vec<char>> = vec!["ab".chars().collect(), "".chars().collect()];
    assert_eq!(strings_of(&parts), s(&["ab", ""]));
}

#[test]
fn segments_of_an_assembled_path_are_its_parts() {
    for absolute in [false, true] {
        for parts in [vec![], vec!["a"], vec!["lib", "roms", "snes"], vec!["a b", "c.d", ".."]] {
            let parts: Vec<String> = parts.into_iter().map(String::from).collect();
            assert_eq!(segments_of(&assemble_path(absolute, &parts)), parts);
        }
    }
}
