use nas_rom_manager::extras::{eq_ignore_ascii_case, to_ascii_lower, ExtrasIndex};

#[test]
fn ascii_capitals_are_lowered() {
    assert_eq!(to_ascii_lower('A'), 'a');
    assert_eq!(to_ascii_lower('Z'), 'z');
    assert_eq!(to_ascii_lower('a'), 'a');
    assert_eq!(to_ascii_lower('@'), '@');
    assert_eq!(to_ascii_lower('['), '[');
    assert_eq!(to_ascii_lower('É'), 'É');
    assert_eq!(to_ascii_lower('5'), '5');
}

#[test]
fn lowering_agrees_with_std() {
    for code in 0u32..0x250 {
        if let Some(c) = char::from_u32(code) {
            assert_eq!(to_ascii_lower(c), c.to_ascii_lowercase());
        }
    }
}

#[test]
fn comparison_ignores_ascii_case() {
    assert!(eq_ignore_ascii_case("DLC", "dlc"));
    assert!(eq_ignore_ascii_case("Update.NSP", "update.nsp"));
    assert!(!eq_ignore_ascii_case("dlc", "dlcs"));
    assert!(!eq_ignore_ascii_case("É", "é"));
    assert!(eq_ignore_ascii_case("", ""));
}

#[test]
fn comparison_agrees_with_std() {
    for (a, b) in [("a", "A"), ("ab", "a"), ("straße", "STRASSE"), ("é", "É"), ("Kb", "kB"), ("1", "1")] {
        assert_eq!(eq_ignore_ascii_case(a, b), a.eq_ignore_ascii_case(b), "{} {}", a, b);
    }
}

#[test]
fn files_are_recorded_by_rom() {
    let mut index = ExtrasIndex::new();
    assert_eq!(index.len(), 0);
    index.add("zelda", "dlc1.nsp");
    index.add("zelda", "dlc2.nsp");
    index.add("mario", "pack.nsp");
    assert_eq!(index.len(), 2);
    assert_eq!(index.get("zelda"), Some(&vec!["dlc1.nsp".to_string(), "dlc2.nsp".to_string()]));
    assert_eq!(index.get("mario"), Some(&vec!["pack.nsp".to_string()]));
    assert_eq!(index.get("metroid"), None);
}

#[test]
fn same_file_can_be_recorded_twice() {
    let mut index = ExtrasIndex::new();
    index.add("zelda", "dlc1.nsp");
    index.add("zelda", "dlc1.nsp");
    assert_eq!(index.get("zelda").unwrap().len(), 2);
}

#[test]
fn rom_ids_are_listed_once() {
    let mut index = ExtrasIndex::new();
    index.add("zelda", "a");
    index.add("mario", "b");
    index.add("zelda", "c");
    let mut ids = index.rom_ids();
    ids.sort();
    assert_eq!(ids, vec!["mario".to_string(), "zelda".to_string()]);
}

#[test]
fn file_is_removed_whatever_its_case() {
    let mut index = ExtrasIndex::new();
    index.add("zelda", "DLC1.nsp");
    index.add("zelda", "dlc2.nsp");
    assert!(index.remove("zelda", "dlc1.NSP"));
    assert_eq!(index.get("zelda"), Some(&vec!["dlc2.nsp".to_string()]));
}

#[test]
fn only_the_first_of_equal_names_is_removed() {
    let mut index = ExtrasIndex::new();
    index.add("zelda", "a.nsp");
    index.add("zelda", "b.nsp");
    index.add("zelda", "A.NSP");
    assert!(index.remove("zelda", "a.nsp"));
    assert_eq!(index.get("zelda"), Some(&vec!["b.nsp".to_string(), "A.NSP".to_string()]));
}

#[test]
fn removing_unknown_file_changes_nothing() {
    let mut index = ExtrasIndex::new();
    index.add("zelda", "a.nsp");
    assert!(!index.remove("zelda", "b.nsp"));
    assert!(!index.remove("mario", "a.nsp"));
    assert_eq!(index.get("zelda"), Some(&vec!["a.nsp".to_string()]));
    assert_eq!(index.len(), 1);
}

#[test]
fn rom_stays_on_record_without_files() {
    let mut index = ExtrasIndex::new();
    index.add("zelda", "a.nsp");
    assert!(index.remove("zelda", "a.nsp"));
    assert_eq!(index.get("zelda"), Some(&Vec::new()));
    assert_eq!(index.len(), 1);
}
