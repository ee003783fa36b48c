//! The catalog's data: the library's directories, the parsers that recognise
//! ROM files, and the ROM entries that a scan produces.

use vstd::prelude::*;
use crate::text::string_views;

verus! {

/// Where a library lives on disk: its root and the directories below it.
#[derive(Debug, PartialEq, Eq)]
pub struct Library {
    pub library_path: String,
    pub rom_dir: String,
    pub emulator_dir: String,
    pub bios_dir: String,
    pub dlc_dir: String,
    pub update_dir: String,
}

/// What a [`Library`] holds, as mathematical values.
pub struct LibraryView {
    pub library_path: Seq<char>,
    pub rom_dir: Seq<char>,
    pub emulator_dir: Seq<char>,
    pub bios_dir: Seq<char>,
    pub dlc_dir: Seq<char>,
    pub update_dir: Seq<char>,
}

impl View for Library {
    type V = LibraryView;

    open spec fn view(&self) -> LibraryView {
        LibraryView {
            library_path: self.library_path@,
            rom_dir: self.rom_dir@,
            emulator_dir: self.emulator_dir@,
            bios_dir: self.bios_dir@,
            dlc_dir: self.dlc_dir@,
            update_dir: self.update_dir@,
        }
    }
}

impl Clone for Library {
    fn clone(&self) -> (r: Self)
        ensures
            r@ == self@,
    {
        Library {
            library_path: self.library_path.clone(),
            rom_dir: self.rom_dir.clone(),
            emulator_dir: self.emulator_dir.clone(),
            bios_dir: self.bios_dir.clone(),
            dlc_dir: self.dlc_dir.clone(),
            update_dir: self.update_dir.clone(),
        }
    }
}

/// Colours of the tag that marks a system in the interface.
#[derive(Debug, PartialEq, Eq)]
pub struct SystemTagConfig {
    /// Three decimal numbers separated by single spaces: red, green, blue.
    pub background_color: String,
    pub border_color: String,
}

/// What a [`SystemTagConfig`] holds, as mathematical values.
pub struct SystemTagConfigView {
    pub background_color: Seq<char>,
    pub border_color: Seq<char>,
}

impl View for SystemTagConfig {
    type V = SystemTagConfigView;

    open spec fn view(&self) -> SystemTagConfigView {
        SystemTagConfigView {
            background_color: self.background_color@,
            border_color: self.border_color@,
        }
    }
}

impl Clone for SystemTagConfig {
    fn clone(&self) -> (r: Self)
        ensures
            r@ == self@,
    {
        SystemTagConfig {
            background_color: self.background_color.clone(),
            border_color: self.border_color.clone(),
        }
    }
}

/// One rule of a parser: which files belong to the system, and how the title
/// is read from a file's path.
#[derive(Debug, PartialEq, Eq)]
pub struct ParserPattern {
    /// Glob expression that selects the files, relative to the system's folder.
    pub glob: String,
    /// Regular expression whose group named `title` captures the display title.
    pub regex: String,
    /// How a client fetches the ROM: a JSON object, carried through unread.
    pub download_strategy: String,
}

/// What a [`ParserPattern`] holds, as mathematical values.
pub struct ParserPatternView {
    pub glob: Seq<char>,
    pub regex: Seq<char>,
    pub download_strategy: Seq<char>,
}

impl View for ParserPattern {
    type V = ParserPatternView;

    open spec fn view(&self) -> ParserPatternView {
        ParserPatternView {
            glob: self.glob@,
            regex: self.regex@,
            download_strategy: self.download_strategy@,
        }
    }
}

impl Clone for ParserPattern {
    fn clone(&self) -> (r: Self)
        ensures
            r@ == self@,
    {
        ParserPattern {
            glob: self.glob.clone(),
            regex: self.regex.clone(),
            download_strategy: self.download_strategy.clone(),
        }
    }
}

/// The views of a sequence of patterns.
pub open spec fn pattern_views(v: Seq<ParserPattern>) -> Seq<ParserPatternView> {
    Seq::new(v.len(), |i: int| v[i]@)
}

/// The rules that recognise the ROMs of one emulated system.
#[derive(Debug, PartialEq, Eq)]
pub struct Parser {
    pub name: String,
    /// Short name of the system; the key of the parser.
    pub abbreviation: String,
    pub igdb_platform_id: String,
    /// Name of the system's directory below the ROM directory.
    pub folder: String,
    pub sgdb_id: String,
    pub full_capsule_path: String,
    pub thumb_capsule_path: String,
    pub hero_path: String,
    pub tag_config: SystemTagConfig,
    pub patterns: Vec<ParserPattern>,
    /// Names of the files in the system's BIOS directory; filled on every load.
    pub bios_files: Vec<String>,
}

/// What a [`Parser`] holds, as mathematical values.
pub struct ParserView {
    pub name: Seq<char>,
    pub abbreviation: Seq<char>,
    pub igdb_platform_id: Seq<char>,
    pub folder: Seq<char>,
    pub sgdb_id: Seq<char>,
    pub full_capsule_path: Seq<char>,
    pub thumb_capsule_path: Seq<char>,
    pub hero_path: Seq<char>,
    pub tag_config: SystemTagConfigView,
    pub patterns: Seq<ParserPatternView>,
    pub bios_files: Seq<Seq<char>>,
}

impl View for Parser {
    type V = ParserView;

    open spec fn view(&self) -> ParserView {
        ParserView {
            name: self.name@,
            abbreviation: self.abbreviation@,
            igdb_platform_id: self.igdb_platform_id@,
            folder: self.folder@,
            sgdb_id: self.sgdb_id@,
            full_capsule_path: self.full_capsule_path@,
            thumb_capsule_path: self.thumb_capsule_path@,
            hero_path: self.hero_path@,
            tag_config: self.tag_config@,
            patterns: pattern_views(self.patterns@),
            bios_files: string_views(self.bios_files@),
        }
    }
}

/// A copy of `v`.
pub fn clone_strings(v: &Vec<String>) -> (r: Vec<String>)
    ensures
        string_views(r@) == string_views(v@),
{
    let mut r: Vec<String> = Vec::new();
    let mut i: usize = 0;
    while i < v.len()
        invariant
            0 <= i <= v.len(),
            r.len() == i,
            forall|k: int| 0 <= k < i ==> r[k]@ == v[k]@,
        decreases v.len() - i,
    {
        r.push(v[i].clone());
        i = i + 1;
    }
    assert(string_views(r@) =~= string_views(v@));
    r
}

/// A copy of `v`.
pub fn clone_patterns(v: &Vec<ParserPattern>) -> (r: Vec<ParserPattern>)
    ensures
        pattern_views(r@) == pattern_views(v@),
{
    let mut r: Vec<ParserPattern> = Vec::new();
    let mut i: usize = 0;
    while i < v.len()
        invariant
            0 <= i <= v.len(),
            r.len() == i,
            forall|k: int| 0 <= k < i ==> r[k]@ == v[k]@,
        decreases v.len() - i,
    {
        r.push(v[i].clone());
        i = i + 1;
    }
    assert(pattern_views(r@) =~= pattern_views(v@));
    r
}

impl Clone for Parser {
    fn clone(&self) -> (r: Self)
        ensures
            r@ == self@,
    {
        Parser {
            name: self.name.clone(),
            abbreviation: self.abbreviation.clone(),
            igdb_platform_id: self.igdb_platform_id.clone(),
            folder: self.folder.clone(),
            sgdb_id: self.sgdb_id.clone(),
            full_capsule_path: self.full_capsule_path.clone(),
            thumb_capsule_path: self.thumb_capsule_path.clone(),
            hero_path: self.hero_path.clone(),
            tag_config: self.tag_config.clone(),
            patterns: clone_patterns(&self.patterns),
            bios_files: clone_strings(&self.bios_files),
        }
    }
}

/// A cataloged game: a file or folder that a parser's pattern matched.
#[derive(Debug, PartialEq, Eq)]
pub struct ROM {
    pub title: String,
    /// Where the ROM lies: the key of the entry.
    pub path: String,
    /// Size in bytes.
    pub size: u64,
    /// Creation date, formatted for display.
    pub add_date: String,
    /// The file's extension, without the dot.
    pub format: String,
    /// Abbreviation of the system that the ROM belongs to.
    pub system: String,
    pub system_full_name: String,
    pub download_strategy: String,
}

/// What a [`ROM`] holds, as mathematical values.
pub struct RomView {
    pub title: Seq<char>,
    pub path: Seq<char>,
    pub size: nat,
    pub add_date: Seq<char>,
    pub format: Seq<char>,
    pub system: Seq<char>,
    pub system_full_name: Seq<char>,
    pub download_strategy: Seq<char>,
}

impl View for ROM {
    type V = RomView;

    open spec fn view(&self) -> RomView {
        RomView {
            title: self.title@,
            path: self.path@,
            size: self.size as nat,
            add_date: self.add_date@,
            format: self.format@,
            system: self.system@,
            system_full_name: self.system_full_name@,
            download_strategy: self.download_strategy@,
        }
    }
}

impl Clone for ROM {
    fn clone(&self) -> (r: Self)
        ensures
            r@ == self@,
    {
        ROM {
            title: self.title.clone(),
            path: self.path.clone(),
            size: self.size,
            add_date: self.add_date.clone(),
            format: self.format.clone(),
            system: self.system.clone(),
            system_full_name: self.system_full_name.clone(),
            download_strategy: self.download_strategy.clone(),
        }
    }
}

/// The views of a sequence of ROMs.
pub open spec fn rom_views(v: Seq<ROM>) -> Seq<RomView> {
    Seq::new(v.len(), |i: int| v[i]@)
}

/// What the user chose for one ROM: artwork, identifiers at the metadata
/// services, and whether it is a favourite.
#[derive(Debug, Clone, PartialEq, Eq)]
pub struct ROMMetadata {
    pub title: String,
    pub full_capsule_path: String,
    pub thumb_capsule_path: String,
    pub hero_path: String,
    pub sgdb_id: String,
    pub igdb_id: String,
    /// What the metadata service returned, as JSON text.
    pub metadata: Option<String>,
    pub is_favorite: bool,
}

/// The user's overrides of one ROM's artwork and title.
#[derive(Debug, Clone, PartialEq, Eq)]
pub struct ROMCustomization {
    pub path: String,
    pub title: String,
    pub cover_path: String,
}

/// A named selection of ROMs.
#[derive(Debug, Clone, PartialEq, Eq)]
pub struct Collection {
    pub name: String,
    pub rom_ids: Vec<String>,
}

/// How a system is shown in the interface.
#[derive(Debug, Clone, PartialEq, Eq)]
pub struct System {
    pub full_name: String,
    pub abbreviation: String,
    pub igdb_platform_id: String,
    pub tag_config: SystemTagConfig,
}

impl System {
    /// The display record of the system that `parser` recognises.
    pub fn of_parser(parser: &Parser) -> (s: System)
        ensures
            s.full_name@ == parser.name@,
            s.abbreviation@ == parser.abbreviation@,
            s.igdb_platform_id@ == parser.igdb_platform_id@,
            s.tag_config@ == parser.tag_config@,
    {
        System {
            full_name: parser.name.clone(),
            abbreviation: parser.abbreviation.clone(),
            igdb_platform_id: parser.igdb_platform_id.clone(),
            tag_config: parser.tag_config.clone(),
        }
    }
}

} // verus!
