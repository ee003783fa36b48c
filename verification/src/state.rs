//! What the server remembers between commands: the library, its catalog, its
//! parsers, the metadata of its ROMs and their extra files; and how each
//! command changes it.

use vstd::prelude::*;
use crate::extras::{
    eq_ignore_ascii_case, same_ignoring_ascii_case, with_file, without_file, ExtrasIndex,
};
use crate::library::{rom_views, Library, Parser, ParserView, ROMMetadata, RomView, ROM};
use crate::listing::{scan_views, title_views, FolderScan, TitleFolder};
use crate::parsers::ParserRegistry;
use crate::protocol::Command;
use crate::scanner::{
    added_rom, distinct_roms, library_roms, load_extras, load_roms, parse_added_rom,
    watch_requests, with_titles, AddedRom, ParseRomError,
};
use crate::settings::{has_library_path, Settings, SettingsView};
use crate::table::Table;
use crate::watcher::Watcher;

verus! {

/// The outcome of a scan.
pub struct LoadResult {
    /// The library that was scanned.
    pub library: Library,
    /// The ROMs that were found.
    pub roms: Vec<ROM>,
    /// The parsers of the library, each once.
    pub systems: Vec<Parser>,
    /// Files of downloadable content, by ROM identifier.
    pub dlcs: ExtrasIndex,
    /// Update files, by ROM identifier.
    pub updates: ExtrasIndex,
}

/// What the server remembers between commands.
pub struct StateStore {
    pub library: Library,
    pub roms: Vec<ROM>,
    pub parsers: ParserRegistry,
    /// Metadata of the ROMs, by ROM identifier.
    pub metadata: Table<ROMMetadata>,
    pub updates: ExtrasIndex,
    pub dlcs: ExtrasIndex,
}

/// A copy of `v`.
pub fn clone_roms(v: &Vec<ROM>) -> (r: Vec<ROM>)
    ensures
        rom_views(r@) == rom_views(v@),
{
    let mut r: Vec<ROM> = Vec::new();
    let mut i: usize = 0;
    while i < v.len()
        invariant
            0 <= i <= v.len(),
            r.len() == i,
            forall|k: int| 0 <= k < i ==> r[k]@ == v[k]@,
        decreases v.len() - i,
    {
        r.push(v[i].clone());
        i = i + 1;
    }
    assert(rom_views(r@) =~= rom_views(v@));
    r
}

/// Scans a library: the ROMs of every scanned folder, the parsers, and the
/// extra files. Every scanned folder that a parser owns is asked to be
/// watched.
pub fn load_library(
    library: &Library,
    watcher: &mut Watcher,
    registry: &ParserRegistry,
    scans: &Vec<FolderScan>,
    dlcs: &Vec<TitleFolder>,
    updates: &Vec<TitleFolder>,
) -> (r: LoadResult)
    ensures
        r.library@ == library@,
        rom_views(r.roms@) == library_roms(*registry, scan_views(scans@)),
        r.systems.len() == registry@.dom().len(),
        forall|i: int|
            0 <= i < r.systems.len() ==> registry@.dom().contains(
                (#[trigger] r.systems[i]).abbreviation@,
            ) && registry@[r.systems[i].abbreviation@] == r.systems[i]@,
        forall|i: int, j: int|
            0 <= i < j < r.systems.len() ==> r.systems[i].abbreviation@
                != r.systems[j].abbreviation@,
        r.dlcs@ == with_titles(Map::empty(), title_views(dlcs@)),
        r.updates@ == with_titles(Map::empty(), title_views(updates@)),
        final(watcher)@ == old(watcher)@ + watch_requests(
            *registry,
            library.library_path@,
            scan_views(scans@),
        ),
{
    let systems = registry.systems();
    let roms = load_roms(library, watcher, registry, scans);
    let extras = load_extras(dlcs, updates);
    LoadResult { library: library.clone(), roms, systems, dlcs: extras.0, updates: extras.1 }
}

/// Scans a library with freshly loaded parsers, which the state keeps from
/// then on.
pub fn parse_library(
    library: &Library,
    watcher: &mut Watcher,
    state: &mut StateStore,
    registry: ParserRegistry,
    scans: &Vec<FolderScan>,
    dlcs: &Vec<TitleFolder>,
    updates: &Vec<TitleFolder>,
) -> (r: LoadResult)
    ensures
        final(state).parsers == registry,
        final(state).library == old(state).library,
        final(state).roms == old(state).roms,
        final(state).metadata == old(state).metadata,
        final(state).dlcs == old(state).dlcs,
        final(state).updates == old(state).updates,
        r.library@ == library@,
        rom_views(r.roms@) == library_roms(registry, scan_views(scans@)),
        r.systems.len() == registry@.dom().len(),
        forall|i: int|
            0 <= i < r.systems.len() ==> registry@.dom().contains(
                (#[trigger] r.systems[i]).abbreviation@,
            ) && registry@[r.systems[i].abbreviation@] == r.systems[i]@,
        forall|i: int, j: int|
            0 <= i < j < r.systems.len() ==> r.systems[i].abbreviation@
                != r.systems[j].abbreviation@,
        r.dlcs@ == with_titles(Map::empty(), title_views(dlcs@)),
        r.updates@ == with_titles(Map::empty(), title_views(updates@)),
        final(watcher)@ == old(watcher)@ + watch_requests(
            registry,
            library.library_path@,
            scan_views(scans@),
        ),
{
    let r = load_library(library, watcher, &registry, scans, dlcs, updates);
    state.parsers = registry;
    r
}

/// Whether `file_type` names downloadable content; anything else names
/// updates.
pub open spec fn names_dlc(file_type: Seq<char>) -> bool {
    same_ignoring_ascii_case(file_type, "dlc"@)
}

/// Position of the first of `roms` with the path `path`, or `roms.len()` when
/// none has it.
pub open spec fn path_position(roms: Seq<RomView>, path: Seq<char>) -> int
    decreases roms.len(),
{
    if roms.len() == 0 {
        0
    } else if roms[0].path == path {
        0
    } else {
        1 + path_position(roms.drop_first(), path)
    }
}

/// The catalog with the entry `rom`: in place of the first entry with the same
/// path where there is one, at the end otherwise.
pub open spec fn with_rom(roms: Seq<RomView>, rom: RomView) -> Seq<RomView> {
    let i = path_position(roms, rom.path);
    if 0 <= i < roms.len() {
        roms.update(i, rom)
    } else {
        roms.push(rom)
    }
}

/// Where the first entry with a path stands: nothing before it has the path,
/// and it has the path unless it is the end.
pub proof fn lemma_path_position(roms: Seq<RomView>, path: Seq<char>)
    ensures
        0 <= path_position(roms, path) <= roms.len(),
        path_position(roms, path) < roms.len() ==> roms[path_position(roms, path)].path == path,
        forall|k: int| 0 <= k < path_position(roms, path) ==> roms[k].path != path,
    decreases roms.len(),
{
    if roms.len() > 0 && roms[0].path != path {
        let rest = roms.drop_first();
        lemma_path_position(rest, path);
        assert forall|k: int| 0 <= k < path_position(roms, path) implies roms[k].path
            != path by {
            if k > 0 {
                assert(rest[k - 1] == roms[k]);
            }
        }
    }
}

/// A catalog without a path in it twice stays so when an entry joins it.
pub proof fn lemma_with_rom_distinct(roms: Seq<RomView>, rom: RomView)
    requires
        distinct_roms(roms),
    ensures
        distinct_roms(with_rom(roms, rom)),
{
    lemma_path_position(roms, rom.path);
    let i = path_position(roms, rom.path);
    let all = with_rom(roms, rom);
    assert forall|a: int, b: int| 0 <= a < b < all.len() implies all[a].path != all[b].path by {
        if i < roms.len() {
            assert(roms[a].path != roms[b].path);
        } else if b < roms.len() {
            assert(roms[a].path != roms[b].path);
        }
    }
}

impl StateStore {
    /// The state of a server that has not loaded anything for `library`.
    pub fn new(library: Library) -> (s: Self)
        ensures
            s.library == library,
            s.roms@.len() == 0,
            s.parsers@ == Map::<Seq<char>, ParserView>::empty(),
            s.metadata@ == Map::<Seq<char>, ROMMetadata>::empty(),
            s.dlcs@ == Map::<Seq<char>, Seq<Seq<char>>>::empty(),
            s.updates@ == Map::<Seq<char>, Seq<Seq<char>>>::empty(),
    {
        StateStore {
            library,
            roms: Vec::new(),
            parsers: ParserRegistry::new(),
            metadata: Table::new(),
            updates: ExtrasIndex::new(),
            dlcs: ExtrasIndex::new(),
        }
    }

    /// Whether a scan is remembered, so that the library need not be scanned
    /// again: there are ROMs and there are parsers.
    pub fn has_library(&self) -> (r: bool)
        ensures
            r == (self.roms@.len() > 0 && self.parsers@.dom().len() > 0),
    {
        self.roms.len() > 0 && self.parsers.len() > 0
    }

    /// Whether metadata is remembered, so that it need not be read again.
    pub fn has_metadata(&self) -> (r: bool)
        ensures
            r == (self.metadata@.dom().len() > 0),
    {
        self.metadata.len() > 0
    }

    /// Remembers the ROMs of a scan and, for a scan of another library, that
    /// library.
    pub fn adopt(&mut self, result: &LoadResult, library: Option<&Library>)
        ensures
            rom_views(final(self).roms@) == rom_views(result.roms@),
            final(self).library@ == (match library {
                Some(l) => l@,
                None => old(self).library@,
            }),
            final(self).parsers == old(self).parsers,
            final(self).metadata == old(self).metadata,
            final(self).dlcs == old(self).dlcs,
            final(self).updates == old(self).updates,
    {
        self.roms = clone_roms(&result.roms);
        match library {
            Some(l) => {
                self.library = l.clone();
            },
            None => {},
        }
    }

    /// Records an extra file of a ROM: among the downloadable content if
    /// `file_type` is `dlc` in any letter case, among the updates otherwise.
    pub fn add_extra_file(&mut self, file_type: &str, rom_id: &str, filename: &str)
        ensures
            final(self).dlcs@ == (if names_dlc(file_type@) {
                with_file(old(self).dlcs@, rom_id@, filename@)
            } else {
                old(self).dlcs@
            }),
            final(self).updates@ == (if names_dlc(file_type@) {
                old(self).updates@
            } else {
                with_file(old(self).updates@, rom_id@, filename@)
            }),
            final(self).library == old(self).library,
            final(self).roms == old(self).roms,
            final(self).parsers == old(self).parsers,
            final(self).metadata == old(self).metadata,
    {
        if eq_ignore_ascii_case(file_type, "dlc") {
            self.dlcs.add(rom_id, filename);
        } else {
            self.updates.add(rom_id, filename);
        }
    }

    /// Takes an extra file of a ROM off the record: off the downloadable
    /// content if `file_type` is `dlc` in any letter case, off the updates
    /// otherwise.
    pub fn delete_extra_file(&mut self, file_type: &str, rom_id: &str, filename: &str)
        ensures
            final(self).dlcs@ == (if names_dlc(file_type@) {
                without_file(old(self).dlcs@, rom_id@, filename@)
            } else {
                old(self).dlcs@
            }),
            final(self).updates@ == (if names_dlc(file_type@) {
                old(self).updates@
            } else {
                without_file(old(self).updates@, rom_id@, filename@)
            }),
            final(self).library == old(self).library,
            final(self).roms == old(self).roms,
            final(self).parsers == old(self).parsers,
            final(self).metadata == old(self).metadata,
    {
        if eq_ignore_ascii_case(file_type, "dlc") {
            self.dlcs.remove(rom_id, filename);
        } else {
            self.updates.remove(rom_id, filename);
        }
    }

    /// Catalogs one added ROM with the parser named `parser_name` and, if that
    /// succeeds, remembers it: in place of the entry with the same path where
    /// there is one, after the ROMs known so far otherwise.
    pub fn add_rom(&mut self, parser_name: &str, rom: &AddedRom) -> (r: Result<ROM, ParseRomError>)
        ensures
            match (
                r,
                added_rom(
                    if old(self).parsers@.dom().contains(parser_name@) {
                        Some(old(self).parsers@[parser_name@])
                    } else {
                        None
                    },
                    rom@,
                ),
            ) {
                (Ok(found), Ok(expected)) => found@ == expected && rom_views(final(self).roms@)
                    == with_rom(rom_views(old(self).roms@), expected),
                (Err(e), Err(f)) => e == f && final(self).roms == old(self).roms,
                _ => false,
            },
            final(self).library == old(self).library,
            final(self).parsers == old(self).parsers,
            final(self).metadata == old(self).metadata,
            final(self).dlcs == old(self).dlcs,
            final(self).updates == old(self).updates,
    {
        match parse_added_rom(parser_name, rom, &self.parsers) {
            Ok(found) => {
                let ghost before = self.roms@;
                let ghost known = rom_views(before);
                let copy = found.clone();
                let mut i: usize = 0;
                assert(known.skip(0) =~= known);
                while i < self.roms.len() && self.roms[i].path != found.path
                    invariant
                        0 <= i <= self.roms.len(),
                        self.roms@ == before,
                        known == rom_views(before),
                        path_position(known, found@.path) == i + path_position(
                            known.skip(i as int),
                            found@.path,
                        ),
                    decreases self.roms.len() - i,
                {
                    proof {
                        assert(known.skip(i as int)[0] == self.roms[i as int]@);
                        assert(known.skip(i as int).drop_first() =~= known.skip(i + 1));
                    }
                    i = i + 1;
                }
                proof {
                    if i < self.roms.len() {
                        assert(known.skip(i as int)[0] == self.roms[i as int]@);
                    }
                }
                if i < self.roms.len() {
                    self.roms.set(i, copy);
                    assert(rom_views(self.roms@) =~= known.update(i as int, found@));
                } else {
                    self.roms.push(copy);
                    assert(rom_views(self.roms@) =~= known.push(found@));
                }
                Ok(found)
            },
            Err(e) => Err(e),
        }
    }

    /// Forgets the parser with this abbreviation and returns it.
    pub fn remove_parser(&mut self, abbreviation: &str) -> (r: Option<Parser>)
        ensures
            final(self).parsers@ == old(self).parsers@.remove(abbreviation@),
            match r {
                Some(p) => old(self).parsers@.dom().contains(abbreviation@) && p@ == old(
                    self,
                ).parsers@[abbreviation@],
                None => !old(self).parsers@.dom().contains(abbreviation@),
            },
            final(self).library == old(self).library,
            final(self).roms == old(self).roms,
            final(self).metadata == old(self).metadata,
            final(self).dlcs == old(self).dlcs,
            final(self).updates == old(self).updates,
    {
        self.parsers.remove(abbreviation)
    }
}

/// Whether a command is answered from what the server remembers, without a
/// look at the disk: the settings once they name a library, the library once
/// it has ROMs and parsers, the metadata once there is any. Every other
/// command is carried out afresh.
pub open spec fn remembered(command: Command, settings: SettingsView, state: StateStore) -> bool {
    match command {
        Command::LoadSettings => settings.library.library_path.len() > 0,
        Command::LoadLibrary => state.roms@.len() > 0 && state.parsers@.dom().len() > 0,
        Command::LoadMetadata => state.metadata@.dom().len() > 0,
        _ => false,
    }
}

/// Whether a command is answered from what the server remembers.
pub fn answers_from_memory(command: Command, settings: &Settings, state: &StateStore) -> (r: bool)
    ensures
        r == remembered(command, settings@, *state),
{
    match command {
        Command::LoadSettings => has_library_path(settings),
        Command::LoadLibrary => state.has_library(),
        Command::LoadMetadata => state.has_metadata(),
        _ => false,
    }
}

} // verus!
