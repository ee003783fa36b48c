//! Scanning a library: from the parsers and a listing of the directory tree to
//! the ROM entries and the extra files of each ROM.

use vstd::prelude::*;
use crate::extras::{with_file, ExtrasIndex};
use crate::library::{
    rom_views, Library, LibraryView, Parser, ParserPattern, ParserPatternView, ParserView, RomView,
    ROM,
};
use crate::listing::{
    entry_views, file_views, scan_views, title_views, DirEntry, DirEntryView, EntryKind,
    FileEntry, FileEntryView, FolderScan, FolderScanView, TitleFolder, TitleFolderView,
};
use crate::parsers::{
    check_patterns, lemma_no_pattern_problem, pattern_problem, ParserRegistry, ValidationError,
};
use crate::paths::{extension, extension_of, file_name, file_name_of, join_paths, joined};
use crate::pattern::{
    capture_title, captured_title, glob_hit, glob_matches, resolve_title, title_of, valid_glob,
    valid_regex, PatternError,
};
use crate::text::optional_text;
use crate::watcher::{Watcher, WatcherEventView};

verus! {

/// The format of the ROM at `path`: the extension of its file name, or
/// nothing where the name has none.
pub open spec fn format_of(path: Seq<char>) -> Seq<char> {
    match file_name(path) {
        Some(name) => match extension(name) {
            Some(ext) => ext,
            None => Seq::empty(),
        },
        None => Seq::empty(),
    }
}

/// The entry for `file`, found by `pattern` of `parser`, when the regular
/// expression captured `capture`.
pub open spec fn rom_with(
    parser: ParserView,
    pattern: ParserPatternView,
    file: FileEntryView,
    capture: Option<Seq<char>>,
) -> RomView {
    RomView {
        title: title_of(file.path, capture),
        path: file.path,
        size: file.size,
        add_date: file.add_date,
        format: format_of(file.path),
        system: parser.abbreviation,
        system_full_name: parser.name,
        download_strategy: pattern.download_strategy,
    }
}

/// The entry for `file`, found by `pattern` of `parser`: the title is read
/// from the file's relative path, the one that the glob matched.
pub open spec fn rom_of(
    parser: ParserView,
    pattern: ParserPatternView,
    file: FileEntryView,
) -> RomView {
    rom_with(parser, pattern, file, captured_title(pattern.regex, file.relative))
}

/// Whether one of the first `upto` patterns matches the relative path
/// `relative` with its glob.
pub open spec fn claimed(patterns: Seq<ParserPatternView>, upto: int, relative: Seq<char>) -> bool
    decreases upto,
{
    upto > 0 && (glob_hit(patterns[upto - 1].glob, relative) || claimed(
        patterns,
        upto - 1,
        relative,
    ))
}

/// Whether the pattern at position `j` gives the entry of `file`: its glob
/// matches the file's relative path, and no earlier pattern's glob does. So
/// each file is cataloged once, by the first pattern that matches it.
pub open spec fn claims(patterns: Seq<ParserPatternView>, j: int, file: FileEntryView) -> bool {
    glob_hit(patterns[j].glob, file.relative) && !claimed(patterns, j, file.relative)
}

/// The entries that the pattern at position `j` gives among `files`: one for
/// each file that it claims, in the order of the files.
pub open spec fn pattern_roms(parser: ParserView, j: int, files: Seq<FileEntryView>) -> Seq<RomView>
    decreases files.len(),
{
    if files.len() == 0 {
        Seq::empty()
    } else {
        let before = pattern_roms(parser, j, files.drop_last());
        if claims(parser.patterns, j, files.last()) {
            before.push(rom_of(parser, parser.patterns[j], files.last()))
        } else {
            before
        }
    }
}

/// The entries that the first `n` patterns of `parser` give among `files`:
/// those of the first pattern, then those of the second, and so on.
pub open spec fn platform_roms(
    parser: ParserView,
    n: int,
    files: Seq<FileEntryView>,
) -> Seq<RomView>
    decreases n,
{
    if n <= 0 {
        Seq::empty()
    } else {
        platform_roms(parser, n - 1, files) + pattern_roms(parser, n - 1, files)
    }
}

/// The entries of one system: what all patterns of `parser` give among
/// `files`.
pub open spec fn system_roms(parser: ParserView, files: Seq<FileEntryView>) -> Seq<RomView> {
    platform_roms(parser, parser.patterns.len() as int, files)
}

/// The title of an entry is what the regular expression captured from the
/// file's relative path, and the file's full path where it captured nothing.
pub proof fn lemma_rom_title(parser: ParserView, pattern: ParserPatternView, file: FileEntryView)
    ensures
        rom_of(parser, pattern, file).title == (match captured_title(pattern.regex, file.relative) {
            Some(title) => title,
            None => file.path,
        }),
        rom_of(parser, pattern, file).path == file.path,
{
}

/// A path that none of the first `upto` patterns claimed is matched by none
/// of them.
pub proof fn lemma_unclaimed(patterns: Seq<ParserPatternView>, upto: int, relative: Seq<char>)
    requires
        !claimed(patterns, upto, relative),
    ensures
        forall|j: int| 0 <= j < upto ==> !glob_hit((#[trigger] patterns[j]).glob, relative),
    decreases upto,
{
    if upto > 0 {
        lemma_unclaimed(patterns, upto - 1, relative);
    }
}

/// Whether `rom` is the entry of one of `files` that the pattern at position
/// `j` claims.
pub open spec fn found_by(
    rom: RomView,
    parser: ParserView,
    j: int,
    files: Seq<FileEntryView>,
) -> bool {
    exists|k: int|
        0 <= k < files.len() && claims(parser.patterns, j, #[trigger] files[k]) && rom == rom_of(
            parser,
            parser.patterns[j],
            files[k],
        )
}

/// Whether no two of `files` have the same full path.
pub open spec fn distinct_files(files: Seq<FileEntryView>) -> bool {
    forall|a: int, b: int| 0 <= a < b < files.len() ==> files[a].path != files[b].path
}

/// Whether no two of `roms` have the same path.
pub open spec fn distinct_roms(roms: Seq<RomView>) -> bool {
    forall|a: int, b: int| 0 <= a < b < roms.len() ==> roms[a].path != roms[b].path
}

/// Every entry that a pattern gives is the entry of a file that it claims,
/// and every file that it claims has its entry.
pub proof fn lemma_pattern_roms(parser: ParserView, j: int, files: Seq<FileEntryView>)
    ensures
        forall|i: int|
            0 <= i < pattern_roms(parser, j, files).len() ==> found_by(
                #[trigger] pattern_roms(parser, j, files)[i],
                parser,
                j,
                files,
            ),
        forall|k: int|
            0 <= k < files.len() && claims(parser.patterns, j, #[trigger] files[k])
                ==> pattern_roms(parser, j, files).contains(
                rom_of(parser, parser.patterns[j], files[k]),
            ),
    decreases files.len(),
{
    if files.len() > 0 {
        let before = files.drop_last();
        lemma_pattern_roms(parser, j, before);
        let all = pattern_roms(parser, j, files);
        let earlier = pattern_roms(parser, j, before);
        assert forall|i: int| 0 <= i < all.len() implies found_by(
            #[trigger] all[i],
            parser,
            j,
            files,
        ) by {
            if i < earlier.len() {
                assert(all[i] == earlier[i]);
                assert(found_by(earlier[i], parser, j, before));
                let k = choose|k: int|
                    0 <= k < before.len() && claims(parser.patterns, j, #[trigger] before[k])
                        && earlier[i] == rom_of(parser, parser.patterns[j], before[k]);
                assert(files[k] == before[k]);
            } else {
                assert(all[i] == rom_of(parser, parser.patterns[j], files[files.len() - 1]));
            }
        }
        assert forall|k: int|
            0 <= k < files.len() && claims(
                parser.patterns,
                j,
                #[trigger] files[k],
            ) implies all.contains(rom_of(parser, parser.patterns[j], files[k])) by {
            if k < before.len() {
                assert(before[k] == files[k]);
                assert(earlier.contains(rom_of(parser, parser.patterns[j], before[k])));
                let i = choose|i: int|
                    0 <= i < earlier.len() && earlier[i] == rom_of(
                        parser,
                        parser.patterns[j],
                        before[k],
                    );
                assert(all[i] == earlier[i]);
            } else {
                assert(all[all.len() - 1] == rom_of(parser, parser.patterns[j], files[k]));
            }
        }
    }
}

/// Among files with distinct paths, the entries of one pattern have distinct
/// paths.
pub proof fn lemma_pattern_distinct(parser: ParserView, j: int, files: Seq<FileEntryView>)
    requires
        distinct_files(files),
    ensures
        distinct_roms(pattern_roms(parser, j, files)),
    decreases files.len(),
{
    if files.len() > 0 {
        let before = files.drop_last();
        assert(distinct_files(before)) by {
            assert forall|a: int, b: int| 0 <= a < b < before.len() implies before[a].path
                != before[b].path by {
                assert(files[a].path != files[b].path);
            }
        }
        lemma_pattern_distinct(parser, j, before);
        lemma_pattern_roms(parser, j, before);
        let all = pattern_roms(parser, j, files);
        let earlier = pattern_roms(parser, j, before);
        assert forall|a: int, b: int| 0 <= a < b < all.len() implies all[a].path
            != all[b].path by {
            if b < earlier.len() {
                assert(earlier[a].path != earlier[b].path);
            } else {
                assert(found_by(earlier[a], parser, j, before));
                let k = choose|k: int|
                    0 <= k < before.len() && claims(parser.patterns, j, #[trigger] before[k])
                        && earlier[a] == rom_of(parser, parser.patterns[j], before[k]);
                assert(files[k].path != files[files.len() - 1].path);
            }
        }
    }
}

/// Whether `rom` is the entry of one of `files` that one of the first `n`
/// patterns claims.
pub open spec fn found_among(
    rom: RomView,
    parser: ParserView,
    n: int,
    files: Seq<FileEntryView>,
) -> bool {
    exists|j: int| 0 <= j < n && #[trigger] found_by(rom, parser, j, files)
}

/// Every entry of a system is the entry of a file that one of the patterns
/// claims.
pub proof fn lemma_platform_roms(parser: ParserView, n: int, files: Seq<FileEntryView>)
    ensures
        forall|i: int|
            0 <= i < platform_roms(parser, n, files).len() ==> found_among(
                #[trigger] platform_roms(parser, n, files)[i],
                parser,
                n,
                files,
            ),
    decreases n,
{
    if n > 0 {
        lemma_platform_roms(parser, n - 1, files);
        lemma_pattern_roms(parser, n - 1, files);
        let earlier = platform_roms(parser, n - 1, files);
        let last = pattern_roms(parser, n - 1, files);
        let all = platform_roms(parser, n, files);
        assert forall|i: int| 0 <= i < all.len() implies found_among(
            #[trigger] all[i],
            parser,
            n,
            files,
        ) by {
            if i < earlier.len() {
                assert(all[i] == earlier[i]);
                assert(found_among(earlier[i], parser, n - 1, files));
                let j = choose|j: int|
                    0 <= j < n - 1 && #[trigger] found_by(earlier[i], parser, j, files);
                assert(found_by(all[i], parser, j, files));
            } else {
                assert(all[i] == last[i - earlier.len()]);
                assert(found_by(all[i], parser, n - 1, files));
            }
        }
    }
}

/// No path is cataloged twice: among files with distinct paths, the entries
/// of a system have distinct paths.
pub proof fn lemma_platform_distinct(parser: ParserView, n: int, files: Seq<FileEntryView>)
    requires
        distinct_files(files),
    ensures
        distinct_roms(platform_roms(parser, n, files)),
    decreases n,
{
    if n > 0 {
        lemma_platform_distinct(parser, n - 1, files);
        lemma_platform_roms(parser, n - 1, files);
        lemma_pattern_roms(parser, n - 1, files);
        lemma_pattern_distinct(parser, n - 1, files);
        let earlier = platform_roms(parser, n - 1, files);
        let last = pattern_roms(parser, n - 1, files);
        let all = platform_roms(parser, n, files);
        assert forall|a: int, b: int| 0 <= a < b < all.len() implies all[a].path
            != all[b].path by {
            if b < earlier.len() {
                assert(earlier[a].path != earlier[b].path);
            } else if a >= earlier.len() {
                assert(last[a - earlier.len()].path != last[b - earlier.len()].path);
            } else {
                assert(all[a] == earlier[a]);
                assert(all[b] == last[b - earlier.len()]);
                assert(found_among(earlier[a], parser, n - 1, files));
                let j = choose|j: int|
                    0 <= j < n - 1 && #[trigger] found_by(earlier[a], parser, j, files);
                let k1 = choose|k: int|
                    0 <= k < files.len() && claims(parser.patterns, j, #[trigger] files[k])
                        && earlier[a] == rom_of(parser, parser.patterns[j], files[k]);
                assert(found_by(last[b - earlier.len()], parser, n - 1, files));
                let k2 = choose|k: int|
                    0 <= k < files.len() && claims(parser.patterns, n - 1, #[trigger] files[k])
                        && last[b - earlier.len()] == rom_of(
                        parser,
                        parser.patterns[n - 1],
                        files[k],
                    );
                lemma_unclaimed(parser.patterns, n - 1, files[k2].relative);
                assert(!glob_hit(parser.patterns[j].glob, files[k2].relative));
                assert(k1 != k2);
                if k1 < k2 {
                    assert(files[k1].path != files[k2].path);
                } else {
                    assert(files[k2].path != files[k1].path);
                }
            }
        }
    }
}

/// The format of the ROM at `path`.
pub fn rom_format(path: &str) -> (r: String)
    ensures
        r@ == format_of(path@),
{
    match file_name_of(path) {
        Some(name) => match extension_of(name.as_str()) {
            Some(ext) => ext,
            None => String::new(),
        },
        None => String::new(),
    }
}

/// The entry for `file`, given what the regular expression of `pattern`
/// captured from its path.
pub fn build_rom(
    parser: &Parser,
    pattern: &ParserPattern,
    file: &FileEntry,
    capture: Option<String>,
) -> (rom: ROM)
    ensures
        rom@ == rom_with(parser@, pattern@, file@, optional_text(capture)),
{
    ROM {
        title: resolve_title(file.path.as_str(), capture),
        path: file.path.clone(),
        size: file.size,
        add_date: file.add_date.clone(),
        format: rom_format(file.path.as_str()),
        system: parser.abbreviation.clone(),
        system_full_name: parser.name.clone(),
        download_strategy: pattern.download_strategy.clone(),
    }
}

/// The entry for `file`: its title is what the regular expression of
/// `pattern` captures from the file's relative path, or the file's full path
/// where it captures nothing.
pub fn load_rom(parser: &Parser, pattern: &ParserPattern, file: &FileEntry) -> (r: Result<
    ROM,
    PatternError,
>)
    ensures
        match r {
            Ok(rom) => valid_regex(pattern.regex@) && rom@ == rom_of(parser@, pattern@, file@),
            Err(e) => !valid_regex(pattern.regex@) && e == PatternError::InvalidRegex,
        },
{
    match capture_title(pattern.regex.as_str(), file.relative.as_str()) {
        Ok(capture) => Ok(build_rom(parser, pattern, file, capture)),
        Err(e) => Err(e),
    }
}

/// The entries of one system: each of `files` is cataloged by the first
/// pattern of `parser` whose glob matches its relative path; the entries come
/// pattern by pattern. A pattern that does not compile fails the whole system.
pub fn load_platform(parser: &Parser, files: &Vec<FileEntry>) -> (r: Result<
    Vec<ROM>,
    ValidationError,
>)
    ensures
        match r {
            Ok(roms) => pattern_problem(parser@.patterns, 0) is None && rom_views(roms@)
                == system_roms(parser@, file_views(files@)),
            Err(e) => pattern_problem(parser@.patterns, 0) == Some(e),
        },
{
    match check_patterns(&parser.patterns) {
        Err(e) => {
            return Err(e);
        },
        Ok(_) => {},
    }
    let ghost patterns = parser@.patterns;
    let ghost all = file_views(files@);
    proof {
        lemma_no_pattern_problem(patterns, 0);
    }
    let mut taken: Vec<bool> = Vec::new();
    let mut k: usize = 0;
    while k < files.len()
        invariant
            0 <= k <= files.len(),
            taken.len() == k,
            forall|i: int| 0 <= i < k ==> !taken[i],
        decreases files.len() - k,
    {
        taken.push(false);
        k = k + 1;
    }
    let mut roms: Vec<ROM> = Vec::new();
    let mut j: usize = 0;
    assert(rom_views(roms@) =~= Seq::<RomView>::empty());
    while j < parser.patterns.len()
        invariant
            0 <= j <= parser.patterns.len(),
            patterns == parser@.patterns,
            patterns.len() == parser.patterns.len(),
            all == file_views(files@),
            taken.len() == files.len(),
            forall|i: int|
                0 <= i < patterns.len() ==> valid_glob(#[trigger] patterns[i].glob) && valid_regex(
                    patterns[i].regex,
                ),
            forall|i: int|
                0 <= i < files.len() ==> taken[i] == claimed(
                    patterns,
                    j as int,
                    (#[trigger] all[i]).relative,
                ),
            rom_views(roms@) == platform_roms(parser@, j as int, all),
        decreases parser.patterns.len() - j,
    {
        let pattern = &parser.patterns[j];
        let ghost done = rom_views(roms@);
        assert(patterns[j as int] == pattern@);
        assert(valid_glob(patterns[j as int].glob) && valid_regex(patterns[j as int].regex));
        let mut i: usize = 0;
        assert(all.take(0) =~= Seq::<FileEntryView>::empty());
        assert(done + pattern_roms(parser@, j as int, all.take(0)) =~= done);
        while i < files.len()
            invariant
                0 <= i <= files.len(),
                j < parser.patterns.len(),
                patterns == parser@.patterns,
                patterns[j as int] == pattern@,
                all == file_views(files@),
                taken.len() == files.len(),
                valid_glob(pattern.glob@),
                valid_regex(pattern.regex@),
                forall|k: int|
                    0 <= k < i ==> taken[k] == claimed(
                        patterns,
                        j + 1,
                        (#[trigger] all[k]).relative,
                    ),
                forall|k: int|
                    i <= k < files.len() ==> taken[k] == claimed(
                        patterns,
                        j as int,
                        (#[trigger] all[k]).relative,
                    ),
                rom_views(roms@) == done + pattern_roms(parser@, j as int, all.take(i as int)),
            decreases files.len() - i,
        {
            let file = &files[i];
            proof {
                assert(all.take(i + 1).drop_last() =~= all.take(i as int));
                assert(all.take(i + 1).last() == file@);
                assert(all[i as int] == file@);
            }
            let hit = match glob_matches(pattern.glob.as_str(), file.relative.as_str()) {
                Ok(hit) => hit,
                Err(_) => false,
            };
            if hit && !taken[i] {
                match load_rom(parser, pattern, file) {
                    Ok(rom) => {
                        proof {
                            assert(rom_views(roms@.push(rom)) =~= rom_views(roms@).push(rom@));
                            let found = pattern_roms(parser@, j as int, all.take(i as int));
                            assert((done + found).push(rom@) =~= done + found.push(rom@));
                        }
                        roms.push(rom);
                    },
                    Err(_) => {},
                }
            }
            if hit {
                taken.set(i, true);
            }
            i = i + 1;
        }
        proof {
            assert(all.take(files.len() as int) =~= all);
        }
        j = j + 1;
    }
    Ok(roms)
}

/// Where the ROMs of `library` lie: its ROM directory below its root.
pub open spec fn roms_path(library: LibraryView) -> Seq<char> {
    joined(library.library_path, library.rom_dir)
}

/// Whether the entry `entry` of the ROM directory is the folder of a system
/// with a parser.
pub open spec fn is_system_folder(registry: ParserRegistry, entry: DirEntryView) -> bool {
    entry.kind == EntryKind::Directory && registry.folder_owner(entry.name) is Some
}

/// The folders to scan among the entries of the ROM directory: each directory
/// whose name is the folder of a parser, still without its files.
pub open spec fn targets(
    registry: ParserRegistry,
    library: LibraryView,
    entries: Seq<DirEntryView>,
) -> Seq<FolderScanView>
    decreases entries.len(),
{
    if entries.len() == 0 {
        Seq::empty()
    } else {
        let before = targets(registry, library, entries.drop_last());
        if is_system_folder(registry, entries.last()) {
            before.push(
                FolderScanView {
                    folder: entries.last().name,
                    path: joined(roms_path(library), entries.last().name),
                    files: Seq::empty(),
                },
            )
        } else {
            before
        }
    }
}

/// The entries found in one scanned folder: those of the parser that owns the
/// folder; none where no parser owns it or where one of its patterns does not
/// compile.
pub open spec fn folder_roms(registry: ParserRegistry, scan: FolderScanView) -> Seq<RomView> {
    match registry.folder_owner(scan.folder) {
        Some(k) => if pattern_problem(registry@[k].patterns, 0) is None {
            system_roms(registry@[k], scan.files)
        } else {
            Seq::empty()
        },
        None => Seq::empty(),
    }
}

/// The entries of a library: those of each scanned folder, in the order of the
/// folders.
pub open spec fn library_roms(registry: ParserRegistry, scans: Seq<FolderScanView>) -> Seq<RomView>
    decreases scans.len(),
{
    if scans.len() == 0 {
        Seq::empty()
    } else {
        library_roms(registry, scans.drop_last()) + folder_roms(registry, scans.last())
    }
}

/// Whether `rom` has the path of one of the files of `scan`.
pub open spec fn from_scan(rom: RomView, scan: FolderScanView) -> bool {
    exists|k: int| 0 <= k < scan.files.len() && rom.path == (#[trigger] scan.files[k]).path
}

/// Whether `rom` has the path of one of the files of the first `m` scans.
pub open spec fn from_scans(rom: RomView, scans: Seq<FolderScanView>, m: int) -> bool {
    exists|s: int| 0 <= s < m && #[trigger] from_scan(rom, scans[s])
}

/// Whether no path occurs twice among the files of `scans`, within one scan
/// or in two of them.
pub open spec fn distinct_scans(scans: Seq<FolderScanView>) -> bool {
    &&& forall|s: int| 0 <= s < scans.len() ==> distinct_files((#[trigger] scans[s]).files)
    &&& forall|s: int, t: int, a: int, b: int|
        0 <= s < t < scans.len() && 0 <= a < scans[s].files.len() && 0 <= b < scans[t].files.len()
            ==> (#[trigger] scans[s].files[a]).path != (#[trigger] scans[t].files[b]).path
}

/// Every entry of a scanned folder has the path of one of the folder's files.
pub proof fn lemma_folder_roms(registry: ParserRegistry, scan: FolderScanView)
    ensures
        forall|i: int|
            0 <= i < folder_roms(registry, scan).len() ==> from_scan(
                #[trigger] folder_roms(registry, scan)[i],
                scan,
            ),
{
    let roms = folder_roms(registry, scan);
    if roms.len() > 0 {
        let k = registry.folder_owner(scan.folder)->0;
        let parser = registry@[k];
        lemma_platform_roms(parser, parser.patterns.len() as int, scan.files);
        assert forall|i: int| 0 <= i < roms.len() implies from_scan(#[trigger] roms[i], scan) by {
            assert(found_among(roms[i], parser, parser.patterns.len() as int, scan.files));
            let j = choose|j: int|
                0 <= j < parser.patterns.len() && #[trigger] found_by(
                    roms[i],
                    parser,
                    j,
                    scan.files,
                );
            let f = choose|f: int|
                0 <= f < scan.files.len() && claims(parser.patterns, j, #[trigger] scan.files[f])
                    && roms[i] == rom_of(parser, parser.patterns[j], scan.files[f]);
            assert(roms[i].path == scan.files[f].path);
        }
    }
}

/// Every entry of a library has the path of one of the scanned files.
pub proof fn lemma_library_roms(registry: ParserRegistry, scans: Seq<FolderScanView>)
    ensures
        forall|i: int|
            0 <= i < library_roms(registry, scans).len() ==> from_scans(
                #[trigger] library_roms(registry, scans)[i],
                scans,
                scans.len() as int,
            ),
    decreases scans.len(),
{
    if scans.len() > 0 {
        let before = scans.drop_last();
        lemma_library_roms(registry, before);
        lemma_folder_roms(registry, scans.last());
        let earlier = library_roms(registry, before);
        let last = folder_roms(registry, scans.last());
        let all = library_roms(registry, scans);
        assert forall|i: int| 0 <= i < all.len() implies from_scans(
            #[trigger] all[i],
            scans,
            scans.len() as int,
        ) by {
            if i < earlier.len() {
                assert(all[i] == earlier[i]);
                assert(from_scans(earlier[i], before, before.len() as int));
                let t = choose|t: int|
                    0 <= t < before.len() && #[trigger] from_scan(earlier[i], before[t]);
                assert(before[t] == scans[t]);
                assert(from_scan(all[i], scans[t]));
            } else {
                assert(all[i] == last[i - earlier.len()]);
                assert(from_scan(all[i], scans[scans.len() - 1]));
            }
        }
    }
}

/// The path is the key of the catalog: where no path occurs twice among the
/// scanned files, no two entries of the library have the same path.
pub proof fn lemma_library_distinct(registry: ParserRegistry, scans: Seq<FolderScanView>)
    requires
        distinct_scans(scans),
    ensures
        distinct_roms(library_roms(registry, scans)),
    decreases scans.len(),
{
    if scans.len() > 0 {
        let before = scans.drop_last();
        let n = scans.len() - 1;
        assert(distinct_scans(before)) by {
            assert forall|s: int| 0 <= s < before.len() implies distinct_files(
                (#[trigger] before[s]).files,
            ) by {
                assert(before[s] == scans[s]);
            }
            assert forall|s: int, t: int, a: int, b: int|
                0 <= s < t < before.len() && 0 <= a < before[s].files.len() && 0 <= b
                    < before[t].files.len() implies (#[trigger] before[s].files[a]).path != (
                #[trigger] before[t].files[b]).path by {
                assert(before[s] == scans[s]);
                assert(before[t] == scans[t]);
                assert(scans[s].files[a].path != scans[t].files[b].path);
            }
        }
        lemma_library_distinct(registry, before);
        lemma_library_roms(registry, before);
        lemma_folder_roms(registry, scans.last());
        let earlier = library_roms(registry, before);
        let last = folder_roms(registry, scans.last());
        let all = library_roms(registry, scans);
        assert(distinct_roms(last)) by {
            if last.len() > 0 {
                let k = registry.folder_owner(scans.last().folder)->0;
                let parser = registry@[k];
                assert(distinct_files(scans[n].files));
                lemma_platform_distinct(parser, parser.patterns.len() as int, scans.last().files);
            }
        }
        assert forall|a: int, b: int| 0 <= a < b < all.len() implies all[a].path
            != all[b].path by {
            if b < earlier.len() {
                assert(earlier[a].path != earlier[b].path);
            } else if a >= earlier.len() {
                assert(last[a - earlier.len()].path != last[b - earlier.len()].path);
            } else {
                assert(all[a] == earlier[a]);
                assert(all[b] == last[b - earlier.len()]);
                assert(from_scans(earlier[a], before, before.len() as int));
                let t = choose|t: int|
                    0 <= t < before.len() && #[trigger] from_scan(earlier[a], before[t]);
                assert(before[t] == scans[t]);
                let x = choose|x: int|
                    0 <= x < before[t].files.len() && earlier[a].path == (
                    #[trigger] before[t].files[x]).path;
                assert(from_scan(last[b - earlier.len()], scans[n]));
                let y = choose|y: int|
                    0 <= y < scans[n].files.len() && last[b - earlier.len()].path == (
                    #[trigger] scans[n].files[y]).path;
                assert(scans[t].files[x].path != scans[n].files[y].path);
            }
        }
    }
}

/// The requests that a scan puts to the watcher: one for each scanned folder
/// that a parser owns.
pub open spec fn watch_requests(
    registry: ParserRegistry,
    library_path: Seq<char>,
    scans: Seq<FolderScanView>,
) -> Seq<WatcherEventView>
    decreases scans.len(),
{
    if scans.len() == 0 {
        Seq::empty()
    } else {
        let before = watch_requests(registry, library_path, scans.drop_last());
        if registry.folder_owner(scans.last().folder) is Some {
            before.push(WatcherEventView::Add(scans.last().path, library_path))
        } else {
            before
        }
    }
}

/// Picks the folders to scan from the entries of the ROM directory.
pub fn scan_targets(
    registry: &ParserRegistry,
    library: &Library,
    entries: &Vec<DirEntry>,
) -> (r: Vec<FolderScan>)
    ensures
        scan_views(r@) == targets(*registry, library@, entry_views(entries@)),
{
    let roms = join_paths(library.library_path.as_str(), library.rom_dir.as_str());
    let mut r: Vec<FolderScan> = Vec::new();
    let mut i: usize = 0;
    let ghost all = entry_views(entries@);
    assert(all.take(0) =~= Seq::<DirEntryView>::empty());
    assert(scan_views(r@) =~= Seq::<FolderScanView>::empty());
    while i < entries.len()
        invariant
            0 <= i <= entries.len(),
            all == entry_views(entries@),
            roms@ == roms_path(library@),
            scan_views(r@) == targets(*registry, library@, all.take(i as int)),
        decreases entries.len() - i,
    {
        let entry = &entries[i];
        proof {
            assert(all.take(i + 1).drop_last() =~= all.take(i as int));
            assert(all.take(i + 1).last() == entry@);
        }
        let is_directory = match entry.kind {
            EntryKind::Directory => true,
            _ => false,
        };
        if is_directory && registry.find_by_folder(entry.name.as_str()).is_some() {
            let scan = FolderScan {
                folder: entry.name.clone(),
                path: join_paths(roms.as_str(), entry.name.as_str()),
                files: Vec::new(),
            };
            proof {
                assert(file_views(scan.files@) =~= Seq::<FileEntryView>::empty());
                assert(scan_views(r@.push(scan)) =~= scan_views(r@).push(scan@));
            }
            r.push(scan);
        }
        i = i + 1;
    }
    assert(all.take(entries.len() as int) =~= all);
    r
}

/// The entries of a library: each scanned folder is read with the parser that
/// owns it, and asked to be watched. A folder whose parser has a pattern that
/// does not compile gives no entries; the other folders are still read.
pub fn load_roms(
    library: &Library,
    watcher: &mut Watcher,
    registry: &ParserRegistry,
    scans: &Vec<FolderScan>,
) -> (roms: Vec<ROM>)
    ensures
        rom_views(roms@) == library_roms(*registry, scan_views(scans@)),
        final(watcher)@ == old(watcher)@ + watch_requests(
            *registry,
            library.library_path@,
            scan_views(scans@),
        ),
{
    let mut roms: Vec<ROM> = Vec::new();
    let mut i: usize = 0;
    let ghost all = scan_views(scans@);
    let ghost asked = watcher@;
    assert(all.take(0) =~= Seq::<FolderScanView>::empty());
    assert(rom_views(roms@) =~= Seq::<RomView>::empty());
    assert(asked + watch_requests(*registry, library.library_path@, all.take(0)) =~= asked);
    while i < scans.len()
        invariant
            0 <= i <= scans.len(),
            all == scan_views(scans@),
            rom_views(roms@) == library_roms(*registry, all.take(i as int)),
            watcher@ == asked + watch_requests(
                *registry,
                library.library_path@,
                all.take(i as int),
            ),
        decreases scans.len() - i,
    {
        let scan = &scans[i];
        proof {
            assert(all.take(i + 1).drop_last() =~= all.take(i as int));
            assert(all.take(i + 1).last() == scan@);
        }
        match registry.find_by_folder(scan.folder.as_str()) {
            Some(parser) => {
                match load_platform(parser, &scan.files) {
                    Ok(found) => {
                        let ghost before = rom_views(roms@);
                        let mut found = found;
                        let ghost more = rom_views(found@);
                        roms.append(&mut found);
                        assert(rom_views(roms@) =~= before + more);
                    },
                    Err(_) => {
                        assert(rom_views(roms@) + Seq::<RomView>::empty() =~= rom_views(roms@));
                    },
                }
                watcher.watch_path(scan.path.as_str(), library.library_path.as_str());
                proof {
                    let earlier = watch_requests(
                        *registry,
                        library.library_path@,
                        all.take(i as int),
                    );
                    assert(watcher@ =~= asked + earlier.push(
                        WatcherEventView::Add(scan.path@, library.library_path@),
                    ));
                }
            },
            None => {
                assert(rom_views(roms@) + Seq::<RomView>::empty() =~= rom_views(roms@));
            },
        }
        i = i + 1;
    }
    assert(all.take(scans.len() as int) =~= all);
    roms
}

/// The index after the files among `entries` were recorded for `rom_id`.
pub open spec fn with_entries(
    m: Map<Seq<char>, Seq<Seq<char>>>,
    rom_id: Seq<char>,
    entries: Seq<DirEntryView>,
) -> Map<Seq<char>, Seq<Seq<char>>>
    decreases entries.len(),
{
    if entries.len() == 0 {
        m
    } else {
        let before = with_entries(m, rom_id, entries.drop_last());
        if entries.last().kind == EntryKind::File {
            with_file(before, rom_id, entries.last().name)
        } else {
            before
        }
    }
}

/// The index after the files of each ROM's folder among `titles` were
/// recorded. What is no directory is passed over.
pub open spec fn with_titles(
    m: Map<Seq<char>, Seq<Seq<char>>>,
    titles: Seq<TitleFolderView>,
) -> Map<Seq<char>, Seq<Seq<char>>>
    decreases titles.len(),
{
    if titles.len() == 0 {
        m
    } else {
        let before = with_titles(m, titles.drop_last());
        if titles.last().kind == EntryKind::Directory {
            with_entries(before, titles.last().rom_id, titles.last().entries)
        } else {
            before
        }
    }
}

/// The names of the regular files among `entries`, in their order.
pub open spec fn regular_files(entries: Seq<DirEntryView>) -> Seq<Seq<char>>
    decreases entries.len(),
{
    if entries.len() == 0 {
        Seq::empty()
    } else {
        let before = regular_files(entries.drop_last());
        if entries.last().kind == EntryKind::File {
            before.push(entries.last().name)
        } else {
            before
        }
    }
}

/// The extra files of the ROM `rom_id` in an extras directory whose entries
/// are `titles`: the regular files that lie directly in the folder named
/// `rom_id`.
pub open spec fn extras_of(titles: Seq<TitleFolderView>, rom_id: Seq<char>) -> Seq<Seq<char>>
    decreases titles.len(),
{
    if titles.len() == 0 {
        Seq::empty()
    } else {
        let before = extras_of(titles.drop_last(), rom_id);
        if titles.last().kind == EntryKind::Directory && titles.last().rom_id == rom_id {
            before + regular_files(titles.last().entries)
        } else {
            before
        }
    }
}

/// The list that an index holds for `rom_id`: empty for a ROM it does not
/// know.
pub open spec fn listed(m: Map<Seq<char>, Seq<Seq<char>>>, rom_id: Seq<char>) -> Seq<Seq<char>> {
    if m.dom().contains(rom_id) {
        m[rom_id]
    } else {
        Seq::empty()
    }
}

/// Whether an index holds no ROM with an empty list.
pub open spec fn filled(m: Map<Seq<char>, Seq<Seq<char>>>) -> bool {
    forall|rom_id: Seq<char>| m.dom().contains(rom_id) ==> (#[trigger] m[rom_id]).len() > 0
}

/// Recording the entries of one ROM's folder appends its regular files to
/// that ROM's list, leaves every other list as it was, and gives no ROM an
/// empty list.
pub proof fn lemma_with_entries(
    m: Map<Seq<char>, Seq<Seq<char>>>,
    rom_id: Seq<char>,
    entries: Seq<DirEntryView>,
    other: Seq<char>,
)
    requires
        filled(m),
    ensures
        filled(with_entries(m, rom_id, entries)),
        listed(with_entries(m, rom_id, entries), rom_id) == listed(m, rom_id) + regular_files(
            entries,
        ),
        other != rom_id ==> listed(with_entries(m, rom_id, entries), other) == listed(m, other),
    decreases entries.len(),
{
    if entries.len() == 0 {
        assert(listed(m, rom_id) + regular_files(entries) =~= listed(m, rom_id));
    } else {
        let front = entries.drop_last();
        lemma_with_entries(m, rom_id, front, other);
        let before = with_entries(m, rom_id, front);
        if entries.last().kind == EntryKind::File {
            let after = with_file(before, rom_id, entries.last().name);
            assert(listed(after, rom_id) =~= listed(before, rom_id).push(entries.last().name));
            assert(listed(after, rom_id) =~= listed(m, rom_id) + regular_files(entries));
            assert forall|k: Seq<char>| after.dom().contains(k) implies (#[trigger] after[k]).len()
                > 0 by {
                if k != rom_id {
                    assert(before.dom().contains(k));
                    assert(after[k] == before[k]);
                }
            }
        }
    }
}

/// Recording the folders of an extras directory appends to each ROM's list
/// the regular files of the folder named by it, and gives no ROM an empty
/// list.
pub proof fn lemma_with_titles(
    m: Map<Seq<char>, Seq<Seq<char>>>,
    titles: Seq<TitleFolderView>,
    rom_id: Seq<char>,
)
    requires
        filled(m),
    ensures
        filled(with_titles(m, titles)),
        listed(with_titles(m, titles), rom_id) == listed(m, rom_id) + extras_of(titles, rom_id),
    decreases titles.len(),
{
    if titles.len() == 0 {
        assert(listed(m, rom_id) + extras_of(titles, rom_id) =~= listed(m, rom_id));
    } else {
        let front = titles.drop_last();
        lemma_with_titles(m, front, rom_id);
        let before = with_titles(m, front);
        let last = titles.last();
        if last.kind == EntryKind::Directory {
            lemma_with_entries(before, last.rom_id, last.entries, rom_id);
            if last.rom_id == rom_id {
                assert(listed(m, rom_id) + extras_of(front, rom_id) + regular_files(last.entries)
                    =~= listed(m, rom_id) + (extras_of(front, rom_id) + regular_files(
                    last.entries,
                )));
            }
        }
    }
}

/// The index of an extras directory knows exactly the ROMs whose folder holds
/// a regular file, and lists for each of them the regular files of its
/// folder, in the order of the listing.
pub proof fn lemma_extras(titles: Seq<TitleFolderView>, rom_id: Seq<char>)
    ensures
        with_titles(Map::empty(), titles).dom().contains(rom_id) <==> extras_of(
            titles,
            rom_id,
        ).len() > 0,
        with_titles(Map::empty(), titles).dom().contains(rom_id) ==> with_titles(
            Map::empty(),
            titles,
        )[rom_id] == extras_of(titles, rom_id),
{
    let empty = Map::<Seq<char>, Seq<Seq<char>>>::empty();
    lemma_with_titles(empty, titles, rom_id);
    assert(listed(empty, rom_id) + extras_of(titles, rom_id) =~= extras_of(titles, rom_id));
}

/// Records the files of one ROM's folder.
fn load_title_extras(dict: &mut ExtrasIndex, rom_id: &str, entries: &Vec<DirEntry>)
    ensures
        final(dict)@ == with_entries(old(dict)@, rom_id@, entry_views(entries@)),
{
    let mut i: usize = 0;
    let ghost all = entry_views(entries@);
    assert(all.take(0) =~= Seq::<DirEntryView>::empty());
    while i < entries.len()
        invariant
            0 <= i <= entries.len(),
            all == entry_views(entries@),
            dict@ == with_entries(old(dict)@, rom_id@, all.take(i as int)),
        decreases entries.len() - i,
    {
        let entry = &entries[i];
        proof {
            assert(all.take(i + 1).drop_last() =~= all.take(i as int));
            assert(all.take(i + 1).last() == entry@);
        }
        match entry.kind {
            EntryKind::File => {
                dict.add(rom_id, entry.name.as_str());
            },
            _ => {},
        }
        i = i + 1;
    }
    assert(all.take(entries.len() as int) =~= all);
}

/// Records, for each ROM's folder in an extras directory, the files that lie
/// directly in it.
pub fn load_platform_extras(dict: &mut ExtrasIndex, titles: &Vec<TitleFolder>)
    ensures
        final(dict)@ == with_titles(old(dict)@, title_views(titles@)),
{
    let mut i: usize = 0;
    let ghost all = title_views(titles@);
    assert(all.take(0) =~= Seq::<TitleFolderView>::empty());
    while i < titles.len()
        invariant
            0 <= i <= titles.len(),
            all == title_views(titles@),
            dict@ == with_titles(old(dict)@, all.take(i as int)),
        decreases titles.len() - i,
    {
        let title = &titles[i];
        proof {
            assert(all.take(i + 1).drop_last() =~= all.take(i as int));
            assert(all.take(i + 1).last() == title@);
        }
        match title.kind {
            EntryKind::Directory => {
                load_title_extras(dict, title.rom_id.as_str(), &title.entries);
            },
            _ => {},
        }
        i = i + 1;
    }
    assert(all.take(titles.len() as int) =~= all);
}

/// The extra files of one extras directory, by ROM identifier. The directory
/// holds one folder for each ROM, named by the ROM's identifier, and `titles`
/// lists those folders. A directory that does not exist is listed as empty and
/// gives an empty index.
pub fn load_extra(titles: &Vec<TitleFolder>) -> (dict: ExtrasIndex)
    ensures
        dict@ == with_titles(Map::empty(), title_views(titles@)),
        forall|rom_id: Seq<char>| #[trigger]
            dict@.dom().contains(rom_id) <==> extras_of(title_views(titles@), rom_id).len() > 0,
        forall|rom_id: Seq<char>| #[trigger]
            dict@.dom().contains(rom_id) ==> dict@[rom_id] == extras_of(
                title_views(titles@),
                rom_id,
            ),
{
    let mut dict = ExtrasIndex::new();
    load_platform_extras(&mut dict, titles);
    proof {
        assert forall|rom_id: Seq<char>| #[trigger]
            dict@.dom().contains(rom_id) <==> extras_of(title_views(titles@), rom_id).len()
                > 0 by {
            lemma_extras(title_views(titles@), rom_id);
        }
        assert forall|rom_id: Seq<char>| #[trigger]
            dict@.dom().contains(rom_id) implies dict@[rom_id] == extras_of(
            title_views(titles@),
            rom_id,
        ) by {
            lemma_extras(title_views(titles@), rom_id);
        }
    }
    dict
}

/// Where the downloadable content and the updates of `library` lie.
pub fn extras_paths(library: &Library) -> (r: (String, String))
    ensures
        r.0@ == joined(library.library_path@, library.dlc_dir@),
        r.1@ == joined(library.library_path@, library.update_dir@),
{
    (
        join_paths(library.library_path.as_str(), library.dlc_dir.as_str()),
        join_paths(library.library_path.as_str(), library.update_dir.as_str()),
    )
}

/// The extra files of a library: downloadable content first, updates second.
/// Each index knows the ROMs whose folder in the extras directory holds a
/// regular file, and lists those files for each.
pub fn load_extras(dlcs: &Vec<TitleFolder>, updates: &Vec<TitleFolder>) -> (r: (
    ExtrasIndex,
    ExtrasIndex,
))
    ensures
        r.0@ == with_titles(Map::empty(), title_views(dlcs@)),
        r.1@ == with_titles(Map::empty(), title_views(updates@)),
        forall|rom_id: Seq<char>| #[trigger]
            r.0@.dom().contains(rom_id) <==> extras_of(title_views(dlcs@), rom_id).len() > 0,
        forall|rom_id: Seq<char>| #[trigger]
            r.0@.dom().contains(rom_id) ==> r.0@[rom_id] == extras_of(title_views(dlcs@), rom_id),
        forall|rom_id: Seq<char>| #[trigger]
            r.1@.dom().contains(rom_id) <==> extras_of(title_views(updates@), rom_id).len() > 0,
        forall|rom_id: Seq<char>| #[trigger]
            r.1@.dom().contains(rom_id) ==> r.1@[rom_id] == extras_of(
                title_views(updates@),
                rom_id,
            ),
{
    (load_extra(dlcs), load_extra(updates))
}

/// A ROM that was added to the library and is to be cataloged by itself.
#[derive(Debug, PartialEq, Eq)]
pub struct AddedRom {
    /// The ROM itself: its path, size and date.
    pub file: FileEntry,
    /// Whether it is a file or a folder.
    pub kind: EntryKind,
    /// For a folder: everything found below it.
    pub contents: Vec<FileEntry>,
}

/// What an [`AddedRom`] holds, as mathematical values.
pub struct AddedRomView {
    pub file: FileEntryView,
    pub kind: EntryKind,
    pub contents: Seq<FileEntryView>,
}

impl View for AddedRom {
    type V = AddedRomView;

    open spec fn view(&self) -> AddedRomView {
        AddedRomView { file: self.file@, kind: self.kind, contents: file_views(self.contents@) }
    }
}

/// Why an added ROM could not be cataloged.
#[derive(Debug, PartialEq, Eq, Structural, Clone, Copy)]
pub enum ParseRomError {
    /// No parser has the given abbreviation.
    UnknownParser,
    /// A pattern of the parser does not compile.
    InvalidPattern(ValidationError),
    /// No pattern of the parser matches the ROM.
    NoMatch,
}

/// Position of the first file in `files` whose relative path `glob` matches,
/// or `files.len()` when it matches none.
pub open spec fn first_hit(glob: Seq<char>, files: Seq<FileEntryView>) -> int
    decreases files.len(),
{
    if files.len() == 0 {
        0
    } else if glob_hit(glob, files[0].relative) {
        0
    } else {
        1 + first_hit(glob, files.drop_first())
    }
}

/// The entry for a folder-shaped ROM: patterns are tried in order from
/// position `from`, and the first one that matches anything below the folder
/// gives the entry, for the first thing it matches.
pub open spec fn folder_rom(
    parser: ParserView,
    from: int,
    contents: Seq<FileEntryView>,
) -> Option<RomView>
    decreases parser.patterns.len() - from,
{
    if from < 0 || from >= parser.patterns.len() {
        None
    } else {
        let i = first_hit(parser.patterns[from].glob, contents);
        if i < contents.len() {
            Some(rom_of(parser, parser.patterns[from], contents[i]))
        } else {
            folder_rom(parser, from + 1, contents)
        }
    }
}

/// A file-shaped ROM as a candidate: its relative path is its file name.
pub open spec fn by_name(file: FileEntryView) -> FileEntryView {
    FileEntryView { relative: file_name(file.path)->0, ..file }
}

/// The entry for a file-shaped ROM: patterns are tried in order from position
/// `from`, and the first one whose glob matches the file's name gives the
/// entry, with the title read from the name.
pub open spec fn file_rom(parser: ParserView, from: int, file: FileEntryView) -> Option<RomView>
    decreases parser.patterns.len() - from,
{
    if from < 0 || from >= parser.patterns.len() || file_name(file.path) is None {
        None
    } else if glob_hit(parser.patterns[from].glob, file_name(file.path)->0) {
        Some(rom_of(parser, parser.patterns[from], by_name(file)))
    } else {
        file_rom(parser, from + 1, file)
    }
}

/// The entry for an added ROM, or the reason why there is none.
pub open spec fn added_rom(parser: Option<ParserView>, rom: AddedRomView) -> Result<
    RomView,
    ParseRomError,
> {
    match parser {
        None => Err(ParseRomError::UnknownParser),
        Some(p) => match pattern_problem(p.patterns, 0) {
            Some(e) => Err(ParseRomError::InvalidPattern(e)),
            None => {
                let found = if rom.kind == EntryKind::Directory {
                    folder_rom(p, 0, rom.contents)
                } else {
                    file_rom(p, 0, rom.file)
                };
                match found {
                    Some(r) => Ok(r),
                    None => Err(ParseRomError::NoMatch),
                }
            },
        },
    }
}

/// The first file among `files` whose relative path the glob of `pattern`
/// matches.
fn find_first_hit<'a>(pattern: &ParserPattern, files: &'a Vec<FileEntry>) -> (r: Option<
    &'a FileEntry,
>)
    requires
        valid_glob(pattern.glob@),
    ensures
        match r {
            Some(f) => first_hit(pattern.glob@, file_views(files@)) < files.len() && f@
                == file_views(files@)[first_hit(pattern.glob@, file_views(files@))],
            None => first_hit(pattern.glob@, file_views(files@)) == files.len(),
        },
{
    let ghost all = file_views(files@);
    let mut i: usize = 0;
    assert(all.skip(0) =~= all);
    while i < files.len()
        invariant
            0 <= i <= files.len(),
            all == file_views(files@),
            valid_glob(pattern.glob@),
            first_hit(pattern.glob@, all) == i + first_hit(pattern.glob@, all.skip(i as int)),
        decreases files.len() - i,
    {
        proof {
            assert(all.skip(i as int)[0] == files[i as int]@);
            assert(all.skip(i as int).drop_first() =~= all.skip(i + 1));
        }
        let hit = match glob_matches(pattern.glob.as_str(), files[i].relative.as_str()) {
            Ok(hit) => hit,
            Err(_) => false,
        };
        if hit {
            return Some(&files[i]);
        }
        i = i + 1;
    }
    None
}

/// Catalogs one ROM that is not in the catalog yet, with the parser whose
/// abbreviation is `parser_name`. A file is matched by its name; of a folder,
/// what lies below it is matched.
pub fn parse_added_rom(parser_name: &str, rom: &AddedRom, registry: &ParserRegistry) -> (r: Result<
    ROM,
    ParseRomError,
>)
    ensures
        match (
            r,
            added_rom(
                if registry@.dom().contains(parser_name@) {
                    Some(registry@[parser_name@])
                } else {
                    None
                },
                rom@,
            ),
        ) {
            (Ok(found), Ok(expected)) => found@ == expected,
            (Err(e), Err(f)) => e == f,
            _ => false,
        },
{
    let parser = match registry.get(parser_name) {
        Some(parser) => parser,
        None => {
            return Err(ParseRomError::UnknownParser);
        },
    };
    match check_patterns(&parser.patterns) {
        Err(e) => {
            return Err(ParseRomError::InvalidPattern(e));
        },
        Ok(_) => {},
    }
    let ghost patterns = parser@.patterns;
    proof {
        lemma_no_pattern_problem(patterns, 0);
    }
    let is_directory = match rom.kind {
        EntryKind::Directory => true,
        _ => false,
    };
    let named = match file_name_of(rom.file.path.as_str()) {
        Some(name) => Some(
            FileEntry {
                relative: name,
                path: rom.file.path.clone(),
                size: rom.file.size,
                add_date: rom.file.add_date.clone(),
            },
        ),
        None => None,
    };
    let mut j: usize = 0;
    while j < parser.patterns.len()
        invariant
            0 <= j <= parser.patterns.len(),
            patterns == parser@.patterns,
            patterns.len() == parser.patterns.len(),
            is_directory == (rom.kind == EntryKind::Directory),
            named is Some <==> file_name(rom.file.path@) is Some,
            named is Some ==> named->0@ == by_name(rom.file@),
            forall|i: int|
                0 <= i < patterns.len() ==> valid_glob(#[trigger] patterns[i].glob) && valid_regex(
                    patterns[i].regex,
                ),
            registry@.dom().contains(parser_name@),
            parser@ == registry@[parser_name@],
            pattern_problem(patterns, 0) is None,
            is_directory ==> folder_rom(parser@, 0, file_views(rom.contents@)) == folder_rom(
                parser@,
                j as int,
                file_views(rom.contents@),
            ),
            !is_directory ==> file_rom(parser@, 0, rom.file@) == file_rom(
                parser@,
                j as int,
                rom.file@,
            ),
        decreases parser.patterns.len() - j,
    {
        let pattern = &parser.patterns[j];
        assert(patterns[j as int] == pattern@);
        assert(valid_glob(patterns[j as int].glob) && valid_regex(patterns[j as int].regex));
        if is_directory {
            match find_first_hit(pattern, &rom.contents) {
                Some(file) => {
                    match load_rom(parser, pattern, file) {
                        Ok(found) => {
                            return Ok(found);
                        },
                        Err(_) => {},
                    }
                },
                None => {},
            }
        } else {
            match &named {
                Some(file) => {
                    let hit = match glob_matches(pattern.glob.as_str(), file.relative.as_str()) {
                        Ok(hit) => hit,
                        Err(_) => false,
                    };
                    if hit {
                        match load_rom(parser, pattern, file) {
                            Ok(found) => {
                                return Ok(found);
                            },
                            Err(_) => {},
                        }
                    }
                },
                None => {},
            }
        }
        j = j + 1;
    }
    Err(ParseRomError::NoMatch)
}

} // verus!
