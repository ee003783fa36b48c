//! Archives of ROM folders: the names under which a folder's files are packed,
//! and the paths to which the entries of an archive are unpacked.
//!
//! Entry names come from outside and are not trusted: every segment of a name
//! goes through `sanitize_filename` before it becomes part of a path.

use vstd::prelude::*;
use crate::paths::{
    assemble, assemble_path, is_absolute, join_paths, join_strings, joined, lemma_non_empty_keeps,
    lemma_segments_plain, non_empty, segments, segments_of, starts_at_root, SEPARATOR,
};
use crate::pattern::normalized;
use crate::text::{
    chars_of, has_prefix, join, lemma_join_lacks, lemma_replace_absent, lemma_split_join,
    optional_text, replace_char, same_text, split, split_chars, string_of, string_views, views,
};

verus! {

/// Whether names are also held to the rules of Windows when they are
/// sanitized.
pub const WINDOWS_RULES: bool = false;

/// What `sanitize_filename` makes of `name`, with the rules of Windows applied
/// too if `windows` is set.
pub uninterp spec fn sanitized(name: Seq<char>, windows: bool) -> Seq<char>;

/// Calls `sanitize_filename::sanitize_with_options` with an empty replacement
/// and truncation, as `sanitize_filename::sanitize` does, but with the rules
/// of Windows switched by `windows` and not by the platform.
///
/// The crate removes every slash and backslash, and empties a name made of
/// dots only; so the result holds neither separator and is neither `.` nor
/// `..`.
#[verifier::external_body]
fn sanitize_name(name: &str, windows: bool) -> (r: String)
    ensures
        r@ == sanitized(name@, windows),
        !r@.contains('/'),
        !r@.contains('\\'),
        r@ != seq!['.'],
        r@ != seq!['.', '.'],
{
    sanitize_filename::sanitize_with_options(
        name,
        sanitize_filename::Options { windows, truncate: true, replacement: "" },
    )
}

/// Each of `parts` sanitized.
pub open spec fn sanitized_parts(parts: Seq<Seq<char>>) -> Seq<Seq<char>> {
    Seq::new(parts.len(), |i: int| sanitized(parts[i], WINDOWS_RULES))
}

/// The segments of the path that the entry named `name` is unpacked to:
/// backslashes count as slashes, every piece between slashes is sanitized, and
/// pieces that are empty after that are left out.
pub open spec fn entry_segments(name: Seq<char>) -> Seq<Seq<char>> {
    non_empty(sanitized_parts(split(normalized(name), SEPARATOR)))
}

/// Whether a segment can be part of a path without leaving the directory the
/// path starts in.
pub open spec fn safe_segment(s: Seq<char>) -> bool {
    s.len() > 0 && !s.contains('/') && !s.contains('\\') && s != seq!['.'] && s != seq!['.', '.']
}

/// The segments of the path that the entry named `path` is unpacked to. None
/// of them is empty, holds a separator, or is `.` or `..`.
pub fn sanitize_file_path(path: &str) -> (r: Vec<String>)
    ensures
        string_views(r@) == entry_segments(path@),
        forall|i: int| 0 <= i < r.len() ==> safe_segment(#[trigger] r[i]@),
{
    let chars = chars_of(path);
    let plain = replace_char(&chars, '\\', '/');
    let pieces = split_chars(&plain, SEPARATOR);
    let mut r: Vec<String> = Vec::new();
    let mut i: usize = 0;
    let ghost all = sanitized_parts(views(pieces@));
    assert(all.take(0) =~= Seq::<Seq<char>>::empty());
    while i < pieces.len()
        invariant
            0 <= i <= pieces.len(),
            all == sanitized_parts(views(pieces@)),
            string_views(r@) == non_empty(all.take(i as int)),
            forall|k: int| 0 <= k < r.len() ==> safe_segment(#[trigger] r[k]@),
        decreases pieces.len() - i,
    {
        let piece = string_of(&pieces[i]);
        let clean = sanitize_name(piece.as_str(), WINDOWS_RULES);
        proof {
            assert(all.take(i + 1).drop_last() =~= all.take(i as int));
            assert(all.take(i + 1).last() == clean@);
        }
        if !clean.as_str().is_empty() {
            proof {
                assert(string_views(r@.push(clean)) =~= string_views(r@).push(clean@));
            }
            r.push(clean);
        }
        i = i + 1;
    }
    assert(all.take(pieces.len() as int) =~= all);
    r
}

/// The top folder of an archive, read from the name of its first entry: the
/// first segment of the path that the entry is unpacked to.
pub open spec fn root_of(first_entry: Seq<char>) -> Option<Seq<char>> {
    if entry_segments(first_entry).len() == 0 {
        None
    } else {
        Some(entry_segments(first_entry)[0])
    }
}

/// The top folder of an archive whose first entry is named `first_entry`.
pub fn get_root_of_zip(first_entry: &str) -> (r: Option<String>)
    ensures
        optional_text(r) == root_of(first_entry@),
        r is Some ==> safe_segment(r->0@),
{
    let mut parts = sanitize_file_path(first_entry);
    if parts.len() == 0 {
        return None;
    }
    let ghost all = string_views(parts@);
    let root = parts.swap_remove(0);
    assert(root@ == all[0]);
    Some(root)
}

/// One entry of an archive.
#[derive(Debug, PartialEq, Eq)]
pub struct ArchiveEntry {
    /// The name that the archive gives the entry.
    pub name: String,
    /// Whether the entry stands for a directory.
    pub is_dir: bool,
}

/// What an [`ArchiveEntry`] holds, as mathematical values.
pub struct ArchiveEntryView {
    pub name: Seq<char>,
    pub is_dir: bool,
}

impl View for ArchiveEntry {
    type V = ArchiveEntryView;

    open spec fn view(&self) -> ArchiveEntryView {
        ArchiveEntryView { name: self.name@, is_dir: self.is_dir }
    }
}

/// What unpacking one entry does on disk.
#[derive(Debug, PartialEq, Eq)]
pub enum UnpackStep {
    /// Nothing: no part of the entry's name survived sanitizing.
    Skip,
    /// The directory is created, with the directories above it.
    CreateDir(String),
    /// The directory `parent` is created, with the directories above it, and
    /// the entry's bytes are written to the new file `path`.
    WriteFile { parent: String, path: String },
}

/// What an [`UnpackStep`] holds, as mathematical values.
pub enum UnpackStepView {
    Skip,
    CreateDir(Seq<char>),
    WriteFile { parent: Seq<char>, path: Seq<char> },
}

impl View for UnpackStep {
    type V = UnpackStepView;

    open spec fn view(&self) -> UnpackStepView {
        match self {
            UnpackStep::Skip => UnpackStepView::Skip,
            UnpackStep::CreateDir(path) => UnpackStepView::CreateDir(path@),
            UnpackStep::WriteFile { parent, path } => UnpackStepView::WriteFile {
                parent: parent@,
                path: path@,
            },
        }
    }
}

/// The views of a sequence of steps.
pub open spec fn step_views(v: Seq<UnpackStep>) -> Seq<UnpackStepView> {
    Seq::new(v.len(), |i: int| v[i]@)
}

/// The views of a sequence of entries.
pub open spec fn archive_views(v: Seq<ArchiveEntry>) -> Seq<ArchiveEntryView> {
    Seq::new(v.len(), |i: int| v[i]@)
}

/// The path below `out_dir` that is made of `parts`; `out_dir` itself for no
/// parts.
pub open spec fn below(out_dir: Seq<char>, parts: Seq<Seq<char>>) -> Seq<char> {
    if parts.len() == 0 {
        out_dir
    } else {
        joined(out_dir, join(parts, SEPARATOR))
    }
}

/// Whether `path` lies below `out_dir`: it is `out_dir` followed by segments
/// of which none is empty, holds a separator, or is `.` or `..`.
pub open spec fn within(out_dir: Seq<char>, path: Seq<char>) -> bool {
    exists|parts: Seq<Seq<char>>|
        parts.len() > 0 && (forall|i: int|
            0 <= i < parts.len() ==> safe_segment(#[trigger] parts[i])) && path
            == #[trigger] below(out_dir, parts)
}

/// Whether everything that `step` creates or writes lies below `out_dir`.
pub open spec fn stays_within(out_dir: Seq<char>, step: UnpackStepView) -> bool {
    match step {
        UnpackStepView::Skip => true,
        UnpackStepView::CreateDir(path) => within(out_dir, path),
        UnpackStepView::WriteFile { parent, path } => within(out_dir, path) && (parent == out_dir
            || within(out_dir, parent)),
    }
}

/// A path made of safe segments below a directory begins with the directory:
/// no segment leads back out of it or starts again at the root.
pub proof fn lemma_below_begins(out_dir: Seq<char>, parts: Seq<Seq<char>>)
    requires
        parts.len() > 0,
        forall|i: int| 0 <= i < parts.len() ==> safe_segment(#[trigger] parts[i]),
    ensures
        has_prefix(below(out_dir, parts), out_dir),
        below(out_dir, parts) == out_dir + join(parts, SEPARATOR) || below(out_dir, parts)
            == out_dir + seq![SEPARATOR] + join(parts, SEPARATOR),
{
    let rest = join(parts, SEPARATOR);
    assert(safe_segment(parts[0]));
    assert(parts[0][0] != SEPARATOR) by {
        if parts[0][0] == SEPARATOR {
            assert(parts[0].contains(SEPARATOR));
        }
    }
    assert(rest.len() > 0 && rest[0] == parts[0][0]) by {
        if parts.len() > 1 {
            assert(rest == parts[0] + seq![SEPARATOR] + join(parts.drop_first(), SEPARATOR));
        }
    }
    let whole = below(out_dir, parts);
    assert(whole.take(out_dir.len() as int) =~= out_dir);
}

/// What unpacking `entry` into `out_dir` does.
pub open spec fn step_for(out_dir: Seq<char>, entry: ArchiveEntryView) -> UnpackStepView {
    let parts = entry_segments(entry.name);
    if parts.len() == 0 {
        UnpackStepView::Skip
    } else if entry.is_dir {
        UnpackStepView::CreateDir(below(out_dir, parts))
    } else {
        UnpackStepView::WriteFile {
            parent: below(out_dir, parts.drop_last()),
            path: below(out_dir, parts),
        }
    }
}

/// The path below `out_dir` that is made of `parts`.
pub fn path_below(out_dir: &str, parts: &Vec<String>) -> (r: String)
    ensures
        r@ == below(out_dir@, string_views(parts@)),
{
    if parts.len() == 0 {
        out_dir.to_owned()
    } else {
        let rest = join_strings(parts, SEPARATOR);
        let rest = string_of(&rest);
        join_paths(out_dir, rest.as_str())
    }
}

/// Plans the unpacking of one entry into `out_dir`. Whatever the entry is
/// called, what the step creates or writes lies below `out_dir`.
pub fn unpack_step(out_dir: &str, entry: &ArchiveEntry) -> (r: UnpackStep)
    ensures
        r@ == step_for(out_dir@, entry@),
        stays_within(out_dir@, r@),
{
    let mut parts = sanitize_file_path(entry.name.as_str());
    if parts.len() == 0 {
        return UnpackStep::Skip;
    }
    let ghost all = string_views(parts@);
    assert(forall|i: int| 0 <= i < all.len() ==> safe_segment(#[trigger] all[i])) by {
        assert forall|i: int| 0 <= i < all.len() implies safe_segment(#[trigger] all[i]) by {
            assert(all[i] == parts[i]@);
        }
    }
    let path = path_below(out_dir, &parts);
    assert(within(out_dir@, path@)) by {
        assert(path@ == below(out_dir@, all));
    }
    if entry.is_dir {
        return UnpackStep::CreateDir(path);
    }
    parts.pop();
    assert(string_views(parts@) =~= all.drop_last());
    let parent = path_below(out_dir, &parts);
    proof {
        let above = all.drop_last();
        if above.len() > 0 {
            assert forall|i: int| 0 <= i < above.len() implies safe_segment(
                #[trigger] above[i],
            ) by {
                assert(above[i] == all[i]);
            }
            assert(parent@ == below(out_dir@, above));
            assert(within(out_dir@, parent@));
        }
    }
    UnpackStep::WriteFile { parent, path }
}

/// What unpacking an archive does: one step for each entry, and the path that
/// is reported as the root of what was unpacked.
#[derive(Debug, PartialEq, Eq)]
pub struct UnpackPlan {
    /// The steps, in the order of the entries.
    pub steps: Vec<UnpackStep>,
    /// `out_dir` with the top folder of the first entry; none for an archive
    /// without entries or whose first entry has no usable name.
    pub root: Option<String>,
}

/// The root of what unpacking `entries` into `out_dir` leaves.
pub open spec fn unpacked_root(out_dir: Seq<char>, entries: Seq<ArchiveEntryView>) -> Option<
    Seq<char>,
> {
    if entries.len() == 0 {
        None
    } else {
        match root_of(entries[0].name) {
            Some(root) => Some(joined(out_dir, root)),
            None => None,
        }
    }
}

/// Plans the unpacking of an archive with these entries into `out_dir`.
pub fn plan_unpack(out_dir: &str, entries: &Vec<ArchiveEntry>) -> (plan: UnpackPlan)
    ensures
        plan.steps.len() == entries.len(),
        forall|i: int|
            0 <= i < entries.len() ==> (#[trigger] plan.steps[i])@ == step_for(
                out_dir@,
                entries[i]@,
            ) && stays_within(out_dir@, plan.steps[i]@),
        optional_text(plan.root) == unpacked_root(out_dir@, archive_views(entries@)),
{
    let root = if entries.len() == 0 {
        None
    } else {
        assert(archive_views(entries@)[0] == entries[0]@);
        match get_root_of_zip(entries[0].name.as_str()) {
            Some(root) => Some(join_paths(out_dir, root.as_str())),
            None => None,
        }
    };
    let mut steps: Vec<UnpackStep> = Vec::new();
    let mut i: usize = 0;
    while i < entries.len()
        invariant
            0 <= i <= entries.len(),
            steps.len() == i,
            forall|k: int|
                0 <= k < i ==> (#[trigger] steps[k])@ == step_for(out_dir@, entries[k]@)
                    && stays_within(out_dir@, steps[k]@),
        decreases entries.len() - i,
    {
        steps.push(unpack_step(out_dir, &entries[i]));
        i = i + 1;
    }
    UnpackPlan { steps, root }
}

/// Where the archive of the folder `dir` is written: next to the folder, under
/// the folder's name with `.zip` added. A path without segments has no
/// archive.
pub open spec fn archive_path(dir: Seq<char>) -> Option<Seq<char>> {
    if segments(dir).len() == 0 {
        None
    } else {
        Some(assemble(is_absolute(dir), segments(dir)) + ".zip"@)
    }
}

/// The name under which `file` is packed into the archive of the folder
/// `dir`: the folder's own name, then the file's path below the folder. A
/// file that does not lie below the folder has no name.
pub open spec fn entry_name(dir: Seq<char>, file: Seq<char>) -> Option<Seq<char>> {
    let d = segments(dir);
    let f = segments(file);
    if d.len() >= 1 && f.len() > d.len() && f.take(d.len() as int) == d {
        Some(join(f.skip(d.len() - 1), SEPARATOR))
    } else {
        None
    }
}

/// Where the archive of the folder `dir` is written.
pub fn archive_path_of(dir: &str) -> (r: Option<String>)
    ensures
        optional_text(r) == archive_path(dir@),
{
    let parts = segments_of(dir);
    if parts.len() == 0 {
        return None;
    }
    let mut path = assemble_path(starts_at_root(dir), &parts);
    path.append(".zip");
    Some(path)
}

/// Whether `whole` begins with the texts of `prefix`.
fn begins_with(whole: &Vec<String>, prefix: &Vec<String>) -> (r: bool)
    requires
        prefix.len() <= whole.len(),
    ensures
        r == (string_views(whole@).take(prefix.len() as int) == string_views(prefix@)),
{
    let mut i: usize = 0;
    while i < prefix.len()
        invariant
            0 <= i <= prefix.len() <= whole.len(),
            forall|k: int| 0 <= k < i ==> whole[k]@ == prefix[k]@,
        decreases prefix.len() - i,
    {
        if !same_text(whole[i].as_str(), prefix[i].as_str()) {
            assert(string_views(whole@).take(prefix.len() as int)[i as int] != string_views(
                prefix@,
            )[i as int]);
            return false;
        }
        i = i + 1;
    }
    assert(string_views(whole@).take(prefix.len() as int) =~= string_views(prefix@));
    true
}

/// The name under which `file` is packed into the archive of the folder
/// `dir`.
pub fn entry_name_of(dir: &str, file: &str) -> (r: Option<String>)
    ensures
        optional_text(r) == entry_name(dir@, file@),
{
    let d = segments_of(dir);
    let f = segments_of(file);
    if d.len() == 0 || f.len() <= d.len() {
        return None;
    }
    if !begins_with(&f, &d) {
        return None;
    }
    let mut kept: Vec<String> = Vec::new();
    let mut i: usize = d.len() - 1;
    let ghost all = string_views(f@);
    assert(all.subrange(d.len() - 1, d.len() - 1) =~= Seq::<Seq<char>>::empty());
    while i < f.len()
        invariant
            d.len() - 1 <= i <= f.len(),
            d.len() >= 1,
            all == string_views(f@),
            string_views(kept@) == all.subrange(d.len() - 1, i as int),
        decreases f.len() - i,
    {
        let ghost before = string_views(kept@);
        kept.push(f[i].clone());
        assert(string_views(kept@) =~= before.push(f[i as int]@));
        i = i + 1;
        assert(string_views(kept@) =~= all.subrange(d.len() - 1, i as int));
    }
    assert(all.subrange(d.len() - 1, f.len() as int) =~= all.skip(d.len() - 1));
    let name = join_strings(&kept, SEPARATOR);
    Some(string_of(&name))
}

/// One file that goes into an archive.
#[derive(Debug, PartialEq, Eq)]
pub struct PackEntry {
    /// The file to read.
    pub source: String,
    /// The name of its entry.
    pub name: String,
}

/// What packing a folder does: the archive to write, and the files that go
/// into it with the names of their entries.
#[derive(Debug, PartialEq, Eq)]
pub struct PackPlan {
    pub archive_path: String,
    pub entries: Vec<PackEntry>,
}

/// The entries for the files among `files` that lie below `dir`, in order.
pub open spec fn pack_entries(dir: Seq<char>, files: Seq<Seq<char>>) -> Seq<(Seq<char>, Seq<char>)>
    decreases files.len(),
{
    if files.len() == 0 {
        Seq::empty()
    } else {
        let before = pack_entries(dir, files.drop_last());
        match entry_name(dir, files.last()) {
            Some(name) => before.push((files.last(), name)),
            None => before,
        }
    }
}

/// The sources and names of a sequence of entries.
pub open spec fn pack_views(v: Seq<PackEntry>) -> Seq<(Seq<char>, Seq<char>)> {
    Seq::new(v.len(), |i: int| (v[i].source@, v[i].name@))
}

/// Plans the packing of the folder `dir`, which holds the files `files`. A
/// path without segments is no folder to pack.
pub fn plan_pack(dir: &str, files: &Vec<String>) -> (r: Option<PackPlan>)
    ensures
        match r {
            Some(plan) => archive_path(dir@) == Some(plan.archive_path@) && pack_views(
                plan.entries@,
            ) == pack_entries(dir@, string_views(files@)),
            None => archive_path(dir@) is None,
        },
{
    let archive = match archive_path_of(dir) {
        Some(path) => path,
        None => {
            return None;
        },
    };
    let mut entries: Vec<PackEntry> = Vec::new();
    let mut i: usize = 0;
    let ghost all = string_views(files@);
    assert(all.take(0) =~= Seq::<Seq<char>>::empty());
    assert(pack_views(entries@) =~= Seq::<(Seq<char>, Seq<char>)>::empty());
    while i < files.len()
        invariant
            0 <= i <= files.len(),
            all == string_views(files@),
            pack_views(entries@) == pack_entries(dir@, all.take(i as int)),
        decreases files.len() - i,
    {
        proof {
            assert(all.take(i + 1).drop_last() =~= all.take(i as int));
            assert(all.take(i + 1).last() == files[i as int]@);
        }
        match entry_name_of(dir, files[i].as_str()) {
            Some(name) => {
                let entry = PackEntry { source: files[i].clone(), name };
                proof {
                    assert(pack_views(entries@.push(entry)) =~= pack_views(entries@).push(
                        (entry.source@, entry.name@),
                    ));
                }
                entries.push(entry);
            },
            None => {},
        }
        i = i + 1;
    }
    assert(all.take(files.len() as int) =~= all);
    Some(PackPlan { archive_path: archive, entries })
}

/// Whether sanitizing leaves the name `s` as it is and the name holds no
/// backslash.
pub open spec fn keeps_name(s: Seq<char>) -> bool {
    sanitized(s, WINDOWS_RULES) == s && !s.contains('\\')
}

/// Packing and unpacking keep a file's place: a file below the folder `dir`,
/// packed under its entry name and unpacked into `out_dir`, is written below
/// `out_dir` under the folder's name and its path below the folder, and the
/// folder's name is the root of the archive. This holds where sanitizing
/// leaves the folder's name and the names on the file's path below it as they
/// are.
pub proof fn lemma_pack_unpack(dir: Seq<char>, file: Seq<char>, out_dir: Seq<char>)
    requires
        entry_name(dir, file) is Some,
        forall|i: int|
            segments(dir).len() - 1 <= i < segments(file).len() ==> keeps_name(
                #[trigger] segments(file)[i],
            ),
    ensures
        entry_segments(entry_name(dir, file)->0) == segments(file).skip(segments(dir).len() - 1),
        root_of(entry_name(dir, file)->0) == Some(segments(dir).last()),
        step_for(out_dir, ArchiveEntryView { name: entry_name(dir, file)->0, is_dir: false })
            == (UnpackStepView::WriteFile {
            parent: below(out_dir, segments(file).skip(segments(dir).len() - 1).drop_last()),
            path: below(out_dir, segments(file).skip(segments(dir).len() - 1)),
        }),
{
    let d = segments(dir);
    let f = segments(file);
    let kept = f.skip(d.len() - 1);
    let name = join(kept, SEPARATOR);
    lemma_segments_plain(file);
    assert forall|i: int| 0 <= i < kept.len() implies !(#[trigger] kept[i]).contains(
        SEPARATOR,
    ) && !kept[i].contains('\\') && kept[i].len() > 0 && sanitized(kept[i], WINDOWS_RULES)
        == kept[i] by {
        assert(kept[i] == f[i + d.len() - 1]);
        assert(keeps_name(f[i + d.len() - 1]));
    }
    lemma_join_lacks(kept, SEPARATOR, '\\');
    lemma_replace_absent(name, '\\', '/');
    lemma_split_join(kept, SEPARATOR);
    assert(sanitized_parts(kept) =~= kept);
    lemma_non_empty_keeps(kept);
    assert(kept[0] == f[d.len() - 1]);
    assert(f.take(d.len() as int)[d.len() - 1] == f[d.len() - 1]);
}

} // verus!
