//! The file picker: which entries of a directory are offered to the user.

use vstd::prelude::*;
use crate::listing::{entry_views, DirEntry, DirEntryView, EntryKind};
use crate::paths::{extension, extension_of, join_paths, joined};
use crate::text::{chars_of, string_views};

verus! {

/// What the user is to pick.
#[derive(Debug, PartialEq, Eq, Structural, Clone, Copy)]
pub enum FileSelectionType {
    FILE,
    FOLDER,
}

/// An entry that the picker offers.
#[derive(Debug, PartialEq, Eq)]
pub struct FilePickerEntry {
    pub path: String,
    pub name: String,
    pub is_dir: bool,
}

/// What a [`FilePickerEntry`] holds, as mathematical values.
pub struct FilePickerEntryView {
    pub path: Seq<char>,
    pub name: Seq<char>,
    pub is_dir: bool,
}

impl View for FilePickerEntry {
    type V = FilePickerEntryView;

    open spec fn view(&self) -> FilePickerEntryView {
        FilePickerEntryView { path: self.path@, name: self.name@, is_dir: self.is_dir }
    }
}

/// The views of a sequence of offered entries.
pub open spec fn picker_views(v: Seq<FilePickerEntry>) -> Seq<FilePickerEntryView> {
    Seq::new(v.len(), |i: int| v[i]@)
}

/// What the picker is to offer.
#[derive(Debug, PartialEq, Eq)]
pub struct FilePickerConfig {
    /// Whether files are offered at all.
    pub show_files: bool,
    /// The extensions of the files that are offered; empty for any extension.
    pub extensions: Vec<String>,
    /// Whether files whose name begins with a dot are offered.
    pub show_hidden_files: bool,
    /// Upper bound on the number of entries, which clients apply.
    pub max: u64,
}

/// What a [`FilePickerConfig`] holds, as mathematical values.
pub struct FilePickerConfigView {
    pub show_files: bool,
    pub extensions: Seq<Seq<char>>,
    pub show_hidden_files: bool,
    pub max: u64,
}

impl View for FilePickerConfig {
    type V = FilePickerConfigView;

    open spec fn view(&self) -> FilePickerConfigView {
        FilePickerConfigView {
            show_files: self.show_files,
            extensions: string_views(self.extensions@),
            show_hidden_files: self.show_hidden_files,
            max: self.max,
        }
    }
}

/// Whether the picker offers `entry`: every directory; a file only if files
/// are shown, if it is not hidden or hidden files are shown, and if it has an
/// extension, which has to be one of the wanted ones where any are named.
pub open spec fn offered(config: FilePickerConfigView, entry: DirEntryView) -> bool {
    if entry.kind == EntryKind::Directory {
        true
    } else {
        &&& config.show_files
        &&& (config.show_hidden_files || !(entry.name.len() > 0 && entry.name[0] == '.'))
        &&& extension(entry.name) is Some
        &&& (config.extensions.len() == 0 || config.extensions.contains(extension(entry.name)->0))
    }
}

/// The entries that the picker offers in the directory `path`, in the order
/// of the directory's entries.
pub open spec fn offers(
    path: Seq<char>,
    config: FilePickerConfigView,
    entries: Seq<DirEntryView>,
) -> Seq<FilePickerEntryView>
    decreases entries.len(),
{
    if entries.len() == 0 {
        Seq::empty()
    } else {
        let before = offers(path, config, entries.drop_last());
        let e = entries.last();
        if offered(config, e) {
            before.push(
                FilePickerEntryView {
                    path: joined(path, e.name),
                    name: e.name,
                    is_dir: e.kind == EntryKind::Directory,
                },
            )
        } else {
            before
        }
    }
}

/// Whether `wanted` holds the text `ext`.
fn lists(wanted: &Vec<String>, ext: &String) -> (r: bool)
    ensures
        r == string_views(wanted@).contains(ext@),
{
    let mut i: usize = 0;
    while i < wanted.len()
        invariant
            0 <= i <= wanted.len(),
            forall|k: int| 0 <= k < i ==> wanted[k]@ != ext@,
        decreases wanted.len() - i,
    {
        if wanted[i] == *ext {
            assert(string_views(wanted@)[i as int] == ext@);
            return true;
        }
        i = i + 1;
    }
    assert(!string_views(wanted@).contains(ext@)) by {
        if string_views(wanted@).contains(ext@) {
            let k = choose|k: int|
                0 <= k < string_views(wanted@).len() && string_views(wanted@)[k] == ext@;
            assert(wanted[k]@ != ext@);
        }
    }
    false
}

/// Whether the picker offers `entry`.
pub fn is_offered(config: &FilePickerConfig, entry: &DirEntry) -> (r: bool)
    ensures
        r == offered(config@, entry@),
{
    match entry.kind {
        EntryKind::Directory => {
            return true;
        },
        _ => {},
    }
    if !config.show_files {
        return false;
    }
    let name = chars_of(entry.name.as_str());
    if !config.show_hidden_files && name.len() > 0 && name[0] == '.' {
        return false;
    }
    let ext = match extension_of(entry.name.as_str()) {
        Some(ext) => ext,
        None => {
            return false;
        },
    };
    config.extensions.len() == 0 || lists(&config.extensions, &ext)
}

/// The entries that the picker offers in the directory `path`, whose entries
/// are `entries`.
pub fn get_entries(path: &str, config: &FilePickerConfig, entries: &Vec<DirEntry>) -> (r: Vec<
    FilePickerEntry,
>)
    ensures
        picker_views(r@) == offers(path@, config@, entry_views(entries@)),
{
    let mut r: Vec<FilePickerEntry> = Vec::new();
    let mut i: usize = 0;
    let ghost all = entry_views(entries@);
    assert(all.take(0) =~= Seq::<DirEntryView>::empty());
    assert(picker_views(r@) =~= Seq::<FilePickerEntryView>::empty());
    while i < entries.len()
        invariant
            0 <= i <= entries.len(),
            all == entry_views(entries@),
            picker_views(r@) == offers(path@, config@, all.take(i as int)),
        decreases entries.len() - i,
    {
        let entry = &entries[i];
        proof {
            assert(all.take(i + 1).drop_last() =~= all.take(i as int));
            assert(all.take(i + 1).last() == entry@);
        }
        if is_offered(config, entry) {
            let is_dir = match entry.kind {
                EntryKind::Directory => true,
                _ => false,
            };
            let offer = FilePickerEntry {
                path: join_paths(path, entry.name.as_str()),
                name: entry.name.clone(),
                is_dir,
            };
            proof {
                assert(picker_views(r@.push(offer)) =~= picker_views(r@).push(offer@));
            }
            r.push(offer);
        }
        i = i + 1;
    }
    assert(all.take(entries.len() as int) =~= all);
    r
}

} // verus!
