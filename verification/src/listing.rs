//! What the program tells the library about the directory tree: the entries of
//! a directory, and the files found below a system's folder.

use vstd::prelude::*;

verus! {

/// What kind of thing an entry of a directory is.
#[derive(Debug, PartialEq, Eq, Structural, Clone, Copy)]
pub enum EntryKind {
    /// A regular file.
    File,
    /// A directory.
    Directory,
    /// Neither of the two.
    Other,
}

/// One entry of a directory.
#[derive(Debug, PartialEq, Eq)]
pub struct DirEntry {
    /// Name of the entry, without the directory.
    pub name: String,
    pub kind: EntryKind,
}

/// What a [`DirEntry`] holds, as mathematical values.
pub struct DirEntryView {
    pub name: Seq<char>,
    pub kind: EntryKind,
}

impl View for DirEntry {
    type V = DirEntryView;

    open spec fn view(&self) -> DirEntryView {
        DirEntryView { name: self.name@, kind: self.kind }
    }
}

/// The views of a sequence of entries.
pub open spec fn entry_views(v: Seq<DirEntry>) -> Seq<DirEntryView> {
    Seq::new(v.len(), |i: int| v[i]@)
}

/// A file or folder found below a system's folder.
#[derive(Debug, PartialEq, Eq)]
pub struct FileEntry {
    /// Path below the system's folder, which the glob is matched against.
    pub relative: String,
    /// Full path, which the title is read from.
    pub path: String,
    /// Size in bytes.
    pub size: u64,
    /// Creation date, formatted for display.
    pub add_date: String,
}

/// What a [`FileEntry`] holds, as mathematical values.
pub struct FileEntryView {
    pub relative: Seq<char>,
    pub path: Seq<char>,
    pub size: nat,
    pub add_date: Seq<char>,
}

impl View for FileEntry {
    type V = FileEntryView;

    open spec fn view(&self) -> FileEntryView {
        FileEntryView {
            relative: self.relative@,
            path: self.path@,
            size: self.size as nat,
            add_date: self.add_date@,
        }
    }
}

/// The views of a sequence of files.
pub open spec fn file_views(v: Seq<FileEntry>) -> Seq<FileEntryView> {
    Seq::new(v.len(), |i: int| v[i]@)
}

/// A subdirectory of the ROM directory with everything found below it.
#[derive(Debug, PartialEq, Eq)]
pub struct FolderScan {
    /// Name of the subdirectory.
    pub folder: String,
    /// Full path of the subdirectory.
    pub path: String,
    /// The files and folders below it.
    pub files: Vec<FileEntry>,
}

/// What a [`FolderScan`] holds, as mathematical values.
pub struct FolderScanView {
    pub folder: Seq<char>,
    pub path: Seq<char>,
    pub files: Seq<FileEntryView>,
}

impl View for FolderScan {
    type V = FolderScanView;

    open spec fn view(&self) -> FolderScanView {
        FolderScanView { folder: self.folder@, path: self.path@, files: file_views(self.files@) }
    }
}

/// The views of a sequence of scans.
pub open spec fn scan_views(v: Seq<FolderScan>) -> Seq<FolderScanView> {
    Seq::new(v.len(), |i: int| v[i]@)
}

/// One entry of an extras directory with what lies directly in it: the
/// folder of one ROM, named by the ROM's identifier, with its entries.
#[derive(Debug, PartialEq, Eq)]
pub struct TitleFolder {
    /// Name of the folder: the ROM's identifier.
    pub rom_id: String,
    pub kind: EntryKind,
    /// The entries of the folder.
    pub entries: Vec<DirEntry>,
}

/// What a [`TitleFolder`] holds, as mathematical values.
pub struct TitleFolderView {
    pub rom_id: Seq<char>,
    pub kind: EntryKind,
    pub entries: Seq<DirEntryView>,
}

impl View for TitleFolder {
    type V = TitleFolderView;

    open spec fn view(&self) -> TitleFolderView {
        TitleFolderView {
            rom_id: self.rom_id@,
            kind: self.kind,
            entries: entry_views(self.entries@),
        }
    }
}

/// The views of a sequence of title folders.
pub open spec fn title_views(v: Seq<TitleFolder>) -> Seq<TitleFolderView> {
    Seq::new(v.len(), |i: int| v[i]@)
}

} // verus!
