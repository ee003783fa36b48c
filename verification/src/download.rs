//! Downloads: which file answers a request, and what is cleaned up once the
//! client has it. A ROM that is a folder is sent as an archive of the folder.

use vstd::prelude::*;
use crate::archive::{archive_path, archive_path_of};
use crate::paths::{
    assemble, assemble_path, file_name, file_name_of, is_absolute, lemma_segments_assemble,
    lemma_segments_plain, segments, segments_of, starts_at_root, SEPARATOR,
};
use crate::text::{optional_str, optional_text, same_text, string_views};

verus! {

/// What the client says when a download is complete.
#[derive(Debug, PartialEq, Eq)]
pub struct ROMDownload {
    /// The file that was sent.
    pub path: String,
    /// The folder that bounds the ROM's directory; empty for a ROM that is a
    /// single file.
    pub parent: String,
}

/// Why a download request is turned away.
#[derive(Debug, PartialEq, Eq, Structural, Clone, Copy)]
pub enum DownloadRejection {
    /// The request names no path.
    MissingPath,
    /// The request does not say whether the ROM is a folder.
    MissingParent,
    /// The path does not lie in a folder below the named parent.
    NotBelowParent,
}

/// The file that answers a download request.
#[derive(Debug, PartialEq, Eq)]
pub enum DownloadTarget {
    /// The requested file itself.
    File(String),
    /// An archive of the ROM's folder, which has to be packed first.
    Archive { rom_dir: String, archive_path: String },
}

/// What a [`DownloadTarget`] holds, as mathematical values.
pub enum DownloadTargetView {
    File(Seq<char>),
    Archive { rom_dir: Seq<char>, archive_path: Seq<char> },
}

impl View for DownloadTarget {
    type V = DownloadTargetView;

    open spec fn view(&self) -> DownloadTargetView {
        match self {
            DownloadTarget::File(path) => DownloadTargetView::File(path@),
            DownloadTarget::Archive { rom_dir, archive_path } => DownloadTargetView::Archive {
                rom_dir: rom_dir@,
                archive_path: archive_path@,
            },
        }
    }
}

/// Position of the last segment before position `upto` that equals `name`, or
/// -1 when there is none.
pub open spec fn boundary(parts: Seq<Seq<char>>, name: Seq<char>, upto: int) -> int
    decreases upto,
{
    if upto <= 0 {
        -1
    } else if parts[upto - 1] == name {
        upto - 1
    } else {
        boundary(parts, name, upto - 1)
    }
}

/// The folder of the ROM that `path` lies in: the longest ancestor of the path
/// that lies directly in a folder named `parent`. The path itself does not
/// count: a file directly in `parent` is no folder-shaped ROM.
pub open spec fn rom_dir(path: Seq<char>, parent: Seq<char>) -> Option<Seq<char>> {
    let parts = segments(path);
    let b = boundary(parts, parent, parts.len() - 1);
    if b < 0 || b + 2 >= parts.len() {
        None
    } else {
        Some(assemble(is_absolute(path), parts.take(b + 2)))
    }
}

/// What answers a request for `path` with the boundary `parent`.
pub open spec fn resolution(path: Option<Seq<char>>, parent: Option<Seq<char>>) -> Result<
    DownloadTargetView,
    DownloadRejection,
> {
    if path is None {
        Err(DownloadRejection::MissingPath)
    } else if parent is None {
        Err(DownloadRejection::MissingParent)
    } else if parent->0.len() == 0 {
        Ok(DownloadTargetView::File(path->0))
    } else {
        match rom_dir(path->0, parent->0) {
            Some(dir) => match archive_path(dir) {
                Some(archive) => Ok(
                    DownloadTargetView::Archive { rom_dir: dir, archive_path: archive },
                ),
                None => Err(DownloadRejection::NotBelowParent),
            },
            None => Err(DownloadRejection::NotBelowParent),
        }
    }
}

/// The folder of a ROM can always be packed: it has segments of its own, and
/// so a place for its archive. A request that names a boundary is therefore
/// turned away exactly where the path has no folder below that boundary.
pub proof fn lemma_rom_dir_has_archive(path: Seq<char>, parent: Seq<char>)
    ensures
        rom_dir(path, parent) is Some ==> archive_path(rom_dir(path, parent)->0) is Some,
        parent.len() > 0 ==> (resolution(Some(path), Some(parent)) is Err <==> rom_dir(
            path,
            parent,
        ) is None),
{
    if rom_dir(path, parent) is Some {
        let parts = segments(path);
        let b = boundary(parts, parent, parts.len() - 1);
        let kept = parts.take(b + 2);
        lemma_segments_plain(path);
        assert forall|i: int| 0 <= i < kept.len() implies (#[trigger] kept[i]).len() > 0
            && !kept[i].contains(SEPARATOR) by {
            assert(kept[i] == parts[i]);
        }
        lemma_segments_assemble(is_absolute(path), kept);
    }
}

/// The folder of the ROM that `path` lies in, below a folder named `parent`.
pub fn find_rom_dir(path: &str, parent: &str) -> (r: Option<String>)
    ensures
        optional_text(r) == rom_dir(path@, parent@),
{
    let parts = segments_of(path);
    let n = parts.len();
    if n < 2 {
        proof {
            if n == 1 {
                assert(boundary(string_views(parts@), parent@, 0) == -1);
            }
        }
        return None;
    }
    let ghost all = string_views(parts@);
    let mut i: usize = n - 1;
    while i > 0
        invariant
            0 <= i <= n - 1,
            n == parts.len(),
            n >= 2,
            all == string_views(parts@),
            all == segments(path@),
            boundary(all, parent@, n - 1) == boundary(all, parent@, i as int),
        decreases i,
    {
        assert(all[i - 1] == parts[i - 1]@);
        if same_text(parts[i - 1].as_str(), parent) {
            // parts[i - 1] is the boundary; the ROM's folder ends at parts[i].
            if i + 1 >= n {
                return None;
            }
            let mut kept = parts;
            kept.truncate(i + 1);
            assert(string_views(kept@) =~= all.take(i + 1));
            return Some(assemble_path(starts_at_root(path), &kept));
        }
        i = i - 1;
    }
    None
}

/// Decides what answers a download request: the file itself, or, where a
/// boundary is named, an archive of the ROM's folder.
pub fn resolve_download(path: Option<&str>, parent: Option<&str>) -> (r: Result<
    DownloadTarget,
    DownloadRejection,
>)
    ensures
        match (r, resolution(optional_str(path), optional_str(parent))) {
            (Ok(target), Ok(expected)) => target@ == expected,
            (Err(e), Err(f)) => e == f,
            _ => false,
        },
{
    let path = match path {
        Some(path) => path,
        None => {
            return Err(DownloadRejection::MissingPath);
        },
    };
    let parent = match parent {
        Some(parent) => parent,
        None => {
            return Err(DownloadRejection::MissingParent);
        },
    };
    if parent.is_empty() {
        return Ok(DownloadTarget::File(path.to_owned()));
    }
    match find_rom_dir(path, parent) {
        Some(dir) => match archive_path_of(dir.as_str()) {
            Some(archive_path) => Ok(DownloadTarget::Archive { rom_dir: dir, archive_path }),
            None => Err(DownloadRejection::NotBelowParent),
        },
        None => Err(DownloadRejection::NotBelowParent),
    }
}

/// The `Content-Disposition` header of a download of the file named `name`.
pub open spec fn disposition(name: Seq<char>) -> Seq<char> {
    "attachment; filename = \""@ + name + "\""@
}

/// The `Content-Disposition` header for sending the file at `path`; none for
/// a path without a file name.
pub fn content_disposition(path: &str) -> (r: Option<String>)
    ensures
        optional_text(r) == (match file_name(path@) {
            Some(name) => Some(disposition(name)),
            None => None,
        }),
{
    match file_name_of(path) {
        Some(name) => {
            let mut header = String::from_str("attachment; filename = \"");
            header.append(name.as_str());
            header.append("\"");
            Some(header)
        },
        None => None,
    }
}

/// The file to delete once a download is complete: the archive that was made
/// for a ROM that is a folder; nothing for a ROM that is a single file.
pub fn download_cleanup(data: &ROMDownload) -> (r: Option<String>)
    ensures
        optional_text(r) == (if data.parent@.len() == 0 {
            None
        } else {
            Some(data.path@)
        }),
{
    if data.parent.as_str().is_empty() {
        None
    } else {
        Some(data.path.clone())
    }
}

} // verus!
