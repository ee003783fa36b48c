//! Chunked uploads: what is asked of a request before any byte is written,
//! how much a chunk counts, and what remains to be done when an upload is
//! prepared, completed or cancelled.

use vstd::prelude::*;
use crate::paths::{parent, parent_of};
use crate::text::{
    chars_of, decimal, has_prefix, optional_str, optional_text, parse_u64, same_text, slice_chars,
    split, split_chars, starts_with, views,
};
use crate::transfer::{began, chunk_applied, StreamStore, TransferError};

verus! {

/// Why an upload request is turned away before anything is written.
#[derive(Debug, PartialEq, Eq, Structural, Clone, Copy)]
pub enum UploadRejection {
    /// The request names no content type.
    MissingContentType,
    /// The content type is not `application/octet-stream`.
    WrongContentType,
    /// The request does not announce the size of the file.
    MissingFileSize,
    /// The announced size is no decimal number.
    InvalidFileSize,
    /// The request names no upload.
    MissingUploadId,
    /// The request names no destination.
    MissingFilePath,
}

/// The part of a file that a chunk covers.
#[derive(Debug, PartialEq, Eq, Structural, Clone, Copy)]
pub struct ChunkRange {
    /// Position of the first byte.
    pub start: u64,
    /// Number of bytes.
    pub length: u64,
}

/// An upload request that passed every check.
#[derive(Debug, PartialEq, Eq)]
pub struct UploadRequest {
    pub upload_id: String,
    /// The file that the chunk is appended to.
    pub file_path: String,
    /// The announced size of the whole file.
    pub file_size: u64,
    /// The part of the file that this chunk covers.
    pub range: ChunkRange,
}

/// What an [`UploadRequest`] holds, as mathematical values.
pub struct UploadRequestView {
    pub upload_id: Seq<char>,
    pub file_path: Seq<char>,
    pub file_size: u64,
    pub range: ChunkRange,
}

impl View for UploadRequest {
    type V = UploadRequestView;

    open spec fn view(&self) -> UploadRequestView {
        UploadRequestView {
            upload_id: self.upload_id@,
            file_path: self.file_path@,
            file_size: self.file_size,
            range: self.range,
        }
    }
}

/// The range that covers a whole file of `file_size` bytes.
pub open spec fn whole_file(file_size: u64) -> ChunkRange {
    ChunkRange { start: 0, length: file_size }
}

/// Whether `header` is a well-formed `Range` header: `bytes=`, the first byte
/// as a decimal number, a dash, and the last byte as a decimal number or
/// nothing at all.
pub open spec fn well_formed_range(header: Seq<char>) -> bool {
    let parts = split(header.skip("bytes="@.len() as int), '-');
    &&& has_prefix(header, "bytes="@)
    &&& parts.len() == 2
    &&& decimal(parts[0]) is Some
    &&& (parts[1].len() == 0 || decimal(parts[1]) is Some)
}

/// The range that a `Range` header asks for, in a file of `file_size` bytes.
///
/// A well-formed header names the bytes from its first to its last, or to the
/// last byte of the file where it names no last byte. A missing header, a
/// malformed one, and one whose bytes do not lie in the file in this order
/// stand for the whole file.
pub open spec fn range_of(header: Option<Seq<char>>, file_size: u64) -> ChunkRange {
    match header {
        None => whole_file(file_size),
        Some(h) => {
            let parts = split(h.skip("bytes="@.len() as int), '-');
            let first: int = decimal(parts[0])->0 as int;
            let last: int = if parts[1].len() == 0 {
                file_size - 1
            } else {
                decimal(parts[1])->0 as int
            };
            if well_formed_range(h) && first <= last && last < file_size {
                ChunkRange { start: first as u64, length: (last - first + 1) as u64 }
            } else {
                whole_file(file_size)
            }
        },
    }
}

/// What becomes of an upload request with these headers and this destination.
pub open spec fn acceptance(
    content_type: Option<Seq<char>>,
    file_size: Option<Seq<char>>,
    range: Option<Seq<char>>,
    upload_id: Option<Seq<char>>,
    file_path: Option<Seq<char>>,
) -> Result<UploadRequestView, UploadRejection> {
    if content_type is None {
        Err(UploadRejection::MissingContentType)
    } else if content_type->0 != "application/octet-stream"@ {
        Err(UploadRejection::WrongContentType)
    } else if file_size is None {
        Err(UploadRejection::MissingFileSize)
    } else if decimal(file_size->0) is None {
        Err(UploadRejection::InvalidFileSize)
    } else if upload_id is None {
        Err(UploadRejection::MissingUploadId)
    } else if file_path is None {
        Err(UploadRejection::MissingFilePath)
    } else {
        Ok(
            UploadRequestView {
                upload_id: upload_id->0,
                file_path: file_path->0,
                file_size: decimal(file_size->0)->0,
                range: range_of(range, decimal(file_size->0)->0),
            },
        )
    }
}

/// Reads a `Range` header for a file of `file_size` bytes.
pub fn parse_range(header: Option<&str>, file_size: u64) -> (r: ChunkRange)
    ensures
        r == range_of(optional_str(header), file_size),
{
    let whole = ChunkRange { start: 0, length: file_size };
    let h = match header {
        None => {
            return whole;
        },
        Some(h) => chars_of(h),
    };
    let prefix = chars_of("bytes=");
    if !starts_with(&h, &prefix) {
        return whole;
    }
    let rest = slice_chars(&h, prefix.len(), h.len());
    assert(rest@ =~= h@.skip("bytes="@.len() as int));
    let parts = split_chars(&rest, '-');
    if parts.len() != 2 {
        return whole;
    }
    assert(views(parts@)[0] == parts[0]@);
    assert(views(parts@)[1] == parts[1]@);
    let first: u64 = match parse_u64(&parts[0]) {
        Some(n) => n,
        None => {
            return whole;
        },
    };
    let last: u64 = if parts[1].len() == 0 {
        if file_size == 0 {
            return whole;
        }
        file_size - 1
    } else {
        match parse_u64(&parts[1]) {
            Some(n) => n,
            None => {
                return whole;
            },
        }
    };
    if first <= last && last < file_size {
        ChunkRange { start: first, length: last - first + 1 }
    } else {
        whole
    }
}

/// Checks an upload request before anything is written: the content type has
/// to be `application/octet-stream`, the size of the file a decimal number,
/// and the upload and its destination have to be named.
pub fn accept_upload(
    content_type: Option<&str>,
    file_size: Option<&str>,
    range: Option<&str>,
    upload_id: Option<&str>,
    file_path: Option<&str>,
) -> (r: Result<UploadRequest, UploadRejection>)
    ensures
        match (
            r,
            acceptance(
                optional_str(content_type),
                optional_str(file_size),
                optional_str(range),
                optional_str(upload_id),
                optional_str(file_path),
            ),
        ) {
            (Ok(request), Ok(expected)) => request@ == expected,
            (Err(e), Err(f)) => e == f,
            _ => false,
        },
{
    let content_type = match content_type {
        Some(t) => t,
        None => {
            return Err(UploadRejection::MissingContentType);
        },
    };
    if !same_text(content_type, "application/octet-stream") {
        return Err(UploadRejection::WrongContentType);
    }
    let size_text = match file_size {
        Some(t) => chars_of(t),
        None => {
            return Err(UploadRejection::MissingFileSize);
        },
    };
    let size = match parse_u64(&size_text) {
        Some(n) => n,
        None => {
            return Err(UploadRejection::InvalidFileSize);
        },
    };
    let chunk = parse_range(range, size);
    let upload_id = match upload_id {
        Some(t) => t,
        None => {
            return Err(UploadRejection::MissingUploadId);
        },
    };
    let file_path = match file_path {
        Some(t) => t,
        None => {
            return Err(UploadRejection::MissingFilePath);
        },
    };
    Ok(
        UploadRequest {
            upload_id: upload_id.to_owned(),
            file_path: file_path.to_owned(),
            file_size: size,
            range: chunk,
        },
    )
}

/// Counts the chunk of `request`, written at time `now`, in the store: the
/// upload's record is started if this is its first chunk, and advanced by the
/// length of the chunk.
pub fn record_upload(store: &mut StreamStore, request: &UploadRequest, now: i64)
    ensures
        final(store)@ == chunk_applied(
            began(
                old(store)@,
                request.upload_id@,
                request.file_path@,
                request.file_size as nat,
                now as int,
            ),
            request.upload_id@,
            request.range.length as nat,
            now as int,
        ),
{
    store.record_chunk(
        request.upload_id.as_str(),
        request.file_path.as_str(),
        request.file_size,
        request.range.length,
        now,
    );
}

/// What the client says when an upload is complete.
#[derive(Debug, PartialEq, Eq)]
pub struct ROMUploadComplete {
    pub upload_id: String,
    /// The file that was uploaded.
    pub path: String,
    /// Root of the library that the ROM goes to.
    pub library_path: String,
    /// Folder of the system that the ROM belongs to.
    pub system: String,
    /// Whether the file is an archive to unpack.
    pub unzip: bool,
}

/// What remains to be done for a completed upload.
#[derive(Debug, PartialEq, Eq)]
pub enum Completion {
    /// Nothing: the file stays where it is, and this path is reported.
    Keep(String),
    /// The archive is unpacked into the directory and then deleted; the root
    /// of what was unpacked is reported.
    Unpack { archive: String, output_dir: String },
}

/// What a [`Completion`] holds, as mathematical values.
pub enum CompletionView {
    Keep(Seq<char>),
    Unpack { archive: Seq<char>, output_dir: Seq<char> },
}

impl View for Completion {
    type V = CompletionView;

    open spec fn view(&self) -> CompletionView {
        match self {
            Completion::Keep(path) => CompletionView::Keep(path@),
            Completion::Unpack { archive, output_dir } => CompletionView::Unpack {
                archive: archive@,
                output_dir: output_dir@,
            },
        }
    }
}

/// The directory that an uploaded archive is unpacked into: the folder of the
/// system in the library.
pub open spec fn unpack_dir(library_path: Seq<char>, system: Seq<char>) -> Seq<char> {
    library_path + seq!['/'] + system
}

/// Completes an upload: its record leaves the store, and an archive is handed
/// on to be unpacked into the system's folder.
pub fn complete_upload(store: &mut StreamStore, data: &ROMUploadComplete) -> (r: Completion)
    ensures
        final(store)@ == old(store)@.remove(data.upload_id@),
        r@ == (if data.unzip {
            CompletionView::Unpack {
                archive: data.path@,
                output_dir: unpack_dir(data.library_path@, data.system@),
            }
        } else {
            CompletionView::Keep(data.path@)
        }),
{
    let _ = store.complete(data.upload_id.as_str());
    if data.unzip {
        let mut output_dir = data.library_path.clone();
        proof {
            reveal_strlit("/");
            assert("/"@ =~= seq!['/']);
        }
        output_dir.append("/");
        output_dir.append(data.system.as_str());
        Completion::Unpack { archive: data.path.clone(), output_dir }
    } else {
        Completion::Keep(data.path.clone())
    }
}

/// Cancels an upload: its record leaves the store, and the path of the partial
/// file, which is to be deleted, is returned. An unknown upload is an error
/// and nothing is to be deleted.
pub fn cancel_upload(store: &mut StreamStore, upload_id: &str) -> (r: Result<String, TransferError>)
    ensures
        match r {
            Ok(path) => old(store)@.dom().contains(upload_id@) && path@ == old(
                store,
            )@[upload_id@].path && final(store)@ == old(store)@.remove(upload_id@),
            Err(e) => e == TransferError::NotFound && !old(store)@.dom().contains(upload_id@)
                && final(store)@ == old(store)@,
        },
{
    match store.cancel(upload_id) {
        Ok(record) => Ok(record.path),
        Err(e) => Err(e),
    }
}

/// What preparing an upload does on disk.
#[derive(Debug, PartialEq, Eq)]
pub enum Preparation {
    /// The destination exists and is left as it is.
    AlreadyExists,
    /// The directory, if there is one to create, and then the empty file are
    /// created.
    Create { parent: Option<String>, path: String },
}

/// What a [`Preparation`] holds, as mathematical values.
pub enum PreparationView {
    AlreadyExists,
    Create { parent: Option<Seq<char>>, path: Seq<char> },
}

impl View for Preparation {
    type V = PreparationView;

    open spec fn view(&self) -> PreparationView {
        match self {
            Preparation::AlreadyExists => PreparationView::AlreadyExists,
            Preparation::Create { parent, path } => PreparationView::Create {
                parent: optional_text(*parent),
                path: path@,
            },
        }
    }
}

/// Plans the preparation of an upload to `file_path`, given whether the
/// destination exists; `None` says that this could not be found out, which
/// counts as existing. An existing destination is never touched.
pub fn prepare_upload(file_path: Option<&str>, exists: Option<bool>) -> (r: Result<
    Preparation,
    UploadRejection,
>)
    ensures
        match r {
            Err(e) => file_path is None && e == UploadRejection::MissingFilePath,
            Ok(p) => file_path is Some && p@ == (if exists != Some(false) {
                PreparationView::AlreadyExists
            } else {
                PreparationView::Create { parent: parent(file_path->0@), path: file_path->0@ }
            }),
        },
{
    let path = match file_path {
        Some(path) => path,
        None => {
            return Err(UploadRejection::MissingFilePath);
        },
    };
    match exists {
        Some(false) => Ok(
            Preparation::Create { parent: parent_of(path), path: path.to_owned() },
        ),
        _ => Ok(Preparation::AlreadyExists),
    }
}

/// The body of the reply to a prepared upload: whether the destination
/// existed.
pub fn preparation_reply(preparation: &Preparation) -> (r: &'static str)
    ensures
        r@ == (if preparation@ is AlreadyExists {
            "true"@
        } else {
            "false"@
        }),
{
    match preparation {
        Preparation::AlreadyExists => "true",
        Preparation::Create { .. } => "false",
    }
}

} // verus!
