//! The cache of cover art: where the images of a ROM are kept, and what an
//! upload of new images replaces.

use vstd::prelude::*;
use crate::extras::{eq_ignore_ascii_case, same_ignoring_ascii_case};

verus! {

/// A request to fetch the hero image of a ROM.
#[derive(Debug, Clone, PartialEq, Eq)]
pub struct HeroUpload {
    pub hero_url: String,
    pub hero_ext: String,
    /// Seconds to wait for the download.
    pub timeout: u64,
}

/// A request to fetch the two capsule images of a ROM.
#[derive(Debug, Clone, PartialEq, Eq)]
pub struct CapsuleUpload {
    pub full_capsule_url: String,
    pub full_capsule_ext: String,
    pub thumb_capsule_url: String,
    pub thumb_capsule_ext: String,
    /// Seconds to wait for each download.
    pub timeout: u64,
}

/// A request to fetch the cover of a ROM.
#[derive(Debug, Clone, PartialEq, Eq)]
pub struct CoverUpload {
    pub url: String,
    pub ext: String,
    /// Seconds to wait for the download.
    pub timeout: u64,
}

/// A request to delete a ROM.
#[derive(Debug, Clone, PartialEq, Eq)]
pub struct ROMDelete {
    pub path: String,
}

/// The kinds of image that the cache keeps, each in a directory of its own.
#[derive(Debug, PartialEq, Eq, Structural, Clone, Copy)]
pub enum GridKind {
    /// The capsule in full size.
    Full,
    /// The capsule as a thumbnail.
    Thumb,
    /// The hero image.
    Hero,
}

/// Name of the directory of a kind of image.
pub open spec fn kind_dir(kind: GridKind) -> Seq<char> {
    match kind {
        GridKind::Full => "full"@,
        GridKind::Thumb => "thumb"@,
        GridKind::Hero => "hero"@,
    }
}

/// The directory of a kind of image in the cache at `cache_dir`.
pub open spec fn grid_dir(cache_dir: Seq<char>, kind: GridKind) -> Seq<char> {
    cache_dir + "/"@ + kind_dir(kind)
}

/// Name of the image file of the ROM `rom_id` with the extension `ext`.
pub open spec fn grid_name(rom_id: Seq<char>, ext: Seq<char>) -> Seq<char> {
    rom_id + "."@ + ext
}

/// Where the cache at `cache_dir` keeps the image of the ROM `rom_id`.
pub open spec fn grid_file(
    cache_dir: Seq<char>,
    kind: GridKind,
    rom_id: Seq<char>,
    ext: Seq<char>,
) -> Seq<char> {
    grid_dir(cache_dir, kind) + "/"@ + grid_name(rom_id, ext)
}

/// Name of the directory of a kind of image.
pub fn kind_dir_name(kind: GridKind) -> (r: &'static str)
    ensures
        r@ == kind_dir(kind),
{
    match kind {
        GridKind::Full => "full",
        GridKind::Thumb => "thumb",
        GridKind::Hero => "hero",
    }
}

/// The directory of a kind of image in the cache at `cache_dir`.
pub fn grid_dir_path(cache_dir: &str, kind: GridKind) -> (r: String)
    ensures
        r@ == grid_dir(cache_dir@, kind),
{
    let mut r = cache_dir.to_owned();
    r.append("/");
    r.append(kind_dir_name(kind));
    r
}

/// Name of the image file of the ROM `rom_id` with the extension `ext`.
pub fn grid_file_name(rom_id: &str, ext: &str) -> (r: String)
    ensures
        r@ == grid_name(rom_id@, ext@),
{
    let mut r = rom_id.to_owned();
    r.append(".");
    r.append(ext);
    r
}

/// Where the cache at `cache_dir` keeps the image of the ROM `rom_id`.
pub fn grid_file_path(cache_dir: &str, kind: GridKind, rom_id: &str, ext: &str) -> (r: String)
    ensures
        r@ == grid_file(cache_dir@, kind, rom_id@, ext@),
{
    let mut r = grid_dir_path(cache_dir, kind);
    r.append("/");
    let name = grid_file_name(rom_id, ext);
    r.append(name.as_str());
    r
}

/// Whether an upload for `rom_id` replaces the cached file named `name`: its
/// name is the ROM's identifier, letter case of ASCII letters ignored.
pub fn replaces(name: &str, rom_id: &str) -> (r: bool)
    ensures
        r == same_ignoring_ascii_case(name@, rom_id@),
{
    eq_ignore_ascii_case(name, rom_id)
}

/// The body of the reply to an upload of capsules: the thumbnail's file name,
/// a comma, and the full capsule's file name.
pub fn capsule_reply(rom_id: &str, data: &CapsuleUpload) -> (r: String)
    ensures
        r@ == grid_name(rom_id@, data.thumb_capsule_ext@) + ","@ + grid_name(
            rom_id@,
            data.full_capsule_ext@,
        ),
{
    let mut r = grid_file_name(rom_id, data.thumb_capsule_ext.as_str());
    r.append(",");
    let full = grid_file_name(rom_id, data.full_capsule_ext.as_str());
    r.append(full.as_str());
    r
}

/// The body of the reply to an upload of a hero image: its file name.
pub fn hero_reply(rom_id: &str, data: &HeroUpload) -> (r: String)
    ensures
        r@ == grid_name(rom_id@, data.hero_ext@),
{
    grid_file_name(rom_id, data.hero_ext.as_str())
}

} // verus!
