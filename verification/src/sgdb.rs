//! What the artwork database tells about a game's images, and how its answer
//! is turned into what the clients see.

use vstd::prelude::*;
use crate::text::{
    chars_of, contains_text, decimal, decimal_text, digits_of, find_text, parse_u64, string_of,
};

verus! {

/// A game in the artwork database.
#[derive(Debug, Clone, PartialEq, Eq)]
pub struct SGDBGame {
    pub id: u64,
    pub name: String,
    pub types: Vec<String>,
    pub verified: bool,
}

/// Who made an image.
#[derive(Debug, Clone, PartialEq, Eq)]
pub struct SGDBAuthor {
    pub name: String,
    pub steam64: String,
    pub avatar: String,
}

/// An image of a game.
#[derive(Debug, Clone, PartialEq, Eq)]
pub struct SGDBImage {
    pub author: SGDBAuthor,
    pub id: u64,
    pub url: String,
    pub thumb: String,
    pub width: u64,
    pub height: u64,
    pub language: String,
    pub style: String,
    pub mime: String,
    pub humor: bool,
    pub epilepsy: bool,
    pub nsfw: bool,
    pub notes: Option<String>,
    /// Whether the image moves.
    pub is_animated: bool,
    pub downvotes: u64,
    pub upvotes: u64,
    pub lock: bool,
}

/// One page of the images of a game.
#[derive(Debug, Clone, PartialEq, Eq)]
pub struct GridResults {
    pub images: Vec<SGDBImage>,
    pub page: u64,
    pub total: u64,
}

/// What `urlencoding::encode` makes of `text`.
pub uninterp spec fn url_encoded(text: Seq<char>) -> Seq<char>;

/// Calls `urlencoding::encode`, which writes every byte that is no letter, no
/// digit and none of `-`, `_`, `.`, `~` as a percent sign and two digits.
#[verifier::external_body]
fn url_encode(text: &str) -> (r: String)
    ensures
        r@ == url_encoded(text@),
{
    urlencoding::encode(text).into_owned()
}

/// Whether an image moves where its record does not say so: it does not.
pub fn default_animated() -> (r: bool)
    ensures
        !r,
{
    false
}

/// Whether the image with the thumbnail at `thumb` moves: the thumbnail of a
/// moving image is a WebM video.
pub fn is_animated(thumb: &str) -> (r: bool)
    ensures
        r == contains_text(thumb@, ".webm"@),
{
    let chars = chars_of(thumb);
    let pattern = chars_of(".webm");
    find_text(&chars, &pattern)
}

/// Marks the images that move, by their thumbnails, and leaves everything
/// else of them as it is.
pub fn mark_animated(images: &mut Vec<SGDBImage>)
    ensures
        final(images).len() == old(images).len(),
        forall|i: int|
            0 <= i < old(images).len() ==> (#[trigger] final(images)[i]) == (SGDBImage {
                is_animated: contains_text(old(images)[i].thumb@, ".webm"@),
                ..old(images)[i]
            }),
{
    let mut i: usize = 0;
    while i < images.len()
        invariant
            0 <= i <= images.len(),
            images.len() == old(images).len(),
            forall|k: int|
                0 <= k < i ==> (#[trigger] images[k]) == (SGDBImage {
                    is_animated: contains_text(old(images)[k].thumb@, ".webm"@),
                    ..old(images)[k]
                }),
            forall|k: int| i <= k < images.len() ==> images[k] == old(images)[k],
        decreases images.len() - i,
    {
        let moves = is_animated(images[i].thumb.as_str());
        images[i].is_animated = moves;
        i = i + 1;
    }
}

/// The page of results that the clients see: the images of the answer, with
/// those marked that move.
pub fn grid_results(images: Vec<SGDBImage>, page: u64, total: u64) -> (r: GridResults)
    ensures
        r.page == page,
        r.total == total,
        r.images.len() == images.len(),
        forall|i: int|
            0 <= i < images.len() ==> (#[trigger] r.images[i]) == (SGDBImage {
                is_animated: contains_text(images[i].thumb@, ".webm"@),
                ..images[i]
            }),
{
    let mut images = images;
    mark_animated(&mut images);
    GridResults { images, page, total }
}

/// The path of the search for games named like `query`.
pub fn search_path(query: &str) -> (r: String)
    ensures
        r@ == "/search/autocomplete/"@ + url_encoded(query@),
{
    let encoded = url_encode(query);
    let mut r = String::from_str("/search/autocomplete/");
    r.append(encoded.as_str());
    r
}

/// The path of the images of the game with the number `id`.
pub fn grids_path(id: u64) -> (r: String)
    ensures
        r@ == "/grids/game/"@ + digits_of(id as nat),
{
    let digits = decimal_text(id);
    let text = string_of(&digits);
    let mut r = String::from_str("/grids/game/");
    r.append(text.as_str());
    r
}

/// What is asked of the database together with the images of a game: images
/// of every kind, still and moving, on the page `page`.
pub fn grid_params(page: u16) -> (r: Vec<(String, String)>)
    ensures
        r.len() == 5,
        r[0].0@ == "types"@ && r[0].1@ == "static,animated"@,
        r[1].0@ == "nsfw"@ && r[1].1@ == "any"@,
        r[2].0@ == "humor"@ && r[2].1@ == "any"@,
        r[3].0@ == "epilepsy"@ && r[3].1@ == "any"@,
        r[4].0@ == "page"@ && r[4].1@ == digits_of(page as nat),
{
    let digits = decimal_text(page as u64);
    let mut r: Vec<(String, String)> = Vec::new();
    r.push((String::from_str("types"), String::from_str("static,animated")));
    r.push((String::from_str("nsfw"), String::from_str("any")));
    r.push((String::from_str("humor"), String::from_str("any")));
    r.push((String::from_str("epilepsy"), String::from_str("any")));
    r.push((String::from_str("page"), string_of(&digits)));
    r
}

/// The game and the page that a request for images names: both have to be
/// decimal numbers, and the page has to fit in 16 bits.
pub open spec fn grid_request(sgdb_id: Seq<char>, results_page: Seq<char>) -> Option<(u64, u16)> {
    match (decimal(sgdb_id), decimal(results_page)) {
        (Some(id), Some(page)) => if page <= u16::MAX {
            Some((id, page as u16))
        } else {
            None
        },
        _ => None,
    }
}

/// Reads the game and the page that a request for images names.
pub fn parse_grid_request(sgdb_id: &str, results_page: &str) -> (r: Option<(u64, u16)>)
    ensures
        r == grid_request(sgdb_id@, results_page@),
{
    let id = match parse_u64(&chars_of(sgdb_id)) {
        Some(id) => id,
        None => {
            return None;
        },
    };
    let page = match parse_u64(&chars_of(results_page)) {
        Some(page) => page,
        None => {
            return None;
        },
    };
    if page <= u16::MAX as u64 {
        Some((id, page as u16))
    } else {
        None
    }
}

} // verus!
