//! What the game database tells about a game, and how its answer is turned
//! into the metadata that the clients show.

use vstd::prelude::*;
use crate::text::{
    chars_of, concat_chars, join, optional_str, optional_text, replace_all, replace_text,
    slice_chars, string_of, string_views,
};

verus! {

/// A platform that a game was released for.
#[derive(Debug, Clone, PartialEq, Eq)]
pub struct IGDBMetadataPlatform {
    pub igdb_id: u64,
    pub name: String,
    pub abbreviation: String,
}

/// A website about a game.
#[derive(Debug, Clone, PartialEq, Eq)]
pub struct IGDBWebsite {
    pub url: String,
    /// What kind of site it is.
    pub site_type: String,
}

/// An age rating of a game.
#[derive(Debug, Clone, PartialEq, Eq)]
pub struct IGDBAgeRating {
    pub rating: String,
    /// The board that gave the rating.
    pub category: String,
    pub rating_cover_url: String,
}

/// A game that belongs to another game.
#[derive(Debug, Clone, PartialEq, Eq)]
pub struct IGDBRelatedGame {
    pub id: u64,
    pub name: String,
    pub slug: String,
    /// How it belongs to the other game.
    pub relation: String,
}

/// The metadata of a game.
#[derive(Debug, Clone, PartialEq, Eq)]
pub struct IGDBMetadata {
    /// The rating by users and critics, with two decimals.
    pub total_rating: String,
    /// The rating by critics, with two decimals.
    pub aggregated_rating: String,
    pub first_release_date: u64,
    pub genres: Vec<String>,
    pub franchises: Vec<String>,
    pub keywords: Vec<String>,
    pub developers: Vec<String>,
    pub publishers: Vec<String>,
    pub game_modes: Vec<String>,
    pub languages: Vec<String>,
    pub age_ratings: Vec<IGDBAgeRating>,
    pub platforms: Vec<IGDBMetadataPlatform>,
    pub dlcs: Vec<IGDBRelatedGame>,
    pub expansions: Vec<IGDBRelatedGame>,
    pub websites: Vec<IGDBWebsite>,
}

/// A game as the clients see it.
#[derive(Debug, Clone, PartialEq, Eq)]
pub struct IGDBRom {
    pub igdb_id: u64,
    pub slug: Option<String>,
    pub name: Option<String>,
    pub summary: Option<String>,
    pub cover_url: Option<String>,
    pub thumb_url: Option<String>,
    pub metadata: Option<IGDBMetadata>,
}

/// One result of a search for a game.
#[derive(Debug, Clone, PartialEq, Eq)]
pub struct IGDBSearchResult {
    pub igdb_id: u64,
    pub name: String,
}

/// An age rating as the table of ratings holds it.
#[derive(Debug, Clone, Copy, PartialEq, Eq)]
pub struct IGDBAgeRatingStatic {
    pub rating: &'static str,
    pub category: &'static str,
    pub rating_cover_url: &'static str,
}

/// The logo of a platform in an answer of the database.
#[derive(Debug, Clone, PartialEq, Eq)]
pub struct IGDBLogoResponse {
    pub url: Option<String>,
}

/// Something with a name in an answer of the database.
#[derive(Debug, Clone, PartialEq, Eq)]
pub struct IGDBNamedResponse {
    pub name: String,
}

/// The cover of a game in an answer of the database.
#[derive(Debug, Clone, PartialEq, Eq)]
pub struct IGDBCoverResponse {
    pub url: Option<String>,
}

/// An age rating in an answer of the database.
#[derive(Debug, Clone, PartialEq, Eq)]
pub struct IGDBAgeRatingResponse {
    pub rating_category: u64,
}

/// A company that took part in a game, in an answer of the database.
#[derive(Debug, Clone, PartialEq, Eq)]
pub struct IGDBInvolvedCompanyResponse {
    pub company: IGDBNamedResponse,
    pub publisher: bool,
    pub developer: bool,
}

/// The name of a language in that language.
#[derive(Debug, Clone, PartialEq, Eq)]
pub struct IGDBNativeLanguageResponse {
    pub native_name: String,
}

/// A language that a game supports, in an answer of the database.
#[derive(Debug, Clone, PartialEq, Eq)]
pub struct IGDBLanguageResponse {
    pub language: IGDBNativeLanguageResponse,
}

/// A game that belongs to another game, in an answer of the database.
#[derive(Debug, Clone, PartialEq, Eq)]
pub struct IGDBRelatedGameResponse {
    pub id: u64,
    pub name: Option<String>,
    pub slug: Option<String>,
}

/// A website about a game, in an answer of the database.
#[derive(Debug, Clone, PartialEq, Eq)]
pub struct IGDBWebsiteResponse {
    pub category: u64,
    pub url: String,
}

/// A platform of a game, in an answer of the database.
#[derive(Debug, Clone, PartialEq, Eq)]
pub struct IGDBPlatformResponse {
    pub id: u64,
    pub name: String,
    pub abbreviation: String,
}

/// The game of a search result, in an answer of the database.
#[derive(Debug, Clone, PartialEq, Eq)]
pub struct IGDBSearchGameResponse {
    pub id: u64,
}

/// One result of a search, in an answer of the database.
#[derive(Debug, Clone, PartialEq, Eq)]
pub struct IGDBSearchResponse {
    pub name: String,
    pub game: IGDBSearchGameResponse,
}

/// The fields that are asked for when a game is looked up.
pub const GAMES_FIELDS: [&'static str; 29] = [
    "id",
    "name",
    "slug",
    "summary",
    "keywords.name",
    "total_rating",
    "aggregated_rating",
    "first_release_date",
    "language_supports.language.native_name",
    "cover.url",
    "platforms.id",
    "platforms.abbreviation",
    "platforms.name",
    "genres.name",
    "franchise.name",
    "franchises.name",
    "game_modes.name",
    "involved_companies.company.name",
    "involved_companies.developer",
    "involved_companies.publisher",
    "dlcs.id",
    "dlcs.slug",
    "dlcs.name",
    "expansions.id",
    "expansions.slug",
    "expansions.name",
    "age_ratings.rating_category",
    "websites.category",
    "websites.url",
];

/// The fields that are asked for when games are searched.
pub const SEARCH_FIELDS: [&'static str; 2] = ["game.id", "name"];

/// The age ratings by the number of their category, which starts at 1: the
/// rating, the board that gives it, and the address of its picture.
pub const IGDB_AGE_RATINGS: [(&'static str, &'static str, &'static str); 36] = [
    ("Three", "PEGI", "https://www.igdb.com/icons/rating_icons/pegi/pegi_3.png"),
    ("Seven", "PEGI", "https://www.igdb.com/icons/rating_icons/pegi/pegi_7.png"),
    ("Twelve", "PEGI", "https://www.igdb.com/icons/rating_icons/pegi/pegi_12.png"),
    ("Sixteen", "PEGI", "https://www.igdb.com/icons/rating_icons/pegi/pegi_16.png"),
    ("Eighteen", "PEGI", "https://www.igdb.com/icons/rating_icons/pegi/pegi_18.png"),
    ("RP", "ESRB", "https://www.igdb.com/icons/rating_icons/esrb/esrb_rp.png"),
    ("EC", "ESRB", "https://www.igdb.com/icons/rating_icons/esrb/esrb_ec.png"),
    ("E", "ESRB", "https://www.igdb.com/icons/rating_icons/esrb/esrb_e.png"),
    ("E10", "ESRB", "https://www.igdb.com/icons/rating_icons/esrb/esrb_e10.png"),
    ("T", "ESRB", "https://www.igdb.com/icons/rating_icons/esrb/esrb_t.png"),
    ("M", "ESRB", "https://www.igdb.com/icons/rating_icons/esrb/esrb_m.png"),
    ("AO", "ESRB", "https://www.igdb.com/icons/rating_icons/esrb/esrb_ao.png"),
    ("CERO_A", "CERO", "https://www.igdb.com/icons/rating_icons/cero/cero_a.png"),
    ("CERO_B", "CERO", "https://www.igdb.com/icons/rating_icons/cero/cero_b.png"),
    ("CERO_C", "CERO", "https://www.igdb.com/icons/rating_icons/cero/cero_c.png"),
    ("CERO_D", "CERO", "https://www.igdb.com/icons/rating_icons/cero/cero_d.png"),
    ("CERO_Z", "CERO", "https://www.igdb.com/icons/rating_icons/cero/cero_z.png"),
    ("USK_0", "USK", "https://www.igdb.com/icons/rating_icons/usk/usk_0.png"),
    ("USK_6", "USK", "https://www.igdb.com/icons/rating_icons/usk/usk_6.png"),
    ("USK_12", "USK", "https://www.igdb.com/icons/rating_icons/usk/usk_12.png"),
    ("USK_16", "USK", "https://www.igdb.com/icons/rating_icons/usk/usk_16.png"),
    ("USK_18", "USK", "https://www.igdb.com/icons/rating_icons/usk/usk_18.png"),
    ("GRAC_ALL", "GRAC", "https://www.igdb.com/icons/rating_icons/grac/grac_all.png"),
    ("GRAC_Twelve", "GRAC", "https://www.igdb.com/icons/rating_icons/grac/grac_12.png"),
    ("GRAC_Fifteen", "GRAC", "https://www.igdb.com/icons/rating_icons/grac/grac_15.png"),
    ("GRAC_Eighteen", "GRAC", "https://www.igdb.com/icons/rating_icons/grac/grac_18.png"),
    ("GRAC_TESTING", "GRAC", "https://www.igdb.com/icons/rating_icons/grac/grac_testing.png"),
    (
        "CLASS_IND_L",
        "CLASS_IND",
        "https://www.igdb.com/icons/rating_icons/class_ind/class_ind_l.png",
    ),
    (
        "CLASS_IND_Ten",
        "CLASS_IND",
        "https://www.igdb.com/icons/rating_icons/class_ind/class_ind_10.png",
    ),
    (
        "CLASS_IND_Twelve",
        "CLASS_IND",
        "https://www.igdb.com/icons/rating_icons/class_ind/class_ind_12.png",
    ),
    ("ACB_G", "ACB", "https://www.igdb.com/icons/rating_icons/acb/acb_g.png"),
    ("ACB_PG", "ACB", "https://www.igdb.com/icons/rating_icons/acb/acb_pg.png"),
    ("ACB_M", "ACB", "https://www.igdb.com/icons/rating_icons/acb/acb_m.png"),
    ("ACB_MA15", "ACB", "https://www.igdb.com/icons/rating_icons/acb/acb_ma15.png"),
    ("ACB_R18", "ACB", "https://www.igdb.com/icons/rating_icons/acb/acb_r18.png"),
    ("ACB_RC", "ACB", "https://www.igdb.com/icons/rating_icons/acb/acb_rc.png"),
];

/// The kinds of website by the number of their category, which starts at 1.
/// The category without a kind has an empty name.
pub const IGDB_WEBSITE_TYPES: [&'static str; 19] = [
    "official",
    "wikia",
    "wikipedia",
    "facebook",
    "twitter",
    "twitch",
    "",
    "instagram",
    "youtube",
    "iphone",
    "ipad",
    "android",
    "steam",
    "reddit",
    "itch",
    "epicgames",
    "gog",
    "discord",
    "bluesky",
];

/// What the database answers when a game is looked up. The two ratings come
/// as text with two decimals.
#[derive(Debug, Clone, PartialEq, Eq)]
pub struct IGDBRomResponse {
    pub id: u64,
    pub slug: Option<String>,
    pub name: Option<String>,
    pub keywords: Option<Vec<IGDBNamedResponse>>,
    pub cover: Option<IGDBCoverResponse>,
    pub summary: Option<String>,
    pub total_rating: Option<String>,
    pub aggregated_rating: Option<String>,
    pub first_release_date: Option<u64>,
    pub genres: Vec<IGDBNamedResponse>,
    pub franchise: Option<IGDBNamedResponse>,
    pub franchises: Option<Vec<IGDBNamedResponse>>,
    pub alternative_names: Option<Vec<IGDBNamedResponse>>,
    pub involved_companies: Option<Vec<IGDBInvolvedCompanyResponse>>,
    pub game_modes: Option<Vec<IGDBNamedResponse>>,
    pub language_supports: Option<Vec<IGDBLanguageResponse>>,
    pub platforms: Option<Vec<IGDBPlatformResponse>>,
    pub age_ratings: Option<Vec<IGDBAgeRatingResponse>>,
    pub expansions: Option<Vec<IGDBRelatedGameResponse>>,
    pub dlcs: Option<Vec<IGDBRelatedGameResponse>>,
    pub websites: Option<Vec<IGDBWebsiteResponse>>,
}

/// The views of a sequence of text slices.
pub open spec fn str_views(v: Seq<&str>) -> Seq<Seq<char>> {
    Seq::new(v.len(), |i: int| v[i]@)
}

/// The names of the fields joined by commas, as the database wants them.
pub fn get_fields(fields: &[&str]) -> (r: String)
    ensures
        r@ == join(str_views(fields@), ','),
{
    let n = fields.len();
    let mut r: Vec<char> = Vec::new();
    let mut i: usize = n;
    let ghost all = str_views(fields@);
    assert(all.skip(n as int) =~= Seq::<Seq<char>>::empty());
    while i > 0
        invariant
            0 <= i <= n,
            n == fields.len(),
            all == str_views(fields@),
            r@ == join(all.skip(i as int), ','),
        decreases i,
    {
        i = i - 1;
        let piece = chars_of(fields[i]);
        proof {
            let tail = all.skip(i as int);
            assert(tail[0] == fields@[i as int]@);
            assert(tail.drop_first() =~= all.skip(i + 1));
        }
        if i + 1 == n {
            r = piece;
        } else {
            let mut head = piece;
            head.push(',');
            r = concat_chars(&head, &r);
            assert(r@ =~= fields@[i as int]@ + seq![','] + join(all.skip(i + 1), ','));
        }
    }
    assert(all.skip(0) =~= all);
    string_of(&r)
}

/// Whether `c` is one of the signs that a search query must not hold: the
/// marks for trademarks, copyright, registered names and service marks, the
/// colon, the full stop and the apostrophe.
pub open spec fn is_special(c: char) -> bool {
    c == '\u{2122}' || c == '\u{00a9}' || c == '\u{00ae}' || c == '\u{2120}' || c == ':' || c == '.'
        || c == '\''
}

/// Whether `c` is white space.
pub open spec fn is_white_space(c: char) -> bool {
    ||| ('\u{0009}' <= c && c <= '\u{000d}')
    ||| c == ' '
    ||| c == '\u{0085}'
    ||| c == '\u{00a0}'
    ||| c == '\u{1680}'
    ||| ('\u{2000}' <= c && c <= '\u{200a}')
    ||| c == '\u{2028}'
    ||| c == '\u{2029}'
    ||| c == '\u{202f}'
    ||| c == '\u{205f}'
    ||| c == '\u{3000}'
}

/// `s` without its special signs.
pub open spec fn without_special(s: Seq<char>) -> Seq<char>
    decreases s.len(),
{
    if s.len() == 0 {
        s
    } else if is_special(s.last()) {
        without_special(s.drop_last())
    } else {
        without_special(s.drop_last()).push(s.last())
    }
}

/// `s` without the white space at its start.
pub open spec fn trimmed_start(s: Seq<char>) -> Seq<char>
    decreases s.len(),
{
    if s.len() > 0 && is_white_space(s[0]) {
        trimmed_start(s.drop_first())
    } else {
        s
    }
}

/// `s` without the white space at its end.
pub open spec fn trimmed_end(s: Seq<char>) -> Seq<char>
    decreases s.len(),
{
    if s.len() > 0 && is_white_space(s.last()) {
        trimmed_end(s.drop_last())
    } else {
        s
    }
}

/// `s` without the white space at its start and at its end.
pub open spec fn trimmed(s: Seq<char>) -> Seq<char> {
    trimmed_end(trimmed_start(s))
}

/// Whether `c` is one of the signs that a search query must not hold.
pub fn special(c: char) -> (r: bool)
    ensures
        r == is_special(c),
{
    c == '\u{2122}' || c == '\u{00a9}' || c == '\u{00ae}' || c == '\u{2120}' || c == ':' || c == '.'
        || c == '\''
}

/// Whether `c` is white space.
pub fn white_space(c: char) -> (r: bool)
    ensures
        r == is_white_space(c),
{
    (c >= '\u{0009}' && c <= '\u{000d}') || c == ' ' || c == '\u{0085}' || c == '\u{00a0}' || c
        == '\u{1680}' || (c >= '\u{2000}' && c <= '\u{200a}') || c == '\u{2028}' || c == '\u{2029}'
        || c == '\u{202f}' || c == '\u{205f}' || c == '\u{3000}'
}

/// `s` without the white space at its start and at its end.
pub fn trim_chars(s: &Vec<char>) -> (r: Vec<char>)
    ensures
        r@ == trimmed(s@),
{
    let mut from: usize = 0;
    assert(s@.skip(0) =~= s@);
    while from < s.len() && white_space(s[from])
        invariant
            0 <= from <= s.len(),
            trimmed_start(s@) == trimmed_start(s@.skip(from as int)),
        decreases s.len() - from,
    {
        proof {
            assert(s@.skip(from as int)[0] == s@[from as int]);
            assert(s@.skip(from as int).drop_first() =~= s@.skip(from + 1));
        }
        from = from + 1;
    }
    proof {
        if from < s.len() {
            assert(s@.skip(from as int)[0] == s@[from as int]);
        }
    }
    let ghost rest = s@.skip(from as int);
    assert(trimmed_start(s@) == rest);
    let mut to: usize = s.len();
    assert(rest.take(rest.len() as int) =~= rest);
    while to > from && white_space(s[to - 1])
        invariant
            from <= to <= s.len(),
            rest == s@.skip(from as int),
            trimmed_end(rest) == trimmed_end(rest.take(to - from)),
        decreases to,
    {
        proof {
            assert(rest.take(to - from).last() == s@[to - 1]);
            assert(rest.take(to - from).drop_last() =~= rest.take(to - from - 1));
        }
        to = to - 1;
    }
    proof {
        if to > from {
            assert(rest.take(to - from).last() == s@[to - 1]);
        }
        assert(rest.take(to - from) =~= s@.subrange(from as int, to as int));
    }
    slice_chars(s, from, to)
}

/// The search query for the title `query`: the title without its special
/// signs and without white space around it.
pub fn remove_special_chars(query: &str) -> (r: String)
    ensures
        r@ == trimmed(without_special(query@)),
{
    let chars = chars_of(query);
    let mut kept: Vec<char> = Vec::new();
    let mut i: usize = 0;
    assert(chars@.take(0) =~= Seq::<char>::empty());
    while i < chars.len()
        invariant
            0 <= i <= chars.len(),
            kept@ == without_special(chars@.take(i as int)),
        decreases chars.len() - i,
    {
        proof {
            assert(chars@.take(i + 1).drop_last() =~= chars@.take(i as int));
            assert(chars@.take(i + 1).last() == chars@[i as int]);
        }
        if !special(chars[i]) {
            kept.push(chars[i]);
        }
        i = i + 1;
    }
    assert(chars@.take(chars.len() as int) =~= chars@);
    let r = trim_chars(&kept);
    string_of(&r)
}

/// The names of a sequence of named things.
pub open spec fn names(list: Seq<IGDBNamedResponse>) -> Seq<Seq<char>> {
    Seq::new(list.len(), |i: int| list[i].name@)
}

/// The names of the things in `list`, in order.
pub fn map_to_name(list: &Vec<IGDBNamedResponse>) -> (r: Vec<String>)
    ensures
        string_views(r@) == names(list@),
{
    let mut r: Vec<String> = Vec::new();
    let mut i: usize = 0;
    while i < list.len()
        invariant
            0 <= i <= list.len(),
            r.len() == i,
            forall|k: int| 0 <= k < i ==> r[k]@ == list[k].name@,
        decreases list.len() - i,
    {
        r.push(list[i].name.clone());
        i = i + 1;
    }
    assert(string_views(r@) =~= names(list@));
    r
}

/// The text of an optional text; nothing for none.
pub open spec fn text_or_empty(o: Option<String>) -> Seq<char> {
    match o {
        Some(t) => t@,
        None => Seq::empty(),
    }
}

/// Whether `game` is what `answer` says of a related game, with the relation
/// `relation`: the same number, the name and the slug where the answer has
/// them, nothing where it has not.
pub open spec fn relates(
    game: IGDBRelatedGame,
    answer: IGDBRelatedGameResponse,
    relation: Seq<char>,
) -> bool {
    &&& game.id == answer.id
    &&& game.name@ == text_or_empty(answer.name)
    &&& game.slug@ == text_or_empty(answer.slug)
    &&& game.relation@ == relation
}

/// A copy of the text of an optional text.
fn clone_or_empty(o: &Option<String>) -> (r: String)
    ensures
        r@ == text_or_empty(*o),
{
    match o {
        Some(t) => t.clone(),
        None => String::new(),
    }
}

/// The related games that the answers of the database tell of, each with the
/// relation `relation_type`.
pub fn map_to_related_game(games: &Vec<IGDBRelatedGameResponse>, relation_type: &str) -> (r: Vec<
    IGDBRelatedGame,
>)
    ensures
        r.len() == games.len(),
        forall|i: int| 0 <= i < r.len() ==> relates(#[trigger] r[i], games[i], relation_type@),
{
    let mut r: Vec<IGDBRelatedGame> = Vec::new();
    let mut i: usize = 0;
    while i < games.len()
        invariant
            0 <= i <= games.len(),
            r.len() == i,
            forall|k: int| 0 <= k < i ==> relates(#[trigger] r[k], games[k], relation_type@),
        decreases games.len() - i,
    {
        let game = &games[i];
        r.push(
            IGDBRelatedGame {
                id: game.id,
                name: clone_or_empty(&game.name),
                slug: clone_or_empty(&game.slug),
                relation: relation_type.to_owned(),
            },
        );
        i = i + 1;
    }
    r
}

impl IGDBAgeRatingStatic {
    /// The rating as the clients see it.
    pub fn to_rating(self) -> (r: IGDBAgeRating)
        ensures
            r.rating@ == self.rating@,
            r.category@ == self.category@,
            r.rating_cover_url@ == self.rating_cover_url@,
    {
        IGDBAgeRating {
            rating: String::from_str(self.rating),
            category: String::from_str(self.category),
            rating_cover_url: String::from_str(self.rating_cover_url),
        }
    }
}

/// Whether the table of age ratings has a row for the category `category`.
pub open spec fn rated(category: u64) -> bool {
    1 <= category <= 36
}

/// The age rating of the category `category`, if the table has it.
pub fn age_rating(category: u64) -> (r: Option<IGDBAgeRatingStatic>)
    ensures
        r is Some <==> rated(category),
        r is Some ==> r->0.rating@ == IGDB_AGE_RATINGS[category - 1].0@ && r->0.category@
            == IGDB_AGE_RATINGS[category - 1].1@ && r->0.rating_cover_url@
            == IGDB_AGE_RATINGS[category - 1].2@,
{
    if category >= 1 && category <= 36 {
        let row = IGDB_AGE_RATINGS[(category - 1) as usize];
        Some(IGDBAgeRatingStatic { rating: row.0, category: row.1, rating_cover_url: row.2 })
    } else {
        None
    }
}

/// The kind of website of the category `category`, if the table has it.
pub open spec fn site_kind(category: u64) -> Option<Seq<char>> {
    if 1 <= category <= 19 && IGDB_WEBSITE_TYPES[category - 1]@.len() > 0 {
        Some(IGDB_WEBSITE_TYPES[category - 1]@)
    } else {
        None
    }
}

/// The kind of website of the category `category`, if the table has it.
pub fn website_type(category: u64) -> (r: Option<&'static str>)
    ensures
        optional_str(r) == site_kind(category),
{
    if category >= 1 && category <= 19 {
        let kind = IGDB_WEBSITE_TYPES[(category - 1) as usize];
        if kind.is_empty() {
            None
        } else {
            Some(kind)
        }
    } else {
        None
    }
}

/// The body of a search for games named like `query` on the platform
/// `platform_id`.
pub open spec fn search_query(fields: Seq<char>, platform_id: Seq<char>, query: Seq<char>) -> Seq<
    char,
> {
    "fields "@ + fields + "; where game.platforms=["@ + platform_id
        + "] & game.category=(0,8,9,10,11) & (name ~ *\""@ + query + "\"* | alternative_name ~ *\""@
        + query + "\"*);"@
}

/// The body of the lookup of the game with the number `igdb_id`.
pub open spec fn metadata_query(fields: Seq<char>, igdb_id: Seq<char>) -> Seq<char> {
    "fields "@ + fields + "; where id="@ + igdb_id + ";"@
}

/// The body of a search for games whose title is `query` on the platform
/// `igdb_platform_id`: the title is cleaned before it is put into the body.
pub fn search_body(query: &str, igdb_platform_id: &str) -> (r: String)
    ensures
        r@ == search_query(
            join(str_views(SEARCH_FIELDS@), ','),
            igdb_platform_id@,
            trimmed(without_special(query@)),
        ),
{
    let cleaned = remove_special_chars(query);
    let fields = get_fields(&SEARCH_FIELDS);
    let mut r = String::from_str("fields ");
    r.append(fields.as_str());
    r.append("; where game.platforms=[");
    r.append(igdb_platform_id);
    r.append("] & game.category=(0,8,9,10,11) & (name ~ *\"");
    r.append(cleaned.as_str());
    r.append("\"* | alternative_name ~ *\"");
    r.append(cleaned.as_str());
    r.append("\"*);");
    r
}

/// The body of the lookup of the game with the number `igdb_id`.
pub fn metadata_body(igdb_id: &str) -> (r: String)
    ensures
        r@ == metadata_query(join(str_views(GAMES_FIELDS@), ','), igdb_id@),
{
    let fields = get_fields(&GAMES_FIELDS);
    let mut r = String::from_str("fields ");
    r.append(fields.as_str());
    r.append("; where id=");
    r.append(igdb_id);
    r.append(";");
    r
}

/// The results of a search as the clients see them.
pub fn search_results(results: &Vec<IGDBSearchResponse>) -> (r: Vec<IGDBSearchResult>)
    ensures
        r.len() == results.len(),
        forall|i: int|
            0 <= i < r.len() ==> (#[trigger] r[i]).igdb_id == results[i].game.id && r[i].name@
                == results[i].name@,
{
    let mut r: Vec<IGDBSearchResult> = Vec::new();
    let mut i: usize = 0;
    while i < results.len()
        invariant
            0 <= i <= results.len(),
            r.len() == i,
            forall|k: int|
                0 <= k < i ==> (#[trigger] r[k]).igdb_id == results[k].game.id && r[k].name@
                    == results[k].name@,
        decreases results.len() - i,
    {
        r.push(IGDBSearchResult { igdb_id: results[i].game.id, name: results[i].name.clone() });
        i = i + 1;
    }
    r
}

/// Whether a token that was fetched at `last_checked` and lasts `expires_in`
/// seconds is over at `now`.
pub fn token_expired(now: u64, expires_in: u64, last_checked: u64) -> (r: bool)
    ensures
        r == (now > expires_in + last_checked),
{
    if expires_in > u64::MAX - last_checked {
        false
    } else {
        now > expires_in + last_checked
    }
}

/// The address of the cover in full size, made from the address of its
/// thumbnail.
pub fn cover_url_of(thumb_url: &str) -> (r: String)
    ensures
        r@ == replace_text(thumb_url@, "t_thumb"@, "t_1080p"@),
{
    let chars = chars_of(thumb_url);
    let from = chars_of("t_thumb");
    let to = chars_of("t_1080p");
    let r = replace_all(&chars, &from, &to);
    string_of(&r)
}

/// The elements of an optional list; none for no list.
pub open spec fn list_or_empty<T>(o: Option<Vec<T>>) -> Seq<T> {
    match o {
        Some(v) => v@,
        None => Seq::empty(),
    }
}

/// The franchises of a game: its main franchise, if it has one, then the
/// others.
pub open spec fn franchises_of(rom: IGDBRomResponse) -> Seq<Seq<char>> {
    (match rom.franchise {
        Some(f) => seq![f.name@],
        None => Seq::empty(),
    }) + names(list_or_empty(rom.franchises))
}

/// The names of the companies that developed a game.
pub open spec fn developers_of(companies: Seq<IGDBInvolvedCompanyResponse>) -> Seq<Seq<char>>
    decreases companies.len(),
{
    if companies.len() == 0 {
        Seq::empty()
    } else if companies.last().developer {
        developers_of(companies.drop_last()).push(companies.last().company.name@)
    } else {
        developers_of(companies.drop_last())
    }
}

/// The names of the companies that published a game without developing it.
pub open spec fn publishers_of(companies: Seq<IGDBInvolvedCompanyResponse>) -> Seq<Seq<char>>
    decreases companies.len(),
{
    if companies.len() == 0 {
        Seq::empty()
    } else if !companies.last().developer && companies.last().publisher {
        publishers_of(companies.drop_last()).push(companies.last().company.name@)
    } else {
        publishers_of(companies.drop_last())
    }
}

/// The names of the languages of a game, each in its own language.
pub open spec fn languages_of(languages: Seq<IGDBLanguageResponse>) -> Seq<Seq<char>> {
    Seq::new(languages.len(), |i: int| languages[i].language.native_name@)
}

/// The age ratings of a game that the table of ratings knows: of each the
/// rating, the board, and the address of the picture.
pub open spec fn ratings_of(answers: Seq<IGDBAgeRatingResponse>) -> Seq<
    (Seq<char>, Seq<char>, Seq<char>),
>
    decreases answers.len(),
{
    if answers.len() == 0 {
        Seq::empty()
    } else if rated(answers.last().rating_category) {
        ratings_of(answers.drop_last()).push(
            (
                IGDB_AGE_RATINGS[answers.last().rating_category - 1].0@,
                IGDB_AGE_RATINGS[answers.last().rating_category - 1].1@,
                IGDB_AGE_RATINGS[answers.last().rating_category - 1].2@,
            ),
        )
    } else {
        ratings_of(answers.drop_last())
    }
}

/// The websites of a game whose kind the table of kinds knows: of each the
/// address and the kind.
pub open spec fn websites_of(answers: Seq<IGDBWebsiteResponse>) -> Seq<(Seq<char>, Seq<char>)>
    decreases answers.len(),
{
    if answers.len() == 0 {
        Seq::empty()
    } else {
        match site_kind(answers.last().category) {
            Some(kind) => websites_of(answers.drop_last()).push((answers.last().url@, kind)),
            None => websites_of(answers.drop_last()),
        }
    }
}

/// What a sequence of age ratings holds, as mathematical values.
pub open spec fn rating_views(v: Seq<IGDBAgeRating>) -> Seq<(Seq<char>, Seq<char>, Seq<char>)> {
    Seq::new(v.len(), |i: int| (v[i].rating@, v[i].category@, v[i].rating_cover_url@))
}

/// What a sequence of websites holds, as mathematical values.
pub open spec fn website_views(v: Seq<IGDBWebsite>) -> Seq<(Seq<char>, Seq<char>)> {
    Seq::new(v.len(), |i: int| (v[i].url@, v[i].site_type@))
}

/// What a sequence of platforms holds, as mathematical values.
pub open spec fn platform_views(v: Seq<IGDBMetadataPlatform>) -> Seq<(u64, Seq<char>, Seq<char>)> {
    Seq::new(v.len(), |i: int| (v[i].igdb_id, v[i].name@, v[i].abbreviation@))
}

/// What a sequence of platforms in an answer holds, as mathematical values.
pub open spec fn platform_answers(
    v: Seq<IGDBPlatformResponse>,
) -> Seq<(u64, Seq<char>, Seq<char>)> {
    Seq::new(v.len(), |i: int| (v[i].id, v[i].name@, v[i].abbreviation@))
}

/// The names of the companies that developed a game.
pub fn developers(companies: &Vec<IGDBInvolvedCompanyResponse>) -> (r: Vec<String>)
    ensures
        string_views(r@) == developers_of(companies@),
{
    let mut r: Vec<String> = Vec::new();
    let mut i: usize = 0;
    assert(companies@.take(0) =~= Seq::<IGDBInvolvedCompanyResponse>::empty());
    assert(string_views(r@) =~= Seq::<Seq<char>>::empty());
    while i < companies.len()
        invariant
            0 <= i <= companies.len(),
            string_views(r@) == developers_of(companies@.take(i as int)),
        decreases companies.len() - i,
    {
        proof {
            assert(companies@.take(i + 1).drop_last() =~= companies@.take(i as int));
            assert(companies@.take(i + 1).last() == companies@[i as int]);
        }
        if companies[i].developer {
            let name = companies[i].company.name.clone();
            proof {
                assert(string_views(r@.push(name)) =~= string_views(r@).push(name@));
            }
            r.push(name);
        }
        i = i + 1;
    }
    assert(companies@.take(companies.len() as int) =~= companies@);
    r
}

/// The names of the companies that published a game without developing it.
pub fn publishers(companies: &Vec<IGDBInvolvedCompanyResponse>) -> (r: Vec<String>)
    ensures
        string_views(r@) == publishers_of(companies@),
{
    let mut r: Vec<String> = Vec::new();
    let mut i: usize = 0;
    assert(companies@.take(0) =~= Seq::<IGDBInvolvedCompanyResponse>::empty());
    assert(string_views(r@) =~= Seq::<Seq<char>>::empty());
    while i < companies.len()
        invariant
            0 <= i <= companies.len(),
            string_views(r@) == publishers_of(companies@.take(i as int)),
        decreases companies.len() - i,
    {
        proof {
            assert(companies@.take(i + 1).drop_last() =~= companies@.take(i as int));
            assert(companies@.take(i + 1).last() == companies@[i as int]);
        }
        if !companies[i].developer && companies[i].publisher {
            let name = companies[i].company.name.clone();
            proof {
                assert(string_views(r@.push(name)) =~= string_views(r@).push(name@));
            }
            r.push(name);
        }
        i = i + 1;
    }
    assert(companies@.take(companies.len() as int) =~= companies@);
    r
}

/// The names of the languages of a game.
pub fn languages(supports: &Vec<IGDBLanguageResponse>) -> (r: Vec<String>)
    ensures
        string_views(r@) == languages_of(supports@),
{
    let mut r: Vec<String> = Vec::new();
    let mut i: usize = 0;
    while i < supports.len()
        invariant
            0 <= i <= supports.len(),
            r.len() == i,
            forall|k: int| 0 <= k < i ==> r[k]@ == supports[k].language.native_name@,
        decreases supports.len() - i,
    {
        r.push(supports[i].language.native_name.clone());
        i = i + 1;
    }
    assert(string_views(r@) =~= languages_of(supports@));
    r
}

/// The platforms of a game as the clients see them.
pub fn platforms(answers: &Vec<IGDBPlatformResponse>) -> (r: Vec<IGDBMetadataPlatform>)
    ensures
        platform_views(r@) == platform_answers(answers@),
{
    let mut r: Vec<IGDBMetadataPlatform> = Vec::new();
    let mut i: usize = 0;
    while i < answers.len()
        invariant
            0 <= i <= answers.len(),
            r.len() == i,
            forall|k: int|
                0 <= k < i ==> r[k].igdb_id == answers[k].id && r[k].name@ == answers[k].name@
                    && r[k].abbreviation@ == answers[k].abbreviation@,
        decreases answers.len() - i,
    {
        r.push(
            IGDBMetadataPlatform {
                igdb_id: answers[i].id,
                name: answers[i].name.clone(),
                abbreviation: answers[i].abbreviation.clone(),
            },
        );
        i = i + 1;
    }
    assert(platform_views(r@) =~= platform_answers(answers@));
    r
}

/// The age ratings of a game that the table of ratings knows.
pub fn age_ratings(answers: &Vec<IGDBAgeRatingResponse>) -> (r: Vec<IGDBAgeRating>)
    ensures
        rating_views(r@) == ratings_of(answers@),
{
    let mut r: Vec<IGDBAgeRating> = Vec::new();
    let mut i: usize = 0;
    assert(answers@.take(0) =~= Seq::<IGDBAgeRatingResponse>::empty());
    assert(rating_views(r@) =~= Seq::<(Seq<char>, Seq<char>, Seq<char>)>::empty());
    while i < answers.len()
        invariant
            0 <= i <= answers.len(),
            rating_views(r@) == ratings_of(answers@.take(i as int)),
        decreases answers.len() - i,
    {
        proof {
            assert(answers@.take(i + 1).drop_last() =~= answers@.take(i as int));
            assert(answers@.take(i + 1).last() == answers@[i as int]);
        }
        match age_rating(answers[i].rating_category) {
            Some(row) => {
                let rating = row.to_rating();
                proof {
                    assert(rating_views(r@.push(rating)) =~= rating_views(r@).push(
                        (rating.rating@, rating.category@, rating.rating_cover_url@),
                    ));
                }
                r.push(rating);
            },
            None => {},
        }
        i = i + 1;
    }
    assert(answers@.take(answers.len() as int) =~= answers@);
    r
}

/// The websites of a game whose kind the table of kinds knows.
pub fn websites(answers: &Vec<IGDBWebsiteResponse>) -> (r: Vec<IGDBWebsite>)
    ensures
        website_views(r@) == websites_of(answers@),
{
    let mut r: Vec<IGDBWebsite> = Vec::new();
    let mut i: usize = 0;
    assert(answers@.take(0) =~= Seq::<IGDBWebsiteResponse>::empty());
    assert(website_views(r@) =~= Seq::<(Seq<char>, Seq<char>)>::empty());
    while i < answers.len()
        invariant
            0 <= i <= answers.len(),
            website_views(r@) == websites_of(answers@.take(i as int)),
        decreases answers.len() - i,
    {
        proof {
            assert(answers@.take(i + 1).drop_last() =~= answers@.take(i as int));
            assert(answers@.take(i + 1).last() == answers@[i as int]);
        }
        match website_type(answers[i].category) {
            Some(kind) => {
                let site = IGDBWebsite {
                    url: answers[i].url.clone(),
                    site_type: String::from_str(kind),
                };
                proof {
                    assert(website_views(r@.push(site)) =~= website_views(r@).push(
                        (site.url@, site.site_type@),
                    ));
                }
                r.push(site);
            },
            None => {},
        }
        i = i + 1;
    }
    assert(answers@.take(answers.len() as int) =~= answers@);
    r
}

/// The rating where there is one, or else a rating of zero.
fn rating_text(rating: &Option<String>) -> (r: String)
    ensures
        r@ == (match *rating {
            Some(t) => t@,
            None => "0.00"@,
        }),
{
    match rating {
        Some(t) => t.clone(),
        None => String::from_str("0.00"),
    }
}

/// Whether `m` is the metadata that the answer `rom` of the database gives:
/// every list in the order of the answer, and what the answer leaves out
/// empty, or zero for the ratings and the date.
pub open spec fn describes(m: IGDBMetadata, rom: IGDBRomResponse) -> bool {
    &&& m.total_rating@ == (match rom.total_rating {
        Some(t) => t@,
        None => "0.00"@,
    })
    &&& m.aggregated_rating@ == (match rom.aggregated_rating {
        Some(t) => t@,
        None => "0.00"@,
    })
    &&& m.first_release_date == (match rom.first_release_date {
        Some(d) => d,
        None => 0,
    })
    &&& string_views(m.genres@) == names(rom.genres@)
    &&& string_views(m.franchises@) == franchises_of(rom)
    &&& string_views(m.game_modes@) == names(list_or_empty(rom.game_modes))
    &&& string_views(m.keywords@) == names(list_or_empty(rom.keywords))
    &&& string_views(m.developers@) == developers_of(list_or_empty(rom.involved_companies))
    &&& string_views(m.publishers@) == publishers_of(list_or_empty(rom.involved_companies))
    &&& platform_views(m.platforms@) == platform_answers(list_or_empty(rom.platforms))
    &&& string_views(m.languages@) == languages_of(list_or_empty(rom.language_supports))
    &&& rating_views(m.age_ratings@) == ratings_of(list_or_empty(rom.age_ratings))
    &&& m.dlcs.len() == list_or_empty(rom.dlcs).len()
    &&& forall|i: int|
        0 <= i < m.dlcs.len() ==> relates(#[trigger] m.dlcs[i], list_or_empty(rom.dlcs)[i], "dlc"@)
    &&& m.expansions.len() == list_or_empty(rom.expansions).len()
    &&& forall|i: int|
        0 <= i < m.expansions.len() ==> relates(
            #[trigger] m.expansions[i],
            list_or_empty(rom.expansions)[i],
            "expansion"@,
        )
    &&& website_views(m.websites@) == websites_of(list_or_empty(rom.websites))
}

/// The metadata of a game, made from what the database answered.
pub fn extract_metadata_from_response(rom: &IGDBRomResponse) -> (m: IGDBMetadata)
    ensures
        describes(m, *rom),
{
    let none_named: Vec<IGDBNamedResponse> = Vec::new();
    let none_related: Vec<IGDBRelatedGameResponse> = Vec::new();
    let mut franchises: Vec<String> = Vec::new();
    match &rom.franchise {
        Some(f) => {
            franchises.push(f.name.clone());
        },
        None => {},
    }
    let ghost first = string_views(franchises@);
    let mut others = match &rom.franchises {
        Some(list) => map_to_name(list),
        None => Vec::new(),
    };
    let ghost more = string_views(others@);
    franchises.append(&mut others);
    proof {
        assert(string_views(franchises@) =~= first + more);
        assert(more =~= names(list_or_empty(rom.franchises)));
        assert(first =~= (match rom.franchise {
            Some(f) => seq![f.name@],
            None => Seq::empty(),
        }));
    }
    let game_modes = match &rom.game_modes {
        Some(list) => map_to_name(list),
        None => map_to_name(&none_named),
    };
    let keywords = match &rom.keywords {
        Some(list) => map_to_name(list),
        None => map_to_name(&none_named),
    };
    let companies: Vec<IGDBInvolvedCompanyResponse> = Vec::new();
    let (developers, publishers) = match &rom.involved_companies {
        Some(list) => (developers(list), publishers(list)),
        None => (developers(&companies), publishers(&companies)),
    };
    let no_platforms: Vec<IGDBPlatformResponse> = Vec::new();
    let platforms = match &rom.platforms {
        Some(list) => platforms(list),
        None => platforms(&no_platforms),
    };
    let no_languages: Vec<IGDBLanguageResponse> = Vec::new();
    let languages = match &rom.language_supports {
        Some(list) => languages(list),
        None => languages(&no_languages),
    };
    let no_ratings: Vec<IGDBAgeRatingResponse> = Vec::new();
    let age_ratings = match &rom.age_ratings {
        Some(list) => age_ratings(list),
        None => age_ratings(&no_ratings),
    };
    let no_sites: Vec<IGDBWebsiteResponse> = Vec::new();
    let websites = match &rom.websites {
        Some(list) => websites(list),
        None => websites(&no_sites),
    };
    let dlcs = match &rom.dlcs {
        Some(list) => map_to_related_game(list, "dlc"),
        None => map_to_related_game(&none_related, "dlc"),
    };
    let expansions = match &rom.expansions {
        Some(list) => map_to_related_game(list, "expansion"),
        None => map_to_related_game(&none_related, "expansion"),
    };
    IGDBMetadata {
        total_rating: rating_text(&rom.total_rating),
        aggregated_rating: rating_text(&rom.aggregated_rating),
        first_release_date: match rom.first_release_date {
            Some(d) => d,
            None => 0,
        },
        genres: map_to_name(&rom.genres),
        franchises,
        keywords,
        developers,
        publishers,
        game_modes,
        languages,
        age_ratings,
        platforms,
        dlcs,
        expansions,
        websites,
    }
}

/// A copy of an optional text.
fn clone_optional(o: &Option<String>) -> (r: Option<String>)
    ensures
        optional_text(r) == optional_text(*o),
{
    match o {
        Some(t) => Some(t.clone()),
        None => None,
    }
}

/// The address of the thumbnail of a game's cover; empty where the answer
/// has none.
pub open spec fn thumb_of(rom: IGDBRomResponse) -> Seq<char> {
    match rom.cover {
        Some(cover) => text_or_empty(cover.url),
        None => Seq::empty(),
    }
}

/// The game that the database found, as the clients see it. Where it found
/// none, the game has the number 0 and nothing else.
pub fn rom_from_response(roms: &Vec<IGDBRomResponse>) -> (r: IGDBRom)
    ensures
        roms.len() == 0 ==> r.igdb_id == 0 && r.slug is None && r.name is None && r.summary is None
            && r.cover_url is None && r.thumb_url is None && r.metadata is None,
        roms.len() > 0 ==> r.igdb_id == roms[0].id && optional_text(r.slug) == optional_text(
            roms[0].slug,
        ) && optional_text(r.name) == optional_text(roms[0].name) && optional_text(r.summary)
            == optional_text(roms[0].summary) && optional_text(r.thumb_url) == Some(
            thumb_of(roms[0]),
        ) && optional_text(r.cover_url) == Some(
            replace_text(thumb_of(roms[0]), "t_thumb"@, "t_1080p"@),
        ) && r.metadata is Some && describes(r.metadata->0, roms[0]),
{
    if roms.len() == 0 {
        return IGDBRom {
            igdb_id: 0,
            slug: None,
            name: None,
            summary: None,
            cover_url: None,
            thumb_url: None,
            metadata: None,
        };
    }
    let rom = &roms[0];
    let thumb_url = match &rom.cover {
        Some(cover) => clone_or_empty(&cover.url),
        None => String::new(),
    };
    let cover_url = cover_url_of(thumb_url.as_str());
    IGDBRom {
        igdb_id: rom.id,
        slug: clone_optional(&rom.slug),
        name: clone_optional(&rom.name),
        summary: clone_optional(&rom.summary),
        cover_url: Some(cover_url),
        thumb_url: Some(thumb_url),
        metadata: Some(extract_metadata_from_response(rom)),
    }
}

} // verus!
