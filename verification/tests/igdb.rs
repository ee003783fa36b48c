use nas_rom_manager::igdb::{
    age_rating, age_ratings, cover_url_of, developers, extract_metadata_from_response, get_fields,
    languages, map_to_name, map_to_related_game, metadata_body, platforms, publishers,
    remove_special_chars, rom_from_response, search_body, search_results, special, token_expired,
    trim_chars, website_type, websites, white_space, IGDBAgeRating, IGDBAgeRatingResponse,
    IGDBAgeRatingStatic, IGDBCoverResponse, IGDBInvolvedCompanyResponse, IGDBLanguageResponse,
    IGDBMetadataPlatform, IGDBNamedResponse, IGDBNativeLanguageResponse, IGDBPlatformResponse,
    IGDBRelatedGame, IGDBRelatedGameResponse, IGDBRomResponse, IGDBSearchGameResponse,
    IGDBSearchResponse, IGDBSearchResult, IGDBWebsite, IGDBWebsiteResponse, GAMES_FIELDS,
    IGDB_AGE_RATINGS, IGDB_WEBSITE_TYPES, SEARCH_FIELDS,
};

fn named(name: &str) -> IGDBNamedResponse {
    IGDBNamedResponse { name: name.to_string() }
}

fn company(name: &str, developer: bool, publisher: bool) -> IGDBInvolvedCompanyResponse {
    IGDBInvolvedCompanyResponse { company: named(name), publisher, developer }
}

fn bare(id: u64) -> IGDBRomResponse {
    IGDBRomResponse {
        id,
        slug: None,
        name: None,
        keywords: None,
        cover: None,
        summary: None,
        total_rating: None,
        aggregated_rating: None,
        first_release_date: None,
        genres: Vec::new(),
        franchise: None,
        franchises: None,
        alternative_names: None,
        involved_companies: None,
        game_modes: None,
        language_supports: None,
        platforms: None,
        age_ratings: None,
        expansions: None,
        dlcs: None,
        websites: None,
    }
}

#[test]
fn fields_are_joined_by_commas() {
    assert_eq!(get_fields(&SEARCH_FIELDS), "game.id,name");
    assert_eq!(get_fields(&["one"]), "one");
    assert_eq!(get_fields(&[]), "");
    assert_eq!(get_fields(&GAMES_FIELDS), GAMES_FIELDS.join(","));
    assert!(get_fields(&GAMES_FIELDS).starts_with("id,name,slug,summary,keywords.name,"));
    assert!(get_fields(&GAMES_FIELDS).ends_with(",websites.category,websites.url"));
}

#[test]
fn special_signs_are_removed_from_queries() {
    assert_eq!(remove_special_chars("Pokémon™: Let's Go."), "Pokémon Lets Go");
    assert_eq!(remove_special_chars("  Tetris® ©1989 ℠ "), "Tetris 1989");
    assert_eq!(remove_special_chars("plain"), "plain");
    assert_eq!(remove_special_chars(" .:' "), "");
    assert_eq!(remove_special_chars(""), "");
    assert_eq!(remove_special_chars("\u{3000}a b\t\n"), "a b");
}

#[test]
fn query_cleaning_agrees_with_std() {
    for query in ["a. b", " x ", "\u{a0}Zelda:\u{2003}", "it's™", "\u{85}\u{1680}q\u{2028}\u{2029}\u{202f}\u{205f}", "a\u{200b}"] {
        let expected = query
            .replace("\u{2122}", "")
            .replace("\u{00a9}", "")
            .replace("\u{00ae}", "")
            .replace("\u{2120}", "")
            .replace(":", "")
            .replace(".", "")
            .replace("'", "")
            .trim()
            .to_string();
        assert_eq!(remove_special_chars(query), expected, "{:?}", query);
    }
}

#[test]
fn white_space_agrees_with_std() {
    for code in 0u32..=0x10ffff {
        if let Some(c) = char::from_u32(code) {
            assert_eq!(white_space(c), c.is_whitespace(), "{:x}", code);
        }
    }
}

#[test]
fn special_signs() {
    for c in ['\u{2122}', '\u{a9}', '\u{ae}', '\u{2120}', ':', '.', '\''] {
        assert!(special(c));
    }
    for c in ['a', ' ', ',', ';', '"', '-'] {
        assert!(!special(c));
    }
}

#[test]
fn white_space_is_trimmed_at_both_ends() {
    let trim = |s: &str| -> String { trim_chars(&s.chars().collect()).into_iter().collect() };
    assert_eq!(trim("  a b  "), "a b");
    assert_eq!(trim("a"), "a");
    assert_eq!(trim("   "), "");
    assert_eq!(trim(""), "");
    assert_eq!(trim("\ta\n"), "a");
}

#[test]
fn names_are_mapped_in_order() {
    assert_eq!(map_to_name(&vec![named("RPG"), named("Adventure")]), vec!["RPG", "Adventure"]);
    assert!(map_to_name(&Vec::new()).is_empty());
}

#[test]
fn related_games_get_defaults_and_relation() {
    let answers = vec![
        IGDBRelatedGameResponse { id: 7, name: Some("Expansion Pass".to_string()), slug: Some("pass".to_string()) },
        IGDBRelatedGameResponse { id: 8, name: None, slug: None },
    ];
    assert_eq!(
        map_to_related_game(&answers, "dlc"),
        vec![
            IGDBRelatedGame { id: 7, name: "Expansion Pass".to_string(), slug: "pass".to_string(), relation: "dlc".to_string() },
            IGDBRelatedGame { id: 8, name: "".to_string(), slug: "".to_string(), relation: "dlc".to_string() },
        ]
    );
}

#[test]
fn age_rating_table() {
    assert_eq!(IGDB_AGE_RATINGS.len(), 36);
    assert_eq!(
        age_rating(1),
        Some(IGDBAgeRatingStatic {
            rating: "Three",
            category: "PEGI",
            rating_cover_url: "https://www.igdb.com/icons/rating_icons/pegi/pegi_3.png"
        })
    );
    assert_eq!(age_rating(11).unwrap().rating, "M");
    assert_eq!(age_rating(11).unwrap().category, "ESRB");
    assert_eq!(age_rating(29).unwrap().rating_cover_url, "https://www.igdb.com/icons/rating_icons/class_ind/class_ind_10.png");
    assert_eq!(age_rating(36).unwrap().rating, "ACB_RC");
    assert_eq!(age_rating(0), None);
    assert_eq!(age_rating(37), None);
    assert_eq!(age_rating(u64::MAX), None);
}

#[test]
fn static_rating_becomes_rating() {
    assert_eq!(
        age_rating(18).unwrap().to_rating(),
        IGDBAgeRating {
            rating: "USK_0".to_string(),
            category: "USK".to_string(),
            rating_cover_url: "https://www.igdb.com/icons/rating_icons/usk/usk_0.png".to_string()
        }
    );
}

#[test]
fn website_table() {
    assert_eq!(IGDB_WEBSITE_TYPES.len(), 19);
    assert_eq!(website_type(1), Some("official"));
    assert_eq!(website_type(6), Some("twitch"));
    assert_eq!(website_type(7), None);
    assert_eq!(website_type(8), Some("instagram"));
    assert_eq!(website_type(13), Some("steam"));
    assert_eq!(website_type(19), Some("bluesky"));
    assert_eq!(website_type(0), None);
    assert_eq!(website_type(20), None);
}

#[test]
fn companies_are_developers_or_publishers() {
    let companies = vec![
        company("Square", true, true),
        company("Nintendo", false, true),
        company("Support", false, false),
        company("Monolith", true, false),
    ];
    assert_eq!(developers(&companies), vec!["Square", "Monolith"]);
    assert_eq!(publishers(&companies), vec!["Nintendo"]);
}

#[test]
fn languages_platforms_ratings_websites_are_mapped() {
    let supports = vec![IGDBLanguageResponse { language: IGDBNativeLanguageResponse { native_name: "日本語".to_string() } }];
    assert_eq!(languages(&supports), vec!["日本語"]);
    let answers = vec![IGDBPlatformResponse { id: 19, name: "Super Nintendo".to_string(), abbreviation: "SNES".to_string() }];
    assert_eq!(
        platforms(&answers),
        vec![IGDBMetadataPlatform { igdb_id: 19, name: "Super Nintendo".to_string(), abbreviation: "SNES".to_string() }]
    );
    let ratings = vec![
        IGDBAgeRatingResponse { rating_category: 8 },
        IGDBAgeRatingResponse { rating_category: 99 },
        IGDBAgeRatingResponse { rating_category: 2 },
    ];
    let mapped: Vec<String> = age_ratings(&ratings).into_iter().map(|r| r.rating).collect();
    assert_eq!(mapped, vec!["E", "Seven"]);
    let sites = vec![
        IGDBWebsiteResponse { category: 13, url: "https://store".to_string() },
        IGDBWebsiteResponse { category: 7, url: "https://gone".to_string() },
        IGDBWebsiteResponse { category: 3, url: "https://wiki".to_string() },
    ];
    assert_eq!(
        websites(&sites),
        vec![
            IGDBWebsite { url: "https://store".to_string(), site_type: "steam".to_string() },
            IGDBWebsite { url: "https://wiki".to_string(), site_type: "wikipedia".to_string() },
        ]
    );
}

#[test]
fn metadata_of_a_bare_answer_is_empty() {
    let m = extract_metadata_from_response(&bare(1));
    assert_eq!(m.total_rating, "0.00");
    assert_eq!(m.aggregated_rating, "0.00");
    assert_eq!(m.first_release_date, 0);
    assert!(m.genres.is_empty() && m.franchises.is_empty() && m.keywords.is_empty());
    assert!(m.developers.is_empty() && m.publishers.is_empty() && m.game_modes.is_empty());
    assert!(m.languages.is_empty() && m.age_ratings.is_empty() && m.platforms.is_empty());
    assert!(m.dlcs.is_empty() && m.expansions.is_empty() && m.websites.is_empty());
}

#[test]
fn metadata_of_a_full_answer() {
    let mut rom = bare(1);
    rom.total_rating = Some("91.25".to_string());
    rom.aggregated_rating = Some("88.00".to_string());
    rom.first_release_date = Some(794_966_400);
    rom.genres = vec![named("RPG")];
    rom.franchise = Some(named("Chrono"));
    rom.franchises = Some(vec![named("Square RPGs")]);
    rom.keywords = Some(vec![named("time travel")]);
    rom.game_modes = Some(vec![named("Single player")]);
    rom.involved_companies = Some(vec![company("Square", true, true), company("Nintendo", false, true)]);
    rom.dlcs = Some(vec![IGDBRelatedGameResponse { id: 2, name: Some("More".to_string()), slug: None }]);
    rom.expansions = Some(vec![IGDBRelatedGameResponse { id: 3, name: None, slug: Some("exp".to_string()) }]);
    rom.websites = Some(vec![IGDBWebsiteResponse { category: 1, url: "https://chrono".to_string() }]);
    rom.age_ratings = Some(vec![IGDBAgeRatingResponse { rating_category: 8 }]);
    let m = extract_metadata_from_response(&rom);
    assert_eq!(m.total_rating, "91.25");
    assert_eq!(m.aggregated_rating, "88.00");
    assert_eq!(m.first_release_date, 794_966_400);
    assert_eq!(m.genres, vec!["RPG"]);
    assert_eq!(m.franchises, vec!["Chrono", "Square RPGs"]);
    assert_eq!(m.keywords, vec!["time travel"]);
    assert_eq!(m.game_modes, vec!["Single player"]);
    assert_eq!(m.developers, vec!["Square"]);
    assert_eq!(m.publishers, vec!["Nintendo"]);
    assert_eq!(m.dlcs[0].relation, "dlc");
    assert_eq!(m.dlcs[0].name, "More");
    assert_eq!(m.expansions[0].relation, "expansion");
    assert_eq!(m.expansions[0].slug, "exp");
    assert_eq!(m.websites[0].site_type, "official");
    assert_eq!(m.age_ratings[0].rating, "E");
}

#[test]
fn no_answer_gives_the_game_number_zero() {
    let rom = rom_from_response(&Vec::new());
    assert_eq!(rom.igdb_id, 0);
    assert!(rom.slug.is_none() && rom.name.is_none() && rom.summary.is_none());
    assert!(rom.cover_url.is_none() && rom.thumb_url.is_none() && rom.metadata.is_none());
}

#[test]
fn first_answer_becomes_the_game() {
    let mut first = bare(42);
    first.name = Some("Chrono Trigger".to_string());
    first.slug = Some("chrono-trigger".to_string());
    first.cover = Some(IGDBCoverResponse { url: Some("//images.igdb.com/t_thumb/co1.jpg".to_string()) });
    let rom = rom_from_response(&vec![first, bare(43)]);
    assert_eq!(rom.igdb_id, 42);
    assert_eq!(rom.name, Some("Chrono Trigger".to_string()));
    assert_eq!(rom.slug, Some("chrono-trigger".to_string()));
    assert_eq!(rom.summary, None);
    assert_eq!(rom.thumb_url, Some("//images.igdb.com/t_thumb/co1.jpg".to_string()));
    assert_eq!(rom.cover_url, Some("//images.igdb.com/t_1080p/co1.jpg".to_string()));
    assert!(rom.metadata.is_some());
}

#[test]
fn game_without_cover_has_empty_addresses() {
    let rom = rom_from_response(&vec![bare(5)]);
    assert_eq!(rom.thumb_url, Some("".to_string()));
    assert_eq!(rom.cover_url, Some("".to_string()));
}

#[test]
fn cover_address_is_made_from_thumbnail_address() {
    assert_eq!(cover_url_of("a/t_thumb/b/t_thumb.jpg"), "a/t_1080p/b/t_1080p.jpg");
    assert_eq!(cover_url_of("nothing"), "nothing");
    assert_eq!(cover_url_of("t_thumt_thumb"), "t_thumt_1080p");
}

#[test]
fn search_body_holds_the_cleaned_query() {
    assert_eq!(
        search_body(" Chrono Trigger: DS ", "19"),
        "fields game.id,name; where game.platforms=[19] & game.category=(0,8,9,10,11) & (name ~ *\"Chrono Trigger DS\"* | alternative_name ~ *\"Chrono Trigger DS\"*);"
    );
}

#[test]
fn metadata_body_asks_for_every_field() {
    assert_eq!(metadata_body("42"), format!("fields {}; where id=42;", GAMES_FIELDS.join(",")));
}

#[test]
fn search_results_are_mapped() {
    let answers = vec![IGDBSearchResponse { name: "Chrono Trigger".to_string(), game: IGDBSearchGameResponse { id: 42 } }];
    assert_eq!(search_results(&answers), vec![IGDBSearchResult { igdb_id: 42, name: "Chrono Trigger".to_string() }]);
    assert!(search_results(&Vec::new()).is_empty());
}

#[test]
fn token_is_over_after_its_time() {
    assert!(!token_expired(100, 50, 50));
    assert!(token_expired(101, 50, 50));
    assert!(token_expired(1, 0, 0));
    assert!(!token_expired(u64::MAX, u64::MAX, 1));
}
