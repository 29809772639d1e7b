use gen_data::anisearch::AnisearchClient;
use gen_data::cli::Language;
use gen_data::index::mal_parse_id;

#[test]
fn test_format_anisearch_url() {
    assert_eq!(
        AnisearchClient::format_anisearch_url("anime/1540,alps-monogatari-watashi-no-annette"),
        Ok("https://anisearch.com/anime/1540".to_string())
    );
}

#[test]
fn test_parse_mal_id() {
    assert_eq!(mal_parse_id("https://myanimelist.net/anime/1535"), Some(1535));
}

#[test]
fn normalizer_equivalence_class() {
    let canonical = Ok("https://anisearch.com/anime/1540".to_string());
    assert_eq!(AnisearchClient::format_anisearch_url("anime/1540,some-title"), canonical);
    assert_eq!(
        AnisearchClient::format_anisearch_url("https://www.anisearch.com/anime/1540,x"),
        canonical
    );
    assert_eq!(AnisearchClient::format_anisearch_url("www.anisearch.com/anime/1540"), canonical);
    assert_eq!(AnisearchClient::format_anisearch_url("anisearch.com/anime/1540"), canonical);
    assert_eq!(
        AnisearchClient::format_anisearch_url("https://anisearch.com/anime/1540"),
        canonical
    );
}

#[test]
fn normalizer_is_idempotent_on_examples() {
    for raw in [
        "anime/1540,some-title",
        "HTTPS://WWW.ANISEARCH.COM/ANIME/77,Title",
        "www.anisearch.com/anime/3",
        "anime/",
        "anime/12\u{30bf}\u{30a4}\u{30c8}\u{30eb}",
    ] {
        let once = AnisearchClient::format_anisearch_url(raw).unwrap();
        let twice = AnisearchClient::format_anisearch_url(&once).unwrap();
        assert_eq!(once, twice);
    }
}

#[test]
fn normalizer_lowers_the_case_first() {
    assert_eq!(
        AnisearchClient::format_anisearch_url("HTTPS://WWW.AniSearch.COM/Anime/42,Some-Title"),
        Ok("https://anisearch.com/anime/42".to_string())
    );
    assert_eq!(
        AnisearchClient::format_anisearch_url("WWW.ANISEARCH.COM/ANIME/42"),
        Ok("https://anisearch.com/anime/42".to_string())
    );
}

#[test]
fn normalizer_lowers_a_link_with_other_than_ascii_letters() {
    assert_eq!(
        AnisearchClient::format_anisearch_url("Anime/9,\u{c4}rger-im-\u{dc}berfluss"),
        Ok("https://anisearch.com/anime/9".to_string())
    );
    assert_eq!(AnisearchClient::format_anisearch_url("\u{c4}nime/9"), Err(()));
}

#[test]
fn normalizer_stops_at_the_first_character_that_is_no_digit() {
    assert_eq!(
        AnisearchClient::format_anisearch_url("anime/15a40"),
        Ok("https://anisearch.com/anime/15".to_string())
    );
    assert_eq!(
        AnisearchClient::format_anisearch_url("anime/007/8"),
        Ok("https://anisearch.com/anime/007".to_string())
    );
}

#[test]
fn normalizer_keeps_a_link_without_digits_as_the_bare_prefix() {
    assert_eq!(
        AnisearchClient::format_anisearch_url("anime/"),
        Ok("https://anisearch.com/anime/".to_string())
    );
    assert_eq!(
        AnisearchClient::format_anisearch_url("anime/title-only"),
        Ok("https://anisearch.com/anime/".to_string())
    );
}

#[test]
fn normalizer_refuses_what_is_no_item_link() {
    assert_eq!(AnisearchClient::format_anisearch_url(""), Err(()));
    assert_eq!(AnisearchClient::format_anisearch_url("manga/12"), Err(()));
    assert_eq!(AnisearchClient::format_anisearch_url("https://example.org/anime/12"), Err(()));
    assert_eq!(AnisearchClient::format_anisearch_url("http://anisearch.com/anime/12"), Err(()));
    assert_eq!(AnisearchClient::format_anisearch_url("https://www.example.org/anime/1"), Err(()));
    assert_eq!(AnisearchClient::format_anisearch_url("anisearch.com/manga/3"), Err(()));
}

#[test]
fn canonical_from_lowercase_takes_the_text_as_it_is() {
    assert_eq!(
        AnisearchClient::canonical_from_lowercase("www.anisearch.com/anime/5,slug"),
        Ok("https://anisearch.com/anime/5".to_string())
    );
    assert_eq!(AnisearchClient::canonical_from_lowercase("ANIME/5"), Err(()));
}

#[test]
fn mal_id_needs_the_anime_prefix_and_digits_only() {
    assert_eq!(mal_parse_id("https://myanimelist.net/anime/0"), Some(0));
    assert_eq!(mal_parse_id("https://myanimelist.net/anime/007"), Some(7));
    assert_eq!(mal_parse_id("https://myanimelist.net/anime/"), None);
    assert_eq!(mal_parse_id("https://myanimelist.net/anime/15/title"), None);
    assert_eq!(mal_parse_id("https://myanimelist.net/anime/+15"), None);
    assert_eq!(mal_parse_id("https://myanimelist.net/anime/-15"), None);
    assert_eq!(mal_parse_id("https://myanimelist.net/anime/15 "), None);
    assert_eq!(mal_parse_id("https://myanimelist.net/manga/15"), None);
    assert_eq!(mal_parse_id("http://myanimelist.net/anime/15"), None);
    assert_eq!(mal_parse_id("15"), None);
    assert_eq!(mal_parse_id(""), None);
}

#[test]
fn mal_id_must_fit_a_u64() {
    assert_eq!(
        mal_parse_id("https://myanimelist.net/anime/18446744073709551615"),
        Some(u64::MAX)
    );
    assert_eq!(mal_parse_id("https://myanimelist.net/anime/18446744073709551616"), None);
    assert_eq!(mal_parse_id("https://myanimelist.net/anime/99999999999999999999999"), None);
    assert_eq!(
        mal_parse_id("https://myanimelist.net/anime/000000000000000000000000000012"),
        Some(12)
    );
}

#[test]
fn language_codes() {
    assert_eq!(Language::German.get_anisearch_language(), "de");
    assert_eq!(Language::English.get_anisearch_language(), "en");
    assert_eq!(Language::French.get_anisearch_language(), "fr");
    assert_eq!(Language::Italian.get_anisearch_language(), "it");
    assert_eq!(Language::Spanish.get_anisearch_language(), "es");
}

#[test]
fn listing_url_names_page_and_language() {
    let client = AnisearchClient::new(&Language::German);
    assert_eq!(
        client.dubbed_anime_list_url(1),
        "https://www.anisearch.com/anime/index/page-1?synchro=de&sort=title&order=asc&view=2&limit=100"
    );
    let client = AnisearchClient::new(&Language::Spanish);
    assert_eq!(
        client.dubbed_anime_list_url(120),
        "https://www.anisearch.com/anime/index/page-120?synchro=es&sort=title&order=asc&view=2&limit=100"
    );
    assert_eq!(
        client.dubbed_anime_list_url(0),
        "https://www.anisearch.com/anime/index/page-0?synchro=es&sort=title&order=asc&view=2&limit=100"
    );
    assert_eq!(
        client.dubbed_anime_list_url(u64::MAX),
        "https://www.anisearch.com/anime/index/page-18446744073709551615?synchro=es&sort=title&order=asc&view=2&limit=100"
    );
}

#[test]
fn a_canonical_url_without_digits_names_no_item() {
    assert_eq!(
        AnisearchClient::item_url("anime/1540,some-title"),
        Some("https://anisearch.com/anime/1540".to_string())
    );
    assert_eq!(AnisearchClient::item_url("ANIME/0"), Some("https://anisearch.com/anime/0".to_string()));
    assert_eq!(AnisearchClient::item_url("anime/"), None);
    assert_eq!(AnisearchClient::item_url("https://anisearch.com/anime/title"), None);
    assert_eq!(AnisearchClient::item_url("manga/12"), None);
    assert_eq!(AnisearchClient::item_url(""), None);
}
