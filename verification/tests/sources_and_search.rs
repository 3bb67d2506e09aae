use recombox_subtitle_provider::global_types::Source;
use recombox_subtitle_provider::json::JsonValue;
use recombox_subtitle_provider::search::{search_result, search_url, SearchData, SearchError, SearchParams};

fn text(s: &str) -> JsonValue {
    JsonValue::Str(s.to_string())
}

fn object(members: Vec<(&str, JsonValue)>) -> JsonValue {
    JsonValue::Object(members.into_iter().map(|(k, v)| (k.to_string(), v)).collect())
}

fn item(name: JsonValue, link: JsonValue, poster: JsonValue) -> JsonValue {
    object(vec![("name", name), ("link", link), ("poster_url", poster)])
}

#[test]
fn source_names() {
    assert_eq!(Source::Anime.to_string(), "anime");
    assert_eq!(Source::Movies.to_string(), "movies");
    assert_eq!(Source::TV.to_string(), "tv");
}

#[test]
fn source_from_names() {
    assert_eq!(Source::from_str("anime"), Some(Source::Anime));
    assert_eq!(Source::from_str("movies"), Some(Source::Movies));
    assert_eq!(Source::from_str("tv"), Some(Source::TV));
    assert_eq!(Source::from_str("TV"), None);
    assert_eq!(Source::from_str(""), None);
    assert_eq!(Source::from_str("series"), None);
}

#[test]
fn source_name_roundtrip() {
    for s in [Source::Anime, Source::Movies, Source::TV] {
        assert_eq!(Source::from_str(&s.to_string()), Some(s));
    }
}

#[test]
fn lookup_url_carries_the_imdb_id() {
    let params = SearchParams { imdb_id: "tt7865090".to_string(), source: Source::Movies };
    assert_eq!(search_url(&params), "https://api3.subdl.com/auto?query=tt7865090");
}

#[test]
fn lookup_url_ignores_the_source() {
    let anime = SearchParams { imdb_id: "tt0388629".to_string(), source: Source::Anime };
    let tv = SearchParams { imdb_id: "tt0388629".to_string(), source: Source::TV };
    assert_eq!(search_url(&anime), search_url(&tv));
}

#[test]
fn json_member_lookup_takes_the_named_member() {
    let v = object(vec![("a", text("1")), ("b", text("2"))]);
    assert!(matches!(v.get("b"), Some(JsonValue::Str(s)) if s == "2"));
    assert!(v.get("c").is_none());
    assert!(text("x").get("a").is_none());
}

#[test]
fn first_result_is_read() {
    let response = object(vec![(
        "results",
        JsonValue::Array(vec![
            item(text("The Outlaws"), text("/subtitle/sd1424260/the-outlaws"), text("/posters/1.jpg")),
            item(text("Other"), text("/other"), text("/posters/2.jpg")),
        ]),
    )]);
    assert_eq!(
        search_result(&response),
        Ok(Some(SearchData {
            title: "The Outlaws".to_string(),
            poster_url: "/posters/1.jpg".to_string(),
            link: "/subtitle/sd1424260/the-outlaws".to_string(),
        }))
    );
}

#[test]
fn empty_results_mean_no_match() {
    let response = object(vec![("results", JsonValue::Array(vec![]))]);
    assert_eq!(search_result(&response), Ok(None));
}

#[test]
fn lookup_errors() {
    assert_eq!(search_result(&object(vec![])), Err(SearchError::MissingResults));
    assert_eq!(search_result(&JsonValue::Null), Err(SearchError::MissingResults));
    assert_eq!(
        search_result(&object(vec![("results", text("none"))])),
        Err(SearchError::InvalidResultsArray)
    );
    let one = |it: JsonValue| object(vec![("results", JsonValue::Array(vec![it]))]);
    assert_eq!(
        search_result(&one(object(vec![("link", text("/l")), ("poster_url", text("/p"))]))),
        Err(SearchError::MissingTitle)
    );
    assert_eq!(
        search_result(&one(item(JsonValue::Number("1".to_string()), text("/l"), text("/p")))),
        Err(SearchError::InvalidTitle)
    );
    assert_eq!(
        search_result(&one(object(vec![("name", text("n")), ("poster_url", text("/p"))]))),
        Err(SearchError::MissingUrl)
    );
    assert_eq!(
        search_result(&one(item(text("n"), JsonValue::Null, text("/p")))),
        Err(SearchError::InvalidUrl)
    );
    assert_eq!(
        search_result(&one(object(vec![("name", text("n")), ("link", text("/l"))]))),
        Err(SearchError::MissingPoster)
    );
    assert_eq!(
        search_result(&one(item(text("n"), text("/l"), JsonValue::Bool(true)))),
        Err(SearchError::InvalidPoster)
    );
}

#[test]
fn lookup_error_messages() {
    assert_eq!(SearchError::MissingResults.message(), "Missing Results");
    assert_eq!(SearchError::InvalidResultsArray.message(), "Invalid Results Array");
    assert_eq!(SearchError::InvalidPoster.message(), "Invalid Poster");
}
