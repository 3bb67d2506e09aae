use vstd::prelude::*;

use crate::global_types::Source;
use crate::json::{json_get, JsonValue};
use crate::text::concat;

verus! {

/// What to look up: a title by its IMDb id.
#[derive(Debug, Clone, PartialEq, Eq)]
pub struct SearchParams {
    pub imdb_id: String,
    pub source: Source,
}

/// The first match of a lookup.
#[derive(Debug, Clone, PartialEq, Eq)]
pub struct SearchData {
    pub title: String,
    pub poster_url: String,
    pub link: String,
}

/// Why a lookup answer could not be read.
#[derive(Debug, Clone, Copy, PartialEq, Eq, Structural)]
pub enum SearchError {
    MissingResults,
    InvalidResultsArray,
    MissingTitle,
    InvalidTitle,
    MissingUrl,
    InvalidUrl,
    MissingPoster,
    InvalidPoster,
}

impl SearchError {
    /// The error's message.
    pub fn message(&self) -> (res: &'static str)
        ensures
            res@ == search_error_message(*self),
    {
        match self {
            SearchError::MissingResults => "Missing Results",
            SearchError::InvalidResultsArray => "Invalid Results Array",
            SearchError::MissingTitle => "Missing Title",
            SearchError::InvalidTitle => "Invalid Title",
            SearchError::MissingUrl => "Missing Url",
            SearchError::InvalidUrl => "Invalid Url",
            SearchError::MissingPoster => "Missing Poster",
            SearchError::InvalidPoster => "Invalid Poster",
        }
    }
}

/// The message of each lookup error.
pub open spec fn search_error_message(e: SearchError) -> Seq<char> {
    match e {
        SearchError::MissingResults => "Missing Results"@,
        SearchError::InvalidResultsArray => "Invalid Results Array"@,
        SearchError::MissingTitle => "Missing Title"@,
        SearchError::InvalidTitle => "Invalid Title"@,
        SearchError::MissingUrl => "Missing Url"@,
        SearchError::InvalidUrl => "Invalid Url"@,
        SearchError::MissingPoster => "Missing Poster"@,
        SearchError::InvalidPoster => "Invalid Poster"@,
    }
}

/// The address of the lookup service.
pub open spec fn search_url_prefix() -> Seq<char> {
    "https://api3.subdl.com/auto?query="@
}

/// The lookup URL for a search: the service address followed by the IMDb id,
/// as it is.
pub open spec fn lookup_url(params: SearchParams) -> Seq<char> {
    search_url_prefix() + params.imdb_id@
}

/// The lookup URL for a title.
pub fn search_url(params: &SearchParams) -> (res: String)
    ensures
        res@ == lookup_url(*params),
{
    concat("https://api3.subdl.com/auto?query=", params.imdb_id.as_str())
}

/// A search asks by the IMDb id alone: two searches that differ only in
/// their source ask the same URL. (What is read from the reply depends on the
/// reply alone: `search_result` takes no parameters.)
pub proof fn lemma_search_ignores_source(a: SearchParams, b: SearchParams)
    requires
        a.imdb_id@ == b.imdb_id@,
    ensures
        lookup_url(a) == lookup_url(b),
        lookup_url(a) == "https://api3.subdl.com/auto?query="@ + a.imdb_id@,
{
}

/// A string member of an item: missing and non-string members are told apart.
pub open spec fn string_member(item: JsonValue, key: Seq<char>) -> Option<Option<String>> {
    match json_get(item, key) {
        None => None,
        Some(JsonValue::Str(s)) => Some(Some(s)),
        Some(_) => Some(None),
    }
}

/// What a lookup answer says: the `results` array's first entry, read as its
/// `name`, `link` and `poster_url` strings (in that order of checking), or
/// nothing when the array is empty.
pub open spec fn search_outcome(response: JsonValue) -> Result<Option<SearchData>, SearchError> {
    match json_get(response, "results"@) {
        None => Err(SearchError::MissingResults),
        Some(JsonValue::Array(items)) => {
            if items@.len() == 0 {
                Ok(None)
            } else {
                let item = items@[0];
                match string_member(item, "name"@) {
                    None => Err(SearchError::MissingTitle),
                    Some(None) => Err(SearchError::InvalidTitle),
                    Some(Some(title)) => match string_member(item, "link"@) {
                        None => Err(SearchError::MissingUrl),
                        Some(None) => Err(SearchError::InvalidUrl),
                        Some(Some(link)) => match string_member(item, "poster_url"@) {
                            None => Err(SearchError::MissingPoster),
                            Some(None) => Err(SearchError::InvalidPoster),
                            Some(Some(poster_url)) => Ok(
                                Some(SearchData { title, poster_url, link }),
                            ),
                        },
                    },
                }
            }
        },
        Some(_) => Err(SearchError::InvalidResultsArray),
    }
}

/// A lookup answer whose `results` array is not empty, and whose first
/// entry has string `name`, `link` and `poster_url` members, gives exactly
/// those three strings, however many entries follow.
pub proof fn lemma_search_takes_first_result(
    response: JsonValue,
    items: Vec<JsonValue>,
    name: String,
    link: String,
    poster_url: String,
)
    requires
        json_get(response, "results"@) == Some(JsonValue::Array(items)),
        items@.len() > 0,
        json_get(items@[0], "name"@) == Some(JsonValue::Str(name)),
        json_get(items@[0], "link"@) == Some(JsonValue::Str(link)),
        json_get(items@[0], "poster_url"@) == Some(JsonValue::Str(poster_url)),
    ensures
        search_outcome(response) == Ok::<Option<SearchData>, SearchError>(
            Some(SearchData { title: name, poster_url, link }),
        ),
{
}

/// Which error a lookup answer with a non-empty `results` array gives: the
/// first entry's `name`, then `link`, then `poster_url` is checked, a
/// missing member and one that is not a string each with its own error.
pub proof fn lemma_search_errors(response: JsonValue, items: Vec<JsonValue>)
    requires
        json_get(response, "results"@) == Some(JsonValue::Array(items)),
        items@.len() > 0,
    ensures
        ({
            let first = items@[0];
            let name = json_get(first, "name"@);
            let link = json_get(first, "link"@);
            let poster = json_get(first, "poster_url"@);
            &&& name is None ==> search_outcome(response) == Err::<Option<SearchData>, SearchError>(
                SearchError::MissingTitle,
            )
            &&& (name matches Some(v) && !(v is Str)) ==> search_outcome(response) == Err::<
                Option<SearchData>,
                SearchError,
            >(SearchError::InvalidTitle)
            &&& (name matches Some(JsonValue::Str(_)) && link is None) ==> search_outcome(response)
                == Err::<Option<SearchData>, SearchError>(SearchError::MissingUrl)
            &&& (name matches Some(JsonValue::Str(_)) && link matches Some(v) && !(v is Str))
                ==> search_outcome(response) == Err::<Option<SearchData>, SearchError>(
                SearchError::InvalidUrl,
            )
            &&& (name matches Some(JsonValue::Str(_)) && link matches Some(JsonValue::Str(_))
                && poster is None) ==> search_outcome(response) == Err::<Option<SearchData>, SearchError>(
                SearchError::MissingPoster,
            )
            &&& (name matches Some(JsonValue::Str(_)) && link matches Some(JsonValue::Str(_))
                && poster matches Some(v) && !(v is Str)) ==> search_outcome(response) == Err::<
                Option<SearchData>,
                SearchError,
            >(SearchError::InvalidPoster)
        }),
{
}

/// Two lookup answers whose `results` arrays start with the same entry give
/// the same outcome: nothing after the first entry is read.
pub proof fn lemma_search_reads_only_first_result(
    first: JsonValue,
    second: JsonValue,
    items_first: Vec<JsonValue>,
    items_second: Vec<JsonValue>,
)
    requires
        json_get(first, "results"@) == Some(JsonValue::Array(items_first)),
        json_get(second, "results"@) == Some(JsonValue::Array(items_second)),
        items_first@.len() > 0,
        items_second@.len() > 0,
        items_first@[0] == items_second@[0],
    ensures
        search_outcome(first) == search_outcome(second),
{
}

/// An answer with an empty `results` array finds nothing; one without a
/// `results` member, or whose `results` is not an array, is an error.
pub proof fn lemma_search_without_results(response: JsonValue)
    ensures
        json_get(response, "results"@) is None ==> search_outcome(response) == Err::<
            Option<SearchData>,
            SearchError,
        >(SearchError::MissingResults),
        json_get(response, "results"@) matches Some(v) && !(v is Array) ==> search_outcome(response)
            == Err::<Option<SearchData>, SearchError>(SearchError::InvalidResultsArray),
        json_get(response, "results"@) matches Some(JsonValue::Array(items)) && items@.len() == 0
            ==> search_outcome(response) == Ok::<Option<SearchData>, SearchError>(None),
{
}

/// Reads one string member; `Err(missing)` when it is absent, `Err(invalid)`
/// when it is not a string.
fn read_string_member(item: &JsonValue, key: &str, missing: SearchError, invalid: SearchError) -> (res: Result<String, SearchError>)
    ensures
        match string_member(*item, key@) {
            None => res == Err::<String, SearchError>(missing),
            Some(None) => res == Err::<String, SearchError>(invalid),
            Some(Some(s)) => res == Ok::<String, SearchError>(s),
        },
{
    match item.get(key) {
        None => Err(missing),
        Some(JsonValue::Str(s)) => Ok(s.clone()),
        Some(_) => Err(invalid),
    }
}

/// Reads the first match out of a lookup answer.
pub fn search_result(response: &JsonValue) -> (res: Result<Option<SearchData>, SearchError>)
    ensures
        res == search_outcome(*response),
{
    let results = match response.get("results") {
        None => return Err(SearchError::MissingResults),
        Some(r) => r,
    };
    let items = match results {
        JsonValue::Array(items) => items,
        _ => return Err(SearchError::InvalidResultsArray),
    };
    if items.len() == 0 {
        return Ok(None);
    }
    let item = &items[0];
    let title = read_string_member(item, "name", SearchError::MissingTitle, SearchError::InvalidTitle)?;
    let link = read_string_member(item, "link", SearchError::MissingUrl, SearchError::InvalidUrl)?;
    let poster_url = read_string_member(
        item,
        "poster_url",
        SearchError::MissingPoster,
        SearchError::InvalidPoster,
    )?;
    Ok(Some(SearchData { title, poster_url, link }))
}

} // verus!
