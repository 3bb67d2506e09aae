use std::collections::HashMap;

use recombox_subtitle_provider::get_subtitles::{
    read_subtitle_page, subtitles_from_page, FetchAction, FetchEvent, SubtitleData, SubtitleFetch, SubtitleGroups,
    SubtitlesError,
};

fn row(title: &str, link: Option<&str>) -> String {
    match link {
        Some(l) => format!(
            r#"<li class="flex justify-between flex-col"><h4>{}</h4><a href="{}"><button title="Quick Download">Download</button></a></li>"#,
            title, l
        ),
        None => format!(
            r#"<li class="flex justify-between flex-col"><h4>{}</h4><button title="Quick Download">Download</button></li>"#,
            title
        ),
    }
}

fn block(language: &str, rows: &[String]) -> String {
    format!("<section><div><h2>{}</h2><ul>{}</ul></div></section>", language, rows.concat())
}

fn page(blocks: &[String]) -> String {
    let inner: Vec<String> = blocks.iter().map(|b| format!("<div>{}</div>", b)).collect();
    format!(r#"<html><body><main data-list-view="">{}</main></body></html>"#, inner.concat())
}

fn as_map(groups: SubtitleGroups) -> HashMap<String, Vec<SubtitleData>> {
    groups.into_entries().into_iter().collect()
}

fn sub(title: &str, link: &str) -> SubtitleData {
    SubtitleData { title: title.to_string(), link: link.to_string() }
}

#[test]
fn groups_by_language_in_page_order() {
    let html = page(&[
        block("English", &[row("Show.S01E01 &amp; extras", Some("/dl/1.zip")), row("Show.S01E02", Some("/dl/2.zip"))]),
        block("Arabic", &[row("Show ar", Some("/dl/3.zip"))]),
    ]);
    let groups = as_map(subtitles_from_page(&html).unwrap());
    assert_eq!(
        groups.get("English").unwrap(),
        &vec![sub("Show.S01E01 & extras", "/dl/1.zip"), sub("Show.S01E02", "/dl/2.zip")]
    );
    assert_eq!(groups.get("Arabic").unwrap(), &vec![sub("Show ar", "/dl/3.zip")]);
}

#[test]
fn later_block_of_a_language_replaces_an_earlier_one() {
    let html = page(&[
        block("English", &[row("first", Some("/dl/1.zip"))]),
        block("English", &[row("second", Some("/dl/2.zip"))]),
    ]);
    let groups = as_map(subtitles_from_page(&html).unwrap());
    assert_eq!(groups.get("English").unwrap(), &vec![sub("second", "/dl/2.zip")]);
}

#[test]
fn row_without_link_is_an_error() {
    let html = page(&[block("English", &[row("ok", Some("/dl/1.zip")), row("broken", None)])]);
    assert!(matches!(subtitles_from_page(&html), Err(SubtitlesError::MissingLink)));
}

#[test]
fn page_without_list_has_no_groups() {
    let groups = subtitles_from_page("<html><body><p>nothing</p></body></html>").unwrap();
    assert!(groups.is_empty());
}

#[test]
fn groups_map_replaces_a_language() {
    let mut groups = SubtitleGroups::new();
    assert!(groups.is_empty());
    groups.set_group("English".to_string(), vec![sub("a", "/a")]);
    groups.set_group("French".to_string(), vec![]);
    groups.set_group("English".to_string(), vec![sub("b", "/b")]);
    assert!(!groups.is_empty());
    let entries = groups.into_entries();
    assert_eq!(entries.len(), 2);
    let map: HashMap<String, Vec<SubtitleData>> = entries.into_iter().collect();
    assert_eq!(map.get("English").unwrap(), &vec![sub("b", "/b")]);
    assert!(map.get("French").unwrap().is_empty());
}

fn fetch_url(action: &FetchAction) -> String {
    match action {
        FetchAction::Fetch(u) => u.clone(),
        FetchAction::Done(_) => panic!("expected a request"),
    }
}

#[test]
fn fetch_starts_with_the_page_address() {
    let (fetch, action) = SubtitleFetch::start("/subtitle/sd1424260/the-outlaws");
    assert_eq!(fetch_url(&action), "https://subdl.com/subtitle/sd1424260/the-outlaws");
    assert_eq!(fetch.attempts_made(), 1);
}

#[test]
fn fetch_gives_up_after_three_failed_requests() {
    let (mut fetch, action) = SubtitleFetch::start("/s");
    assert_eq!(fetch_url(&action), "https://subdl.com/s");
    let a2 = fetch.on_event(FetchEvent::RequestFailed).unwrap();
    assert_eq!(fetch_url(&a2), "https://subdl.com/s");
    assert_eq!(fetch.attempts_made(), 2);
    let a3 = fetch.on_event(FetchEvent::RequestFailed).unwrap();
    assert_eq!(fetch_url(&a3), "https://subdl.com/s");
    assert_eq!(fetch.attempts_made(), 3);
    match fetch.on_event(FetchEvent::RequestFailed).unwrap() {
        FetchAction::Done(g) => assert!(g.is_empty()),
        FetchAction::Fetch(_) => panic!("a fourth request"),
    }
    assert_eq!(fetch.attempts_made(), 3);
}

#[test]
fn fetch_retries_an_empty_page_and_stops_at_the_first_listing() {
    let (mut fetch, _) = SubtitleFetch::start("/s");
    let empty = page(&[]);
    let again = fetch.on_event(FetchEvent::PageLoaded(empty)).unwrap();
    assert_eq!(fetch_url(&again), "https://subdl.com/s");
    let full = page(&[block("English", &[row("one", Some("/dl/1.zip"))])]);
    match fetch.on_event(FetchEvent::PageLoaded(full)).unwrap() {
        FetchAction::Done(g) => {
            let map = as_map(g);
            assert_eq!(map.get("English").unwrap(), &vec![sub("one", "/dl/1.zip")]);
        }
        FetchAction::Fetch(_) => panic!("should have stopped"),
    }
    assert_eq!(fetch.attempts_made(), 2);
}

#[test]
fn fetch_ends_with_an_empty_listing_on_the_third_page() {
    let (mut fetch, _) = SubtitleFetch::start("/s");
    fetch.on_event(FetchEvent::PageLoaded(page(&[]))).unwrap();
    fetch.on_event(FetchEvent::RequestFailed).unwrap();
    match fetch.on_event(FetchEvent::PageLoaded(page(&[]))).unwrap() {
        FetchAction::Done(g) => assert!(g.is_empty()),
        FetchAction::Fetch(_) => panic!("a fourth request"),
    }
}

#[test]
fn fetch_stops_on_a_broken_row() {
    let (mut fetch, _) = SubtitleFetch::start("/s");
    let broken = page(&[block("English", &[row("broken", None)])]);
    assert!(matches!(fetch.on_event(FetchEvent::PageLoaded(broken)), Err(SubtitlesError::MissingLink)));
}

#[test]
fn unparsable_subtitle_page_is_an_error() {
    assert!(matches!(subtitles_from_page("<!DOCTYPE"), Err(SubtitlesError::PageLoad(_))));
    let (mut fetch, _) = SubtitleFetch::start("/s");
    assert!(matches!(
        fetch.on_event(FetchEvent::PageLoaded("<textarea>".to_string())),
        Err(SubtitlesError::PageLoad(_))
    ));
}

#[test]
fn checked_subtitle_reading_and_events() {
    assert!(read_subtitle_page("x<b").is_none());
    assert!(matches!(read_subtitle_page("<!--<a"), Some(Err(SubtitlesError::PageLoad(_)))));
    let (mut fetch, _) = SubtitleFetch::start("/s");
    assert!(fetch.accept_event(FetchEvent::PageLoaded("<a".to_string())).is_none());
    assert_eq!(fetch.attempts_made(), 1);
    match fetch.accept_event(FetchEvent::PageLoaded(page(&[]))) {
        Some(Ok(FetchAction::Fetch(u))) => assert_eq!(u, "https://subdl.com/s"),
        _ => panic!("expected another request"),
    }
    assert_eq!(fetch.attempts_made(), 2);
}
