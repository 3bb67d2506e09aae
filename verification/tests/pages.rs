use recombox_subtitle_provider::get_chapters::chapters_from_page;

#[test]
fn chapters_are_read_in_page_order() {
    let html = r#"<html><body>
      <div class="mt-5 flex flex-col gap-4" style="direction:ltr">
        <a href="/subtitle/sd1/show/first-season"><div class="text-xl font-bold">First Season</div></a>
        <a><div class="text-xl font-bold">Second Season</div></a>
      </div>
      <a href="/elsewhere"><div class="text-xl font-bold">Not a chapter</div></a>
    </body></html>"#;
    let chapters = chapters_from_page(html).unwrap();
    assert_eq!(chapters.len(), 2);
    assert_eq!(chapters[0].title, "First Season");
    assert_eq!(chapters[0].link, "/subtitle/sd1/show/first-season");
    assert_eq!(chapters[1].title, "Second Season");
    assert_eq!(chapters[1].link, "");
}


use recombox_subtitle_provider::get_chapters::{
    chapters_after_search, chapters_search, site_url, ChaptersStep, GetChaptersParams,
};
use recombox_subtitle_provider::global_types::Source;
use recombox_subtitle_provider::search::SearchData;

#[test]
fn chapter_lookup_uses_the_same_title() {
    let params = GetChaptersParams { imdb_id: "tt1".to_string(), source: Source::Anime };
    let search = chapters_search(&params);
    assert_eq!(search.imdb_id, "tt1");
    assert_eq!(search.source, Source::Anime);
}

#[test]
fn no_match_means_no_chapters() {
    match chapters_after_search(&None) {
        ChaptersStep::Done(v) => assert!(v.is_empty()),
        other => panic!("unexpected {:?}", other),
    }
}

#[test]
fn a_match_leads_to_its_page() {
    let found = Some(SearchData {
        title: "T".to_string(),
        poster_url: "/p".to_string(),
        link: "/subtitle/sd1/t".to_string(),
    });
    match chapters_after_search(&found) {
        ChaptersStep::FetchPage(url) => assert_eq!(url, "https://subdl.com/subtitle/sd1/t"),
        other => panic!("unexpected {:?}", other),
    }
    assert_eq!(site_url(""), "https://subdl.com");
}

#[test]
fn page_without_chapter_list_has_no_chapters() {
    let chapters = chapters_from_page("<html><body><a href='/x'>x</a></body></html>").unwrap();
    assert!(chapters.is_empty());
}

use recombox_subtitle_provider::get_chapters::read_chapter_page;
use recombox_subtitle_provider::html::page_is_queryable;

#[test]
fn pages_with_a_nameless_tag_are_not_queryable() {
    assert!(!page_is_queryable("<a"));
    assert!(!page_is_queryable("<html><body><div"));
    assert!(!page_is_queryable("text <Span"));
    assert!(!page_is_queryable("x<b"));
    assert!(page_is_queryable(""));
    assert!(page_is_queryable("<"));
    assert!(page_is_queryable("a < b"));
    assert!(page_is_queryable("<a href"));
    assert!(page_is_queryable("<p>x</p>"));
    assert!(page_is_queryable("<div/"));
    assert!(page_is_queryable("<html><body><div class"));
}

#[test]
fn unparsable_page_is_an_error() {
    for html in ["<!DOCTYPE", "<script>", "<<<", "<!--", "<!--<a"] {
        assert!(page_is_queryable(html), "{}", html);
        assert!(chapters_from_page(html).is_err(), "{}", html);
    }
}

#[test]
fn a_tag_name_inside_a_quoted_value_is_read() {
    let html = "<div title=\"<a";
    assert!(page_is_queryable(html));
    assert!(chapters_from_page(html).unwrap().is_empty());
}

#[test]
fn checked_reading_refuses_only_nameless_pages() {
    assert!(read_chapter_page("<a").is_none());
    assert!(matches!(read_chapter_page("<!--<a"), Some(Err(_))));
    let html = r#"<div class="mt-5 flex flex-col gap-4" style="direction:ltr"><a href="/c"><b class="text-xl font-bold">C</b></a></div>"#;
    let chapters = read_chapter_page(html).unwrap().unwrap();
    assert_eq!(chapters.len(), 1);
    assert_eq!(chapters[0].title, "C");
    assert_eq!(chapters[0].link, "/c");
}

#[test]
fn load_errors_carry_the_parser_message() {
    let expected = match visdom::Vis::load("<!DOCTYPE") {
        Ok(_) => panic!("the page should not load"),
        Err(e) => e.to_string(),
    };
    assert!(!expected.is_empty());
    match chapters_from_page("<!DOCTYPE") {
        Err(e) => assert_eq!(e.message, expected),
        Ok(_) => panic!("the page should not load"),
    }
    match recombox_subtitle_provider::get_subtitles::subtitles_from_page("<!DOCTYPE") {
        Err(recombox_subtitle_provider::get_subtitles::SubtitlesError::PageLoad(m)) => assert_eq!(m, expected),
        _ => panic!("the page should not load"),
    }
}
