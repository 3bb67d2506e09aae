use vstd::prelude::*;

use crate::global_types::Source;
use crate::html::{
    has_nameless_tag, load_error, load_page, node_attr, node_count, node_text, page_is_queryable, page_loads,
    page_queryable, root_page, NodePath,
};
use crate::search::{SearchData, SearchParams};
use crate::text::concat;

verus! {

/// Which title's chapters to list.
#[derive(Debug)]
pub struct GetChaptersParams {
    pub imdb_id: String,
    pub source: Source,
}

/// One chapter (season or episode group) of a title's page.
#[derive(Debug)]
pub struct ChapterData {
    pub title: String,
    pub link: String,
}

/// A page that could not be parsed, with the parser's message.
#[derive(Debug)]
pub struct PageLoadError {
    pub message: String,
}

/// The site the title pages live on.
pub open spec fn site_prefix() -> Seq<char> {
    "https://subdl.com"@
}

/// The address of a page of the site, given its path.
pub fn site_url(path: &str) -> (res: String)
    ensures
        res@ == site_prefix() + path@,
{
    concat("https://subdl.com", path)
}

/// Every page of the site is asked for at `https://subdl.com` followed by
/// its path, as given.
pub proof fn lemma_site_addresses(path: Seq<char>)
    ensures
        site_prefix() + path == "https://subdl.com"@ + path,
        (site_prefix() + path).subrange(0, 17) == "https://subdl.com"@,
        (site_prefix() + path).subrange(17, 17 + path.len() as int) == path,
{
    reveal_strlit("https://subdl.com");
    assert(("https://subdl.com"@ + path).subrange(0, 17) =~= "https://subdl.com"@);
    assert(("https://subdl.com"@ + path).subrange(17, 17 + path.len() as int) =~= path);
}

/// The lookup that finds the title whose chapters are wanted.
pub fn chapters_search(params: &GetChaptersParams) -> (res: SearchParams)
    ensures
        res.source == params.source,
        res.imdb_id@ == params.imdb_id@,
{
    SearchParams { source: params.source, imdb_id: params.imdb_id.clone() }
}

/// What to do once the lookup has answered.
#[derive(Debug)]
pub enum ChaptersStep {
    /// Nothing was found: the title has no chapters.
    Done(Vec<ChapterData>),
    /// Fetch the title's page at this address and read its chapters.
    FetchPage(String),
}

/// After the lookup: no match means no chapters; a match means its page is read.
pub fn chapters_after_search(found: &Option<SearchData>) -> (res: ChaptersStep)
    ensures
        match found {
            None => res matches ChaptersStep::Done(v) && v@.len() == 0,
            Some(s) => res matches ChaptersStep::FetchPage(url) && url@ == site_prefix() + s.link@,
        },
{
    match found {
        None => ChaptersStep::Done(Vec::new()),
        Some(s) => ChaptersStep::FetchPage(site_url(s.link.as_str())),
    }
}

/// The links of the chapter list of a title page.
pub open spec fn chapter_links(html: Seq<char>) -> NodePath {
    NodePath::Find(
        Box::new(NodePath::Find(
            Box::new(NodePath::Document(html)),
            ".mt-5.flex.flex-col.gap-4[style=\"direction:ltr\"]"@,
        )),
        "a"@,
    )
}

/// The title shown by the `i`-th chapter link.
pub open spec fn chapter_title(html: Seq<char>, i: nat) -> Seq<char> {
    node_text(
        NodePath::Find(
            Box::new(NodePath::Item(Box::new(chapter_links(html)), i)),
            ".text-xl.font-bold"@,
        ),
    )
}

/// The target of the `i`-th chapter link; empty when it has none.
pub open spec fn chapter_link(html: Seq<char>, i: nat) -> Seq<char> {
    match node_attr(NodePath::Item(Box::new(chapter_links(html)), i), "href"@) {
        Some(v) => v,
        None => Seq::empty(),
    }
}

/// What reading a title page gives: the parser's error when it does not
/// load; otherwise one chapter per link of the chapter list, in page order.
pub open spec fn chapters_read(html: Seq<char>, res: Result<Vec<ChapterData>, PageLoadError>) -> bool {
    &&& res is Ok <==> page_loads(html)
    &&& res matches Err(e) ==> e.message@ == load_error(html)
    &&& res matches Ok(chapters) ==> {
        &&& chapters@.len() == node_count(chapter_links(html))
        &&& forall|i: int|
            0 <= i < chapters@.len() ==> {
                &&& (#[trigger] chapters@[i]).title@ == chapter_title(html, i as nat)
                &&& chapters@[i].link@ == chapter_link(html, i as nat)
            }
    }
}

/// Reads the chapters listed on a title page, in page order.
pub fn chapters_from_page(html: &str) -> (res: Result<Vec<ChapterData>, PageLoadError>)
    requires
        page_queryable(html@),
    ensures
        chapters_read(html@, res),
{
    let page = match load_page(html) {
        Ok(p) => p,
        Err(message) => return Err(PageLoadError { message }),
    };
    let list = page.find(".mt-5.flex.flex-col.gap-4[style=\"direction:ltr\"]");
    let links = list.find("a");
    let n = links.count();
    let mut chapters: Vec<ChapterData> = Vec::new();
    for i in 0..n
        invariant
            n == node_count(chapter_links(html@)),
            links@ == chapter_links(html@),
            root_page(links@) == html@,
            !has_nameless_tag(html@),
            chapters@.len() == i,
            forall|j: int|
                0 <= j < i ==> {
                    &&& (#[trigger] chapters@[j]).title@ == chapter_title(html@, j as nat)
                    &&& chapters@[j].link@ == chapter_link(html@, j as nat)
                },
    {
        let ele = links.item(i);
        let link = match ele.attr("href") {
            Some(l) => l,
            None => String::new(),
        };
        let items = ele.find(".text-xl.font-bold");
        let title = items.text();
        chapters.push(ChapterData { title, link });
    }
    Ok(chapters)
}

/// A page that loads gives one chapter per `<a>` inside the elements
/// matching `.mt-5.flex.flex-col.gap-4[style="direction:ltr"]`, in page
/// order. The title of each is the text of the `.text-xl.font-bold`
/// elements inside its link, so no other text of the link enters it; its
/// link is the `href` of that `<a>`, empty when it has none. A page that
/// does not load gives the parser's message.
pub proof fn lemma_chapters_are_the_listed_links(html: Seq<char>, res: Result<Vec<ChapterData>, PageLoadError>)
    requires
        chapters_read(html, res),
    ensures
        ({
            let links = NodePath::Find(
                Box::new(NodePath::Find(
                    Box::new(NodePath::Document(html)),
                    ".mt-5.flex.flex-col.gap-4[style=\"direction:ltr\"]"@,
                )),
                "a"@,
            );
            match res {
                Ok(chapters) => {
                    &&& page_loads(html)
                    &&& chapters@.len() == node_count(links)
                    &&& forall|i: int|
                        0 <= i < chapters@.len() ==> {
                            let link = NodePath::Item(Box::new(links), i as nat);
                            &&& (#[trigger] chapters@[i]).title@ == node_text(
                                NodePath::Find(Box::new(link), ".text-xl.font-bold"@),
                            )
                            &&& chapters@[i].link@ == match node_attr(link, "href"@) {
                                Some(v) => v,
                                None => Seq::<char>::empty(),
                            }
                        }
                },
                Err(e) => !page_loads(html) && e.message@ == load_error(html),
            }
        }),
{
}

/// Reads a title page if it can be queried; `None` for a page that loads
/// with a nameless tag, on which reading it would panic.
pub fn read_chapter_page(html: &str) -> (res: Option<Result<Vec<ChapterData>, PageLoadError>>)
    ensures
        res is None <==> !page_queryable(html@),
        res matches Some(r) ==> chapters_read(html@, r),
{
    if page_is_queryable(html) {
        Some(chapters_from_page(html))
    } else {
        None
    }
}

} // verus!
