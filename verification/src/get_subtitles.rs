use vstd::prelude::*;

use crate::get_chapters::{site_prefix, site_url};
use crate::html::{
    decode_entities, entities_decoded, has_nameless_tag, load_error, load_page, page_is_queryable,
    page_queryable, root_page, node_attr, node_count, node_text,
    page_loads, NodePath, Nodes,
};

verus! {

/// One downloadable subtitle: its title and the path of its download.
#[derive(Debug, Clone, PartialEq, Eq)]
pub struct SubtitleData {
    pub title: String,
    pub link: String,
}

/// A subtitle as a pair of title and link.
pub open spec fn subtitle_view(s: SubtitleData) -> (Seq<char>, Seq<char>) {
    (s.title@, s.link@)
}

/// A list of subtitles as pairs of title and link.
pub open spec fn subtitles_view(items: Seq<SubtitleData>) -> Seq<(Seq<char>, Seq<char>)> {
    items.map_values(|s: SubtitleData| subtitle_view(s))
}

/// The map that a list of (language, subtitles) entries stands for, later
/// entries replacing earlier ones of the same language.
pub open spec fn entries_map(entries: Seq<(String, Vec<SubtitleData>)>) -> Map<
    Seq<char>,
    Seq<(Seq<char>, Seq<char>)>,
>
    decreases entries.len(),
{
    if entries.len() == 0 {
        Map::empty()
    } else {
        entries_map(entries.drop_last()).insert(
            entries.last().0@,
            subtitles_view(entries.last().1@),
        )
    }
}

/// No language occurs twice among the entries.
pub open spec fn keys_unique(entries: Seq<(String, Vec<SubtitleData>)>) -> bool {
    forall|i: int, j: int|
        0 <= i < entries.len() && 0 <= j < entries.len() && i != j ==> #[trigger] entries[i].0@
            != #[trigger] entries[j].0@
}

/// Replacing the entry of a language changes only that language in the map.
proof fn lemma_entries_map_update(
    entries: Seq<(String, Vec<SubtitleData>)>,
    i: int,
    entry: (String, Vec<SubtitleData>),
)
    requires
        keys_unique(entries),
        0 <= i < entries.len(),
        entries[i].0@ == entry.0@,
    ensures
        entries_map(entries.update(i, entry)) == entries_map(entries).insert(
            entry.0@,
            subtitles_view(entry.1@),
        ),
    decreases entries.len(),
{
    let updated = entries.update(i, entry);
    if i == entries.len() - 1 {
        assert(updated.drop_last() =~= entries.drop_last());
        assert(entries_map(updated) =~= entries_map(entries).insert(
            entry.0@,
            subtitles_view(entry.1@),
        ));
    } else {
        let rest = entries.drop_last();
        assert(updated.drop_last() =~= rest.update(i, entry));
        assert(keys_unique(rest)) by {
            assert forall|a: int, b: int|
                0 <= a < rest.len() && 0 <= b < rest.len() && a != b implies #[trigger] rest[a].0@
                != #[trigger] rest[b].0@ by {
                assert(rest[a] == entries[a] && rest[b] == entries[b]);
            }
        }
        lemma_entries_map_update(rest, i, entry);
        let last = entries.last();
        assert(entries[entries.len() - 1] == last);
        assert(last.0@ != entry.0@);
        assert(updated.last() == last);
        assert(entries_map(updated) =~= entries_map(entries).insert(
            entry.0@,
            subtitles_view(entry.1@),
        ));
    }
}

/// The position of the entry for `language`, if there is one.
fn position_of(entries: &Vec<(String, Vec<SubtitleData>)>, language: &String) -> (res: Option<usize>)
    ensures
        match res {
            Some(i) => i < entries@.len() && entries@[i as int].0@ == language@,
            None => forall|j: int| 0 <= j < entries@.len() ==> (#[trigger] entries@[j]).0@ != language@,
        },
{
    let mut i: usize = 0;
    while i < entries.len()
        invariant
            i <= entries@.len(),
            forall|j: int| 0 <= j < i ==> (#[trigger] entries@[j]).0@ != language@,
        decreases entries@.len() - i,
    {
        if entries[i].0 == *language {
            return Some(i);
        }
        i = i + 1;
    }
    None
}

/// Subtitles grouped by language; each language at most once.
///
/// The groups are held as a list of entries whose languages are distinct:
/// vstd models a `HashMap` only for keys it knows to hash by value, and
/// `String` is not among them, so nothing could be proved of a map keyed by
/// language. Its view is the map itself.
#[derive(Debug)]
pub struct SubtitleGroups {
    entries: Vec<(String, Vec<SubtitleData>)>,
}

impl View for SubtitleGroups {
    type V = Map<Seq<char>, Seq<(Seq<char>, Seq<char>)>>;

    closed spec fn view(&self) -> Self::V {
        entries_map(self.entries@)
    }
}

impl SubtitleGroups {
    #[verifier::type_invariant]
    closed spec fn inv(self) -> bool {
        keys_unique(self.entries@)
    }

    /// No languages.
    pub fn new() -> (res: SubtitleGroups)
        ensures
            res@ == Map::<Seq<char>, Seq<(Seq<char>, Seq<char>)>>::empty(),
    {
        SubtitleGroups { entries: Vec::new() }
    }

    /// Whether no language is listed.
    pub fn is_empty(&self) -> (res: bool)
        ensures
            res <==> self@ == Map::<Seq<char>, Seq<(Seq<char>, Seq<char>)>>::empty(),
    {
        if self.entries.len() == 0 {
            true
        } else {
            assert(self@.dom().contains(self.entries@.last().0@));
            false
        }
    }

    /// Sets the subtitles of a language, replacing any it had.
    pub fn set_group(&mut self, language: String, items: Vec<SubtitleData>)
        ensures
            final(self)@ == old(self)@.insert(language@, subtitles_view(items@)),
    {
        proof {
            use_type_invariant(&*self);
        }
        let ghost old_entries = self.entries@;
        let found = position_of(&self.entries, &language);
        let mut entries: Vec<(String, Vec<SubtitleData>)> = Vec::new();
        std::mem::swap(&mut entries, &mut self.entries);
        assert(entries@ == old_entries);
        match found {
            Some(i) => {
                let entry = (language, items);
                proof {
                    lemma_entries_map_update(old_entries, i as int, entry);
                }
                entries.set(i, entry);
                assert(entries@ == old_entries.update(i as int, entry));
                assert(keys_unique(entries@)) by {
                    assert forall|a: int, b: int|
                        0 <= a < entries@.len() && 0 <= b < entries@.len() && a != b implies #[trigger] entries@[a].0@
                        != #[trigger] entries@[b].0@ by {
                        if a != i && b != i {
                            assert(entries@[a] == old_entries[a] && entries@[b] == old_entries[b]);
                        } else if a == i {
                            assert(entries@[b] == old_entries[b]);
                            assert(old_entries[a].0@ != old_entries[b].0@);
                        } else {
                            assert(entries@[a] == old_entries[a]);
                            assert(old_entries[a].0@ != old_entries[b].0@);
                        }
                    }
                }
            },
            None => {
                entries.push((language, items));
                assert(entries@.drop_last() =~= old_entries);
                assert(keys_unique(entries@)) by {
                    assert forall|a: int, b: int|
                        0 <= a < entries@.len() && 0 <= b < entries@.len() && a != b implies #[trigger] entries@[a].0@
                        != #[trigger] entries@[b].0@ by {
                        if a < old_entries.len() && b < old_entries.len() {
                            assert(entries@[a] == old_entries[a] && entries@[b] == old_entries[b]);
                        } else if a < old_entries.len() {
                            assert(entries@[a] == old_entries[a]);
                        } else {
                            assert(entries@[b] == old_entries[b]);
                        }
                    }
                }
            },
        }
        self.entries = entries;
    }

    /// The groups as (language, subtitles) entries, each language once.
    pub fn into_entries(self) -> (res: Vec<(String, Vec<SubtitleData>)>)
        ensures
            keys_unique(res@),
            entries_map(res@) == self@,
    {
        proof {
            use_type_invariant(&self);
        }
        self.entries
    }
}


/// Why a subtitle page could not be read.
#[derive(Debug)]
pub enum SubtitlesError {
    /// The page did not parse; the parser's message.
    PageLoad(String),
    /// A subtitle entry has no download link.
    MissingLink,
}

/// The language blocks of a title's subtitle page.
pub open spec fn subtitle_blocks(html: Seq<char>) -> NodePath {
    NodePath::Find(
        Box::new(NodePath::Find(Box::new(NodePath::Document(html)), "[data-list-view=\"\"]"@)),
        "div"@,
    )
}

/// The inner `div`s of the `b`-th block.
pub open spec fn block_divs(html: Seq<char>, b: nat) -> NodePath {
    NodePath::Find(Box::new(NodePath::Item(Box::new(subtitle_blocks(html)), b)), "div"@)
}

/// The language heading of the `b`-th block.
pub open spec fn block_language(html: Seq<char>, b: nat) -> Seq<char> {
    node_text(NodePath::Find(Box::new(NodePath::Item(Box::new(block_divs(html, b)), 0)), "h2"@))
}

/// The subtitle rows of the `b`-th block.
pub open spec fn block_rows(html: Seq<char>, b: nat) -> NodePath {
    NodePath::Find(Box::new(block_divs(html, b)), "li.flex.justify-between.flex-col"@)
}

/// The `j`-th row of the `b`-th block.
pub open spec fn block_row(html: Seq<char>, b: nat, j: nat) -> NodePath {
    NodePath::Item(Box::new(block_rows(html, b)), j)
}

/// The title of a row, with its character references decoded.
pub open spec fn row_title(html: Seq<char>, b: nat, j: nat) -> Seq<char> {
    entities_decoded(node_text(NodePath::Find(Box::new(block_row(html, b, j)), "h4"@)))
}

/// The download link of a row: the `href` of the link around its quick
/// download button.
pub open spec fn row_link(html: Seq<char>, b: nat, j: nat) -> Option<Seq<char>> {
    node_attr(
        NodePath::Parent(
            Box::new(NodePath::Find(Box::new(block_row(html, b, j)), "button[title=\"Quick Download\"]"@)),
            "a"@,
        ),
        "href"@,
    )
}

/// Every row of every block has a download link.
pub open spec fn page_links_present(html: Seq<char>) -> bool {
    forall|b: nat, j: nat|
        b < node_count(subtitle_blocks(html)) && j < node_count(block_rows(html, b))
            ==> (#[trigger] row_link(html, b, j)) is Some
}

/// The subtitles of the `b`-th block, in page order.
pub open spec fn block_subtitles(html: Seq<char>, b: nat) -> Seq<(Seq<char>, Seq<char>)> {
    Seq::new(
        node_count(block_rows(html, b)),
        |j: int| (row_title(html, b, j as nat), row_link(html, b, j as nat).unwrap()),
    )
}

/// The groups read from the first `n` blocks, a later block of the same
/// language replacing an earlier one.
pub open spec fn page_groups_upto(html: Seq<char>, n: nat) -> Map<Seq<char>, Seq<(Seq<char>, Seq<char>)>>
    decreases n,
{
    if n == 0 {
        Map::empty()
    } else {
        page_groups_upto(html, (n - 1) as nat).insert(
            block_language(html, (n - 1) as nat),
            block_subtitles(html, (n - 1) as nat),
        )
    }
}

/// The groups of a whole page.
pub open spec fn page_groups(html: Seq<char>) -> Map<Seq<char>, Seq<(Seq<char>, Seq<char>)>> {
    page_groups_upto(html, node_count(subtitle_blocks(html)))
}

/// A language among the groups read from the first `n` blocks comes from
/// the last of those blocks that has that heading.
proof fn lemma_group_from_last_block(html: Seq<char>, n: nat, language: Seq<char>) -> (b: nat)
    requires
        page_groups_upto(html, n).contains_key(language),
    ensures
        b < n,
        block_language(html, b) == language,
        page_groups_upto(html, n)[language] == block_subtitles(html, b),
        forall|c: nat| b < c < n ==> block_language(html, c) != language,
    decreases n,
{
    if block_language(html, (n - 1) as nat) == language {
        (n - 1) as nat
    } else {
        lemma_group_from_last_block(html, (n - 1) as nat, language)
    }
}

/// Every block among the first `n` is listed under its heading.
proof fn lemma_block_listed(html: Seq<char>, n: nat, b: nat)
    requires
        b < n,
    ensures
        page_groups_upto(html, n).contains_key(block_language(html, b)),
    decreases n,
{
    if b < n - 1 {
        lemma_block_listed(html, (n - 1) as nat, b);
    }
}

/// On a page read in full, each language listed comes from a language block:
/// a `div` inside the elements matching `[data-list-view=""]` whose first
/// inner `div` has that `h2` heading, the last such block when several share
/// it. Its subtitles are the block's `li.flex.justify-between.flex-col` rows
/// in page order; each one's title is the decoded text of the row's `h4`,
/// and its link the `href` of the `<a>` around the row's
/// `button[title="Quick Download"]`, whatever other links the row holds.
pub proof fn lemma_subtitle_group_source(html: Seq<char>, groups: SubtitleGroups, language: Seq<char>) -> (b: nat)
    requires
        subtitles_read(html, Ok(groups)),
        groups@.contains_key(language),
    ensures
        ({
            let blocks = NodePath::Find(
                Box::new(NodePath::Find(Box::new(NodePath::Document(html)), "[data-list-view=\"\"]"@)),
                "div"@,
            );
            let divs = NodePath::Find(Box::new(NodePath::Item(Box::new(blocks), b)), "div"@);
            let rows = NodePath::Find(Box::new(divs), "li.flex.justify-between.flex-col"@);
            &&& b < node_count(blocks)
            &&& node_text(NodePath::Find(Box::new(NodePath::Item(Box::new(divs), 0)), "h2"@)) == language
            &&& (forall|c: nat|
                b < c < node_count(blocks) ==> node_text(
                    NodePath::Find(
                        Box::new(NodePath::Item(
                            Box::new(NodePath::Find(Box::new(NodePath::Item(Box::new(blocks), c)), "div"@)),
                            0,
                        )),
                        "h2"@,
                    ),
                ) != language)
            &&& groups@[language].len() == node_count(rows)
            &&& forall|j: int|
                0 <= j < groups@[language].len() ==> {
                    let row = NodePath::Item(Box::new(rows), j as nat);
                    let link = node_attr(
                        NodePath::Parent(
                            Box::new(NodePath::Find(Box::new(row), "button[title=\"Quick Download\"]"@)),
                            "a"@,
                        ),
                        "href"@,
                    );
                    &&& link == Some((#[trigger] groups@[language][j]).1)
                    &&& groups@[language][j].0 == entities_decoded(
                        node_text(NodePath::Find(Box::new(row), "h4"@)),
                    )
                }
        }),
{
    let n = node_count(subtitle_blocks(html));
    let b = lemma_group_from_last_block(html, n, language);
    let blocks = subtitle_blocks(html);
    assert forall|c: nat| b < c < n implies node_text(
        NodePath::Find(
            Box::new(NodePath::Item(
                Box::new(NodePath::Find(Box::new(NodePath::Item(Box::new(blocks), c)), "div"@)),
                0,
            )),
            "h2"@,
        ),
    ) != language by {
        assert(block_language(html, c) != language);
    }
    assert forall|j: int| 0 <= j < groups@[language].len() implies (#[trigger] groups@[language][j]) == (
        row_title(html, b, j as nat),
        row_link(html, b, j as nat).unwrap(),
    ) && row_link(html, b, j as nat) is Some by {
        assert(row_link(html, b, j as nat) is Some);
    }
    b
}

/// The download link of the `j`-th row of the `b`-th language block of a
/// page, written out: the `href` of the `<a>` around the row's quick
/// download button.
pub open spec fn quick_download_href(html: Seq<char>, b: nat, j: nat) -> Option<Seq<char>> {
    node_attr(
        NodePath::Parent(
            Box::new(NodePath::Find(
                Box::new(NodePath::Item(
                    Box::new(NodePath::Find(
                        Box::new(NodePath::Find(
                            Box::new(NodePath::Item(
                                Box::new(NodePath::Find(
                                    Box::new(NodePath::Find(
                                        Box::new(NodePath::Document(html)),
                                        "[data-list-view=\"\"]"@,
                                    )),
                                    "div"@,
                                )),
                                b,
                            )),
                            "div"@,
                        )),
                        "li.flex.justify-between.flex-col"@,
                    )),
                    j,
                )),
                "button[title=\"Quick Download\"]"@,
            )),
            "a"@,
        ),
        "href"@,
    )
}

/// How reading a subtitle page ends: a page that does not load gives the
/// parser's message; one that loads gives its groups exactly when every row
/// of every language block has a quick download link, and `MissingLink`
/// otherwise.
pub proof fn lemma_subtitle_page_outcome(html: Seq<char>, res: Result<SubtitleGroups, SubtitlesError>)
    requires
        subtitles_read(html, res),
    ensures
        !page_loads(html) ==> (res matches Err(SubtitlesError::PageLoad(message)) && message@ == load_error(
            html,
        )),
        page_loads(html) ==> (res is Ok <==> forall|b: nat, j: nat|
            b < node_count(subtitle_blocks(html)) && j < node_count(block_rows(html, b))
                ==> (#[trigger] quick_download_href(html, b, j)) is Some),
        page_loads(html) && !(res is Ok) ==> res matches Err(SubtitlesError::MissingLink),
{
    if page_loads(html) {
        let all_present = forall|b: nat, j: nat|
            b < node_count(subtitle_blocks(html)) && j < node_count(block_rows(html, b))
                ==> (#[trigger] quick_download_href(html, b, j)) is Some;
        if all_present {
            assert forall|b: nat, j: nat|
                b < node_count(subtitle_blocks(html)) && j < node_count(block_rows(html, b)) implies (
                #[trigger] row_link(html, b, j)) is Some by {
                assert(quick_download_href(html, b, j) is Some);
            }
        }
        if page_links_present(html) {
            assert forall|b: nat, j: nat|
                b < node_count(subtitle_blocks(html)) && j < node_count(block_rows(html, b)) implies (
                #[trigger] quick_download_href(html, b, j)) is Some by {
                assert(row_link(html, b, j) is Some);
            }
        }
    }
}

/// On a page read in full, every language block is listed under its
/// heading.
pub proof fn lemma_every_block_listed(html: Seq<char>, groups: SubtitleGroups, b: nat)
    requires
        subtitles_read(html, Ok(groups)),
        b < node_count(
            NodePath::Find(
                Box::new(NodePath::Find(Box::new(NodePath::Document(html)), "[data-list-view=\"\"]"@)),
                "div"@,
            ),
        ),
    ensures
        groups@.contains_key(
            node_text(
                NodePath::Find(
                    Box::new(NodePath::Item(
                        Box::new(NodePath::Find(
                            Box::new(NodePath::Item(
                                Box::new(NodePath::Find(
                                    Box::new(NodePath::Find(
                                        Box::new(NodePath::Document(html)),
                                        "[data-list-view=\"\"]"@,
                                    )),
                                    "div"@,
                                )),
                                b,
                            )),
                            "div"@,
                        )),
                        0,
                    )),
                    "h2"@,
                ),
            ),
        ),
{
    lemma_block_listed(html, node_count(subtitle_blocks(html)), b);
}

/// Reads the rows of one block, or finds one without a link.
fn read_block(html: &str, blocks: &Nodes, b: usize) -> (res: Result<(String, Vec<SubtitleData>), SubtitlesError>)
    requires
        blocks@ == subtitle_blocks(html@),
        root_page(blocks@) == html@,
        !has_nameless_tag(html@),
    ensures
        match res {
            Ok((language, items)) => {
                &&& language@ == block_language(html@, b as nat)
                &&& subtitles_view(items@) == block_subtitles(html@, b as nat)
                &&& forall|j: nat| j < node_count(block_rows(html@, b as nat))
                    ==> (#[trigger] row_link(html@, b as nat, j)) is Some
            },
            Err(SubtitlesError::MissingLink) => exists|j: nat|
                j < node_count(block_rows(html@, b as nat)) && (#[trigger] row_link(html@, b as nat, j)) is None,
            Err(_) => false,
        },
{
    let block = blocks.item(b);
    assert(root_page(block@) == html@);
    let divs = block.find("div");
    assert(root_page(divs@) == html@);
    let first = divs.item(0);
    let heading = first.find("h2");
    let language = heading.text();
    let rows = divs.find("li.flex.justify-between.flex-col");
    let n = rows.count();
    let mut items: Vec<SubtitleData> = Vec::new();
    for j in 0..n
        invariant
            rows@ == block_rows(html@, b as nat),
            root_page(rows@) == html@,
            !has_nameless_tag(html@),
            n == node_count(block_rows(html@, b as nat)),
            items@.len() == j,
            forall|k: int| 0 <= k < j ==> subtitle_view(#[trigger] items@[k]) == (
                row_title(html@, b as nat, k as nat),
                row_link(html@, b as nat, k as nat).unwrap(),
            ),
            forall|k: nat| k < j ==> (#[trigger] row_link(html@, b as nat, k)) is Some,
    {
        let row = rows.item(j);
        let heading = row.find("h4");
        let raw_title = heading.text();
        let title = decode_entities(raw_title.as_str());
        let button = row.find("button[title=\"Quick Download\"]");
        let anchor = button.parent("a");
        let link = match anchor.attr("href") {
            Some(l) => l,
            None => {
                assert(row_link(html@, b as nat, j as nat) is None);
                return Err(SubtitlesError::MissingLink);
            },
        };
        items.push(SubtitleData { title, link });
    }
    assert(subtitles_view(items@) =~= block_subtitles(html@, b as nat));
    Ok((language, items))
}

/// What reading a subtitle page gives: the parser's error when it does not
/// load, `MissingLink` when a row has no download link, and otherwise the
/// page's groups.
pub open spec fn subtitles_read(html: Seq<char>, res: Result<SubtitleGroups, SubtitlesError>) -> bool {
    match res {
        Ok(groups) => page_loads(html) && page_links_present(html) && groups@ == page_groups(html),
        Err(SubtitlesError::PageLoad(message)) => !page_loads(html) && message@ == load_error(html),
        Err(SubtitlesError::MissingLink) => page_loads(html) && !page_links_present(html),
    }
}

/// Reads a title's subtitle page: for each language block, its subtitles in
/// page order; fails on a page that does not parse or on a row without a
/// download link.
pub fn subtitles_from_page(html: &str) -> (res: Result<SubtitleGroups, SubtitlesError>)
    requires
        page_queryable(html@),
    ensures
        subtitles_read(html@, res),
{
    let page = match load_page(html) {
        Ok(p) => p,
        Err(message) => return Err(SubtitlesError::PageLoad(message)),
    };
    let list = page.find("[data-list-view=\"\"]");
    let blocks = list.find("div");
    let n = blocks.count();
    let mut groups = SubtitleGroups::new();
    for b in 0..n
        invariant
            page_loads(html@),
            !has_nameless_tag(html@),
            blocks@ == subtitle_blocks(html@),
            root_page(blocks@) == html@,
            n == node_count(subtitle_blocks(html@)),
            groups@ == page_groups_upto(html@, b as nat),
            forall|c: nat, j: nat| c < b && j < node_count(block_rows(html@, c))
                ==> (#[trigger] row_link(html@, c, j)) is Some,
    {
        match read_block(html, &blocks, b) {
            Ok((language, items)) => {
                groups.set_group(language, items);
            },
            Err(e) => {
                return Err(e);
            },
        }
    }
    Ok(groups)
}

/// Reads a subtitle page if it can be queried; `None` for a page that loads
/// with a nameless tag, on which reading it would panic.
pub fn read_subtitle_page(html: &str) -> (res: Option<Result<SubtitleGroups, SubtitlesError>>)
    ensures
        res is None <==> !page_queryable(html@),
        res matches Some(r) ==> subtitles_read(html@, r),
{
    if page_is_queryable(html) {
        Some(subtitles_from_page(html))
    } else {
        None
    }
}


/// How many times the subtitle page is requested at most.
pub open spec fn max_attempts() -> nat {
    3
}

/// The state of reading a title's subtitle page: its address and how many
/// requests have been made. The page is asked for again, up to three times
/// in all, while a request fails or the page lists no subtitles.
#[derive(Debug)]
pub struct SubtitleFetch {
    url: String,
    attempts: u32,
}

/// What the caller does next.
#[derive(Debug)]
pub enum FetchAction {
    /// Request the page at this address and report what came back.
    Fetch(String),
    /// Reading is over; these are the subtitles found.
    Done(SubtitleGroups),
}

/// What came of a request.
#[derive(Debug)]
pub enum FetchEvent {
    /// The request could not be sent or got no response.
    RequestFailed,
    /// The page's text.
    PageLoaded(String),
}

/// One step of reading: how the state changes and what comes next, for an
/// event. A failed request is retried while fewer than three requests were
/// made, else reading ends with nothing; a page is read, and asked for again
/// only while it lists nothing and fewer than three requests were made.
pub open spec fn fetch_step(
    before: SubtitleFetch,
    after: SubtitleFetch,
    event: FetchEvent,
    res: Result<FetchAction, SubtitlesError>,
) -> bool {
    &&& after.url() == before.url()
    &&& match event {
        FetchEvent::RequestFailed => if before.attempts() < max_attempts() {
            &&& after.attempts() == before.attempts() + 1
            &&& res matches Ok(FetchAction::Fetch(u)) && u@ == before.url()
        } else {
            &&& after.attempts() == before.attempts()
            &&& res matches Ok(FetchAction::Done(g)) && g@
                == Map::<Seq<char>, Seq<(Seq<char>, Seq<char>)>>::empty()
        },
        FetchEvent::PageLoaded(html) => {
            &&& (res matches Err(SubtitlesError::PageLoad(_))) <==> !page_loads(html@)
            &&& res matches Err(SubtitlesError::PageLoad(message)) ==> message@ == load_error(html@)
            &&& (res matches Err(SubtitlesError::MissingLink)) <==> page_loads(html@)
                && !page_links_present(html@)
            &&& res is Err ==> after.attempts() == before.attempts()
            &&& res is Ok ==> if page_groups(html@) == Map::<
                Seq<char>,
                Seq<(Seq<char>, Seq<char>)>,
            >::empty() && before.attempts() < max_attempts() {
                &&& after.attempts() == before.attempts() + 1
                &&& res matches Ok(FetchAction::Fetch(u)) && u@ == before.url()
            } else {
                &&& after.attempts() == before.attempts()
                &&& res matches Ok(FetchAction::Done(g)) && g@ == page_groups(html@)
            }
        },
    }
}

/// Reading that ends on a loaded page returns that page's groups, whatever
/// the number of requests made so far.
pub proof fn lemma_fetch_ends_with_the_page(
    before: SubtitleFetch,
    after: SubtitleFetch,
    html: String,
    res: Result<FetchAction, SubtitlesError>,
    groups: SubtitleGroups,
)
    requires
        fetch_step(before, after, FetchEvent::PageLoaded(html), res),
        res == Ok::<FetchAction, SubtitlesError>(FetchAction::Done(groups)),
    ensures
        groups@ == page_groups(html@),
        page_loads(html@),
        after.attempts() == before.attempts(),
{
}

/// A page that loads, has a link on every row and lists something ends the
/// reading with what it lists, on any request.
pub proof fn lemma_fetch_stops_at_a_listing(
    before: SubtitleFetch,
    after: SubtitleFetch,
    html: String,
    res: Result<FetchAction, SubtitlesError>,
)
    requires
        fetch_step(before, after, FetchEvent::PageLoaded(html), res),
        page_loads(html@),
        page_links_present(html@),
        page_groups(html@) != Map::<Seq<char>, Seq<(Seq<char>, Seq<char>)>>::empty(),
    ensures
        res matches Ok(FetchAction::Done(groups)) && groups@ == page_groups(html@),
{
}

/// Another request is asked only while fewer than three were made, to the
/// same address, after a failed request or a page that lists nothing.
pub proof fn lemma_fetch_asks_again_only_while_empty(
    before: SubtitleFetch,
    after: SubtitleFetch,
    event: FetchEvent,
    res: Result<FetchAction, SubtitlesError>,
    url: String,
)
    requires
        fetch_step(before, after, event, res),
        res == Ok::<FetchAction, SubtitlesError>(FetchAction::Fetch(url)),
    ensures
        url@ == before.url(),
        after.url() == before.url(),
        before.attempts() < 3,
        after.attempts() == before.attempts() + 1,
        event matches FetchEvent::PageLoaded(html) ==> page_groups(html@) == Map::<
            Seq<char>,
            Seq<(Seq<char>, Seq<char>)>,
        >::empty(),
{
}

/// While fewer than three requests were made, a failed request, or a page
/// that loads with a link on every row and lists nothing, is answered by
/// asking the same address again.
pub proof fn lemma_fetch_retries_within_budget(
    before: SubtitleFetch,
    after: SubtitleFetch,
    event: FetchEvent,
    res: Result<FetchAction, SubtitlesError>,
)
    requires
        fetch_step(before, after, event, res),
        before.attempts() < 3,
        match event {
            FetchEvent::RequestFailed => true,
            FetchEvent::PageLoaded(html) => page_loads(html@) && page_links_present(html@) && page_groups(
                html@,
            ) == Map::<Seq<char>, Seq<(Seq<char>, Seq<char>)>>::empty(),
        },
    ensures
        res matches Ok(FetchAction::Fetch(url)) && url@ == before.url(),
        after.attempts() == before.attempts() + 1,
{
}

/// A page that does not load ends the reading with the parser's message,
/// and one that loads with a row lacking a download link with
/// `MissingLink`, on any request; neither counts as another request.
pub proof fn lemma_fetch_page_errors(
    before: SubtitleFetch,
    after: SubtitleFetch,
    html: String,
    res: Result<FetchAction, SubtitlesError>,
)
    requires
        fetch_step(before, after, FetchEvent::PageLoaded(html), res),
    ensures
        !page_loads(html@) ==> (res matches Err(SubtitlesError::PageLoad(message)) && message@
            == load_error(html@)),
        page_loads(html@) && !page_links_present(html@) ==> (res matches Err(
            SubtitlesError::MissingLink,
        )),
        res is Err ==> after.attempts() == before.attempts(),
{
}

/// A failed request ends the reading only once three were made, and then
/// with nothing found.
pub proof fn lemma_fetch_gives_up_with_nothing(
    before: SubtitleFetch,
    after: SubtitleFetch,
    res: Result<FetchAction, SubtitlesError>,
    groups: SubtitleGroups,
)
    requires
        fetch_step(before, after, FetchEvent::RequestFailed, res),
        res == Ok::<FetchAction, SubtitlesError>(FetchAction::Done(groups)),
    ensures
        before.attempts() >= 3,
        groups@ == Map::<Seq<char>, Seq<(Seq<char>, Seq<char>)>>::empty(),
{
}

impl SubtitleFetch {
    #[verifier::type_invariant]
    closed spec fn inv(self) -> bool {
        1 <= self.attempts <= max_attempts()
    }

    /// The page's address.
    pub closed spec fn url(self) -> Seq<char> {
        self.url@
    }

    /// How many requests have been made.
    pub closed spec fn attempts(self) -> nat {
        self.attempts as nat
    }

    /// How many requests have been made: between one and three.
    pub fn attempts_made(&self) -> (res: u32)
        ensures
            res == self.attempts(),
            1 <= res <= max_attempts(),
    {
        proof {
            use_type_invariant(self);
        }
        self.attempts
    }

    /// Starts reading the subtitle page at `link`: its first request.
    pub fn start(link: &str) -> (res: (SubtitleFetch, FetchAction))
        ensures
            res.0.attempts() == 1,
            res.0.url() == site_prefix() + link@,
            res.1 matches FetchAction::Fetch(u) && u@ == res.0.url(),
    {
        let url = site_url(link);
        let first = url.clone();
        (SubtitleFetch { url, attempts: 1 }, FetchAction::Fetch(first))
    }

    /// Takes what came of the last request and says what to do next.
    pub fn on_event(&mut self, event: FetchEvent) -> (res: Result<FetchAction, SubtitlesError>)
        requires
            event matches FetchEvent::PageLoaded(html) ==> page_queryable(html@),
        ensures
            fetch_step(*old(self), *final(self), event, res),
    {
        proof {
            use_type_invariant(&*self);
        }
        match event {
            FetchEvent::RequestFailed => {
                if self.attempts < 3 {
                    self.attempts = self.attempts + 1;
                    Ok(FetchAction::Fetch(self.url.clone()))
                } else {
                    Ok(FetchAction::Done(SubtitleGroups::new()))
                }
            },
            FetchEvent::PageLoaded(html) => {
                let groups = subtitles_from_page(html.as_str())?;
                if groups.is_empty() && self.attempts < 3 {
                    self.attempts = self.attempts + 1;
                    Ok(FetchAction::Fetch(self.url.clone()))
                } else {
                    Ok(FetchAction::Done(groups))
                }
            },
        }
    }

    /// Takes what came of the last request if its page can be queried, and
    /// says what to do next; `None`, with nothing changed, for a page that
    /// loads with a nameless tag, on which reading it would panic.
    pub fn accept_event(&mut self, event: FetchEvent) -> (res: Option<Result<FetchAction, SubtitlesError>>)
        ensures
            res is None <==> (event matches FetchEvent::PageLoaded(html) && !page_queryable(html@)),
            res is None ==> *final(self) == *old(self),
            res matches Some(r) ==> fetch_step(*old(self), *final(self), event, r),
    {
        if let FetchEvent::PageLoaded(html) = &event {
            if !page_is_queryable(html.as_str()) {
                return None;
            }
        }
        Some(self.on_event(event))
    }
}

} // verus!
