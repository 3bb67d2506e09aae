use vstd::prelude::*;

use visdom::types::Elements;
use visdom::Vis;

verus! {

#[verifier::external_type_specification]
#[verifier::external_body]
pub struct ExElements<'a>(Elements<'a>);

/// How a set of elements of a page was reached: the page itself, the
/// descendants matching a selector, one element of a set by position, or
/// the parents matching a selector.
pub enum NodePath {
    Document(Seq<char>),
    Find(Box<NodePath>, Seq<char>),
    Item(Box<NodePath>, nat),
    Parent(Box<NodePath>, Seq<char>),
}

/// Whether `Vis::load` accepts this HTML text.
pub uninterp spec fn page_loads(html: Seq<char>) -> bool;

/// The message of the error `Vis::load` returns for this HTML text, written
/// out with `to_string`.
pub uninterp spec fn load_error(html: Seq<char>) -> Seq<char>;

/// What `Elements::length` returns for the set reached by `nodes`.
pub uninterp spec fn node_count(nodes: NodePath) -> nat;

/// What `Elements::text` returns for the set reached by `nodes`.
pub uninterp spec fn node_text(nodes: NodePath) -> Seq<char>;

/// What `Elements::attr` returns for the set reached by `nodes`, the value
/// written out as text.
pub uninterp spec fn node_attr(nodes: NodePath, name: Seq<char>) -> Option<Seq<char>>;

/// What `tag_name` returns for the first element of the set reached by
/// `nodes` (upper case), or nothing for an empty set.
pub uninterp spec fn node_tag_name(nodes: NodePath) -> Option<Seq<char>>;

/// What `html_escape::decode_html_entities` returns for a text.
pub uninterp spec fn entities_decoded(text: Seq<char>) -> Seq<char>;

/// The selectors this library queries pages with; each of them parses.
pub open spec fn known_selector(selector: Seq<char>) -> bool {
    ||| selector == ".mt-5.flex.flex-col.gap-4[style=\"direction:ltr\"]"@
    ||| selector == "a"@
    ||| selector == ".text-xl.font-bold"@
    ||| selector == "[data-list-view=\"\"]"@
    ||| selector == "div"@
    ||| selector == "h2"@
    ||| selector == "li.flex.justify-between.flex-col"@
    ||| selector == "h4"@
    ||| selector == "button[title=\"Quick Download\"]"@
    ||| selector == "*"@
}

/// The page a set of elements belongs to.
pub open spec fn root_page(nodes: NodePath) -> Seq<char>
    decreases nodes,
{
    match nodes {
        NodePath::Document(html) => html,
        NodePath::Find(inner, _) => root_page(*inner),
        NodePath::Item(inner, _) => root_page(*inner),
        NodePath::Parent(inner, _) => root_page(*inner),
    }
}

/// Every element of a page, in document order.
pub open spec fn page_elements(html: Seq<char>) -> NodePath {
    NodePath::Find(Box::new(NodePath::Document(html)), "*"@)
}

/// The `i`-th element of a page.
pub open spec fn page_element(html: Seq<char>, i: nat) -> NodePath {
    NodePath::Item(Box::new(page_elements(html)), i)
}

/// The loaded page holds a tag without a name: one of its elements has an
/// empty tag name. The parser leaves such a tag when the text stops inside a
/// tag name; every query that reads element names or attributes panics on it.
pub open spec fn has_nameless_tag(html: Seq<char>) -> bool {
    exists|i: nat|
        i < node_count(page_elements(html)) && #[trigger] node_tag_name(page_element(html, i))
            == Some(Seq::<char>::empty())
}

/// A page the library can query: it does not load, or it loads without a
/// nameless tag.
pub open spec fn page_queryable(html: Seq<char>) -> bool {
    page_loads(html) ==> !has_nameless_tag(html)
}

/// Whether a page can be queried: loads it and looks at the tag name of each
/// of its elements.
pub fn page_is_queryable(html: &str) -> (res: bool)
    ensures
        res == page_queryable(html@),
{
    let page = match load_page(html) {
        Ok(p) => p,
        Err(_) => return true,
    };
    let all = page.find("*");
    let n = all.count();
    let mut i: usize = 0;
    while i < n
        invariant
            page_loads(html@),
            all@ == page_elements(html@),
            n == node_count(page_elements(html@)),
            i <= n,
            forall|j: nat| j < i ==> #[trigger] node_tag_name(page_element(html@, j))
                != Some(Seq::<char>::empty()),
        decreases n - i,
    {
        let name = all.item(i).tag_name();
        match name {
            Some(t) => {
                if t.as_str().is_empty() {
                    assert(t@.len() == 0);
                    assert(t@ =~= Seq::<char>::empty());
                    assert(node_tag_name(page_element(html@, i as nat)) == Some(Seq::<char>::empty()));
                    return false;
                }
                assert(t@ != Seq::<char>::empty());
            },
            None => {},
        }
        i = i + 1;
    }
    true
}

/// A set of elements of a loaded page, with the path that reached it.
pub(crate) struct Nodes {
    elements: Elements<'static>,
    path: Ghost<NodePath>,
}

impl View for Nodes {
    type V = NodePath;

    closed spec fn view(&self) -> NodePath {
        self.path@
    }
}

/// Parses a page with `Vis::load`.
///
/// Trusted: success is named `page_loads` of the text, the elements
/// returned are the page itself, and the error's message is named
/// `load_error` of the text.
#[verifier::external_body]
pub(crate) fn load_page(html: &str) -> (res: Result<Nodes, String>)
    ensures
        res is Ok <==> page_loads(html@),
        res matches Ok(nodes) ==> nodes@ == NodePath::Document(html@),
        res matches Err(message) ==> message@ == load_error(html@),
{
    match Vis::load(html.to_string()) {
        Ok(elements) => Ok(Nodes { elements, path: Ghost(NodePath::Document(html@)) }),
        Err(e) => Err(e.to_string()),
    }
}

/// Decodes HTML character references with `html_escape::decode_html_entities`.
///
/// Trusted: the result is named `entities_decoded` of the text; a text
/// without `&` holds no reference and comes back unchanged (the decoder looks
/// for `&` first and returns the input when it finds none).
#[verifier::external_body]
pub(crate) fn decode_entities(text: &str) -> (res: String)
    ensures
        res@ == entities_decoded(text@),
        !text@.contains('&') ==> res@ == text@,
{
    html_escape::decode_html_entities(text).to_string()
}

impl Nodes {
    /// `Elements::find`: the descendants matching `selector`.
    ///
    /// Trusted: the result is the set reached by this path. `find` panics on a
    /// selector it cannot parse when the set is empty, so the selector must be
    /// one of those the library uses, all of which parse. Matching reads
    /// element names and attributes, which panics on a nameless tag; `*`
    /// reads neither. That a page without a nameless tag makes no query panic
    /// is taken from the source of `visdom` and `rphtml`, not proved.
    #[verifier::external_body]
    pub(crate) fn find(&self, selector: &str) -> (res: Nodes)
        requires
            known_selector(selector@),
            selector@ == "*"@ || !has_nameless_tag(root_page(self@)),
        ensures
            res@ == NodePath::Find(Box::new(self@), selector@),
    {
        Nodes {
            elements: self.elements.find(selector),
            path: Ghost(NodePath::Find(Box::new(self@), selector@)),
        }
    }

    /// `Elements::eq`: the element at `index`, alone (an empty set past the end).
    ///
    /// Trusted: the result is the set reached by this path.
    #[verifier::external_body]
    pub(crate) fn item(&self, index: usize) -> (res: Nodes)
        ensures
            res@ == NodePath::Item(Box::new(self@), index as nat),
    {
        Nodes {
            elements: self.elements.eq(index),
            path: Ghost(NodePath::Item(Box::new(self@), index as nat)),
        }
    }

    /// `Elements::parent`: the parents matching `selector`.
    ///
    /// Trusted: the result is the set reached by this path.
    #[verifier::external_body]
    pub(crate) fn parent(&self, selector: &str) -> (res: Nodes)
        requires
            known_selector(selector@),
            !has_nameless_tag(root_page(self@)),
        ensures
            res@ == NodePath::Parent(Box::new(self@), selector@),
    {
        Nodes {
            elements: self.elements.parent(selector),
            path: Ghost(NodePath::Parent(Box::new(self@), selector@)),
        }
    }

    /// `Elements::length`.
    ///
    /// Trusted: the result is named `node_count` of the path.
    #[verifier::external_body]
    pub(crate) fn count(&self) -> (res: usize)
        ensures
            res == node_count(self@),
    {
        self.elements.length()
    }

    /// `Elements::text`: the text content of the elements, joined.
    ///
    /// Trusted: the result is named `node_text` of the path.
    #[verifier::external_body]
    pub(crate) fn text(&self) -> (res: String)
        requires
            !has_nameless_tag(root_page(self@)),
        ensures
            res@ == node_text(self@),
    {
        self.elements.text()
    }

    /// `Elements::attr`: the attribute of the first element, as text.
    ///
    /// Trusted: the result is named `node_attr` of the path and the name.
    #[verifier::external_body]
    pub(crate) fn attr(&self, name: &str) -> (res: Option<String>)
        requires
            !has_nameless_tag(root_page(self@)),
        ensures
            match res {
                Some(v) => node_attr(self@, name@) == Some(v@),
                None => node_attr(self@, name@) is None,
            },
    {
        match self.elements.attr(name) {
            Some(v) => Some(v.to_string()),
            None => None,
        }
    }

    /// The tag name of the first element, as `tag_name` gives it: upper case,
    /// and empty for a tag the parser left without a name (reading it does
    /// not panic).
    ///
    /// Trusted: the result is named `node_tag_name` of the path.
    #[verifier::external_body]
    pub(crate) fn tag_name(&self) -> (res: Option<String>)
        ensures
            match res {
                Some(v) => node_tag_name(self@) == Some(v@),
                None => node_tag_name(self@) is None,
            },
    {
        match self.elements.get(0) {
            Some(element) => Some(element.tag_name()),
            None => None,
        }
    }
}

} // verus!
