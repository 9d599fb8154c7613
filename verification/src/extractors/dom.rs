//! HTML documents as the extractors read them: the nodes of the parsed
//! document tree, with the order in which the parser created them.
use vstd::prelude::*;
use scraper::Html;
use scraper::Node::{Element, Text};
use std::collections::HashMap;

verus! {

/// What a node of a document is.
#[derive(Debug)]
pub enum DomKind {
    /// An element, with its tag name and its attributes.
    Element(String, Vec<(String, String)>),
    /// A run of text.
    Text(String),
    /// The document itself, a comment, a doctype or a processing instruction.
    Other,
}

/// A node of a document: the position of the node it hangs from, if any,
/// and what it is.
#[derive(Debug)]
pub struct DomNode(pub Option<usize>, pub DomKind);

/// A parsed document. `nodes` lists the nodes of the document tree in
/// document order (each node before the nodes inside it), starting with the
/// document node; `select_order` goes through every node the parser created,
/// in the order it created them, which is the order in which whole-document
/// selection visits them: the position in `nodes` of each, or nothing for a
/// node the parser left outside the document tree.
#[derive(Debug)]
pub struct DomTree {
    pub nodes: Vec<DomNode>,
    pub select_order: Vec<Option<usize>>,
}

/// What a node is, as plain values.
pub ghost enum DomKindView {
    Element(Seq<char>, Seq<(Seq<char>, Seq<char>)>),
    Text(Seq<char>),
    Other,
}

/// A node, as plain values.
pub ghost struct DomNodeView {
    pub parent: Option<usize>,
    pub kind: DomKindView,
}

/// A document, as plain values.
pub ghost struct DomTreeView {
    pub nodes: Seq<DomNodeView>,
    pub select_order: Seq<Option<usize>>,
}

pub open spec fn attr_views(a: Seq<(String, String)>) -> Seq<(Seq<char>, Seq<char>)> {
    a.map_values(|p: (String, String)| (p.0@, p.1@))
}

impl View for DomKind {
    type V = DomKindView;

    open spec fn view(&self) -> DomKindView {
        match self {
            DomKind::Element(n, a) => DomKindView::Element(n@, attr_views(a@)),
            DomKind::Text(t) => DomKindView::Text(t@),
            DomKind::Other => DomKindView::Other,
        }
    }
}

impl View for DomNode {
    type V = DomNodeView;

    open spec fn view(&self) -> DomNodeView {
        DomNodeView { parent: self.0, kind: self.1@ }
    }
}

impl View for DomTree {
    type V = DomTreeView;

    open spec fn view(&self) -> DomTreeView {
        DomTreeView {
            nodes: self.nodes@.map_values(|n: DomNode| n@),
            select_order: self.select_order@,
        }
    }
}

/// A node hangs from a node listed before position `i`, or from none.
pub open spec fn parent_before(n: DomNodeView, i: int) -> bool {
    n.parent matches Some(p) ==> p < i
}

impl DomTreeView {
    /// Every node hangs from a node listed before it, and the selection
    /// order names nodes of the document.
    pub open spec fn wf(self) -> bool {
        &&& forall|i: int|
            0 <= i < self.nodes.len() ==> parent_before(#[trigger] self.nodes[i], i)
        &&& forall|k: int|
            0 <= k < self.select_order.len() ==> (#[trigger] self.select_order[k] matches Some(i)
                ==> i < self.nodes.len())
    }

    /// Node `i` is an element with the tag name `name`.
    pub open spec fn is_element_named(self, i: int, name: Seq<char>) -> bool {
        self.nodes[i].kind matches DomKindView::Element(n, _) && n == name
    }

    /// Node `a` is an ancestor of node `j`.
    pub open spec fn is_ancestor(self, a: int, j: int) -> bool
        decreases j,
    {
        if 0 <= j < self.nodes.len() {
            match self.nodes[j].parent {
                Some(p) => if p < j {
                    p == a || self.is_ancestor(a, p as int)
                } else {
                    false
                },
                None => false,
            }
        } else {
            false
        }
    }

    /// Some element above node `j` has one of the given tag names.
    pub open spec fn has_ancestor_named(self, j: int, names: Seq<Seq<char>>) -> bool
        decreases j,
    {
        if 0 <= j < self.nodes.len() {
            match self.nodes[j].parent {
                Some(p) => if p < j {
                    (self.nodes[p as int].kind matches DomKindView::Element(n, _) && names.contains(
                        n,
                    )) || self.has_ancestor_named(p as int, names)
                } else {
                    false
                },
                None => false,
            }
        } else {
            false
        }
    }

    /// The runs of text inside node `i` that come before node `k`, in
    /// document order.
    pub open spec fn texts_below(self, i: int, k: int) -> Seq<Seq<char>>
        decreases k - i,
    {
        if k <= i + 1 {
            seq![]
        } else {
            let prev = self.texts_below(i, k - 1);
            let j = k - 1;
            if self.is_ancestor(i, j) && self.nodes[j].kind is Text {
                prev.push(self.nodes[j].kind->Text_0)
            } else {
                prev
            }
        }
    }

    /// The runs of text inside node `i`, in document order.
    pub open spec fn texts_of(self, i: int) -> Seq<Seq<char>> {
        self.texts_below(i, self.nodes.len() as int)
    }
}

/// An attribute's name and value, owned.
pub fn owned_pair(p: (&str, &str)) -> (r: (String, String))
    ensures
        r.0@ == p.0@,
        r.1@ == p.1@,
{
    (String::from_str(p.0), String::from_str(p.1))
}

/// A parsed document, as `scraper::Html::parse_document` builds it. It
/// depends on the text alone.
pub uninterp spec fn parsed_document(html: Seq<char>) -> DomTreeView;

/// Parses an HTML document (`scraper::Html::parse_document`) and lists its
/// nodes: those of the document tree in document order from the document
/// node, each with the position of its parent in that list, and then every
/// node in the order the parser created them, by its position in the first
/// list (nothing for a node outside the document tree). The contract names
/// the result, and states that parents come before their children.
#[verifier::external_body]
pub(crate) fn parse_document(html: &str) -> (d: DomTree)
    ensures
        d@ == parsed_document(html@),
        d@.wf(),
{
    let doc = Html::parse_document(html);
    let mut index = HashMap::new();
    let mut nodes = Vec::new();
    for n in doc.tree.root().descendants() {
        index.insert(n.id(), nodes.len());
        nodes.push(DomNode(n.parent().map(|p| index[&p.id()]), match n.value() {
            Element(e) => DomKind::Element(e.name().into(), e.attrs().map(owned_pair).collect()),
            Text(t) => DomKind::Text(t.to_string()),
            _ => DomKind::Other,
        }));
    }
    DomTree { nodes, select_order: doc.tree.nodes().map(|n| index.get(&n.id()).copied()).collect() }
}

impl DomTreeView {
    /// The value of the first attribute named `name` of element `i`.
    pub open spec fn attr(self, i: int, name: Seq<char>) -> Option<Seq<char>> {
        match self.nodes[i].kind {
            DomKindView::Element(_, attrs) => attr_lookup(attrs, name),
            _ => None,
        }
    }

    /// The first element inside node `i`, at or after position `k`, with the
    /// tag name `name`.
    pub open spec fn first_inside_from(self, i: int, name: Seq<char>, k: int) -> Option<int>
        decreases self.nodes.len() - k,
    {
        if k >= self.nodes.len() || k < 0 {
            None
        } else if self.is_ancestor(i, k) && self.is_element_named(k, name) {
            Some(k)
        } else {
            self.first_inside_from(i, name, k + 1)
        }
    }

    /// The first element inside node `i`, in document order, with the tag name
    /// `name`.
    pub open spec fn first_inside(self, i: int, name: Seq<char>) -> Option<int> {
        self.first_inside_from(i, name, i + 1)
    }
}

/// The value of the first attribute named `name`.
pub open spec fn attr_lookup(attrs: Seq<(Seq<char>, Seq<char>)>, name: Seq<char>) -> Option<Seq<char>>
    decreases attrs.len(),
{
    if attrs.len() == 0 {
        None
    } else if attrs[0].0 == name {
        Some(attrs[0].1)
    } else {
        attr_lookup(attrs.drop_first(), name)
    }
}

/// What the first matching element found from position `k` on is.
pub proof fn lemma_first_inside_from(d: DomTreeView, i: int, name: Seq<char>, k: int)
    ensures
        d.first_inside_from(i, name, k) matches Some(j) ==> k <= j < d.nodes.len()
            && d.is_element_named(j, name) && d.is_ancestor(i, j),
    decreases d.nodes.len() - k,
{
    if k >= 0 && k < d.nodes.len() && !(d.is_ancestor(i, k) && d.is_element_named(k, name)) {
        lemma_first_inside_from(d, i, name, k + 1);
    }
}

/// The view of node `i`.
pub proof fn lemma_node_view(d: &DomTree, i: int)
    requires
        0 <= i < d.nodes@.len(),
    ensures
        d@.nodes[i] == d.nodes@[i]@,
        d@.nodes.len() == d.nodes@.len(),
{
}

/// Whether node `a` is an ancestor of node `j`.
pub fn is_ancestor(d: &DomTree, a: usize, j: usize) -> (b: bool)
    requires
        d@.wf(),
        j < d.nodes.len(),
    ensures
        b == d@.is_ancestor(a as int, j as int),
{
    let mut cur = j;
    loop
        invariant
            d@.wf(),
            cur < d.nodes.len(),
            d@.is_ancestor(a as int, j as int) == d@.is_ancestor(a as int, cur as int),
        decreases cur,
    {
        proof {
            lemma_node_view(d, cur as int);
            assert(parent_before(d@.nodes[cur as int], cur as int));
        }
        match d.nodes[cur].0 {
            Some(p) => {
                if p == a {
                    return true;
                }
                cur = p;
            },
            None => {
                return false;
            },
        }
    }
}

/// Whether some element above node `j` has one of the tag names.
pub fn has_ancestor_named(d: &DomTree, j: usize, names: &Vec<&str>) -> (b: bool)
    requires
        d@.wf(),
        j < d.nodes.len(),
    ensures
        b == d@.has_ancestor_named(j as int, names@.map_values(|n: &str| n@)),
{
    let ghost ns = names@.map_values(|n: &str| n@);
    let mut cur = j;
    loop
        invariant
            d@.wf(),
            cur < d.nodes.len(),
            ns == names@.map_values(|n: &str| n@),
            d@.has_ancestor_named(j as int, ns) == d@.has_ancestor_named(cur as int, ns),
        decreases cur,
    {
        proof {
            lemma_node_view(d, cur as int);
            assert(parent_before(d@.nodes[cur as int], cur as int));
        }
        match d.nodes[cur].0 {
            Some(p) => {
                proof {
                    lemma_node_view(d, p as int);
                }
                if let DomKind::Element(n, attrs) = &d.nodes[p].1 {
                    assert(d.nodes@[p as int].1@ == DomKindView::Element(n@, attr_views(attrs@)));
                    assert(d@.nodes[p as int].kind == DomKindView::Element(n@, attr_views(attrs@)));
                    let mut k: usize = 0;
                    while k < names.len()
                        invariant
                            k <= names.len(),
                            ns == names@.map_values(|n: &str| n@),
                            forall|m: int| 0 <= m < k ==> ns[m] != n@,
                            d@.wf(),
                            cur < d.nodes.len(),
                            p < cur,
                            d@.nodes[cur as int].parent == Some(p),
                            d@.has_ancestor_named(j as int, ns) == d@.has_ancestor_named(cur as int, ns),
                            d@.nodes[p as int].kind == DomKindView::Element(n@, attr_views(attrs@)),
                        decreases names.len() - k,
                    {
                        if crate::text::str_eq(n.as_str(), names[k]) {
                            assert(ns[k as int] == n@);
                            assert(ns.contains(n@));
                            assert(d@.has_ancestor_named(cur as int, ns));
                            return true;
                        }
                        k = k + 1;
                    }
                    assert(!ns.contains(n@));
                }
                cur = p;
            },
            None => {
                return false;
            },
        }
    }
}

/// The runs of text inside node `i`, in document order.
pub fn texts_of(d: &DomTree, i: usize) -> (r: Vec<String>)
    requires
        d@.wf(),
        i < d.nodes.len(),
    ensures
        crate::text::views(r@) == d@.texts_of(i as int),
{
    let mut r: Vec<String> = Vec::new();
    let mut k: usize = i + 1;
    while k < d.nodes.len()
        invariant
            d@.wf(),
            i < k <= d.nodes.len(),
            crate::text::views(r@) == d@.texts_below(i as int, k as int),
        decreases d.nodes.len() - k,
    {
        proof {
            lemma_node_view(d, k as int);
        }
        let inside = is_ancestor(d, i, k);
        if inside {
            if let DomKind::Text(t) = &d.nodes[k].1 {
                let ghost before = r@;
                r.push(t.clone());
                assert(crate::text::views(r@) =~= crate::text::views(before).push(t@));
            }
        }
        k = k + 1;
    }
    r
}

/// The value of the first attribute named `name`.
pub fn attr_value(attrs: &Vec<(String, String)>, name: &str) -> (r: Option<String>)
    ensures
        r matches Some(v) ==> attr_lookup(attr_views(attrs@), name@) == Some(v@),
        r is None ==> attr_lookup(attr_views(attrs@), name@) is None,
{
    let ghost all = attr_views(attrs@);
    let mut k: usize = 0;
    assert(all.skip(0) == all);
    while k < attrs.len()
        invariant
            k <= attrs.len(),
            all == attr_views(attrs@),
            attr_lookup(all, name@) == attr_lookup(all.skip(k as int), name@),
        decreases attrs.len() - k,
    {
        let ghost rest = all.skip(k as int);
        assert(rest[0] == (attrs@[k as int].0@, attrs@[k as int].1@));
        assert(rest.drop_first() == all.skip(k + 1));
        if crate::text::str_eq(attrs[k].0.as_str(), name) {
            return Some(attrs[k].1.clone());
        }
        k = k + 1;
    }
    assert(all.skip(k as int).len() == 0);
    None
}

/// The first element inside node `i`, in document order, with the tag name.
pub fn first_inside(d: &DomTree, i: usize, name: &str) -> (r: Option<usize>)
    requires
        d@.wf(),
        i < d.nodes.len(),
    ensures
        r matches Some(j) ==> d@.first_inside(i as int, name@) == Some(j as int) && j < d.nodes.len(),
        r is None ==> d@.first_inside(i as int, name@) is None,
{
    let mut k: usize = i + 1;
    while k < d.nodes.len()
        invariant
            d@.wf(),
            i < k <= d.nodes.len(),
            d@.first_inside(i as int, name@) == d@.first_inside_from(i as int, name@, k as int),
        decreases d.nodes.len() - k,
    {
        proof {
            lemma_node_view(d, k as int);
        }
        if is_ancestor(d, i, k) {
            if let DomKind::Element(n, _) = &d.nodes[k].1 {
                if crate::text::str_eq(n.as_str(), name) {
                    return Some(k);
                }
            }
        }
        k = k + 1;
    }
    None
}

} // verus!
