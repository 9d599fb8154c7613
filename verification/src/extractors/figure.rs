//! The figures of an HTML document: each `figure` element with an image.
use vstd::prelude::*;
use crate::error::FinanalizeError;
use crate::text::{join, join_strings, laid_out, lemma_join_laid_out};
use super::{
    Content, ContentExtract, ContentView, Figure, FigureView, FileType, figure_views, invalid_input,
    invalid_input_message, is_parse_error, content_views,
};
use super::dom::{DomKind, DomTree, DomTreeView, attr_value, first_inside, parse_document, parsed_document, texts_of};

verus! {

/// Node `i` is an element named `name` that hangs from a node: what a
/// whole-document selection of that tag name takes.
pub open spec fn selectable(d: DomTreeView, i: int, name: Seq<char>) -> bool {
    &&& d.is_element_named(i, name)
    &&& d.nodes[i].parent is Some
}

/// The figure that the `figure` element `i` holds: its first image, with the
/// image's source (empty when it has none) and alternative text, and the text
/// of its first caption. None when it holds no image.
pub open spec fn figure_at(d: DomTreeView, i: int) -> Option<FigureView> {
    match d.first_inside(i, "img"@) {
        None => None,
        Some(img) => Some(
            FigureView {
                url: match d.attr(img, "src"@) {
                    Some(v) => v,
                    None => Seq::empty(),
                },
                alt_text: d.attr(img, "alt"@),
                caption: match d.first_inside(i, "figcaption"@) {
                    Some(c) => Some(join(d.texts_of(c), " "@)),
                    None => None,
                },
            },
        ),
    }
}

/// The figures of the first `k` nodes in selection order.
pub open spec fn figures_upto(d: DomTreeView, k: int) -> Seq<FigureView>
    decreases k,
{
    if k <= 0 {
        seq![]
    } else {
        let prev = figures_upto(d, k - 1);
        match d.select_order[k - 1] {
            Some(i) => {
                let i = i as int;
                if selectable(d, i, "figure"@) {
                    match figure_at(d, i) {
                        Some(f) => prev.push(f),
                        None => prev,
                    }
                } else {
                    prev
                }
            },
            None => prev,
        }
    }
}

/// The figures of a document, in selection order.
pub open spec fn document_figures(d: DomTreeView) -> Seq<FigureView> {
    figures_upto(d, d.select_order.len() as int)
}

/// The figure that the `figure` element `i` holds.
fn figure_of(d: &DomTree, i: usize) -> (r: Option<Figure>)
    requires
        d@.wf(),
        i < d.nodes.len(),
    ensures
        r matches Some(f) ==> figure_at(d@, i as int) == Some(f@),
        r is None ==> figure_at(d@, i as int) is None,
{
    let img = match first_inside(d, i, "img") {
        Some(img) => img,
        None => {
            return None;
        },
    };
    proof {
        super::dom::lemma_first_inside_from(d@, i as int, "img"@, i as int + 1);
        super::dom::lemma_node_view(d, img as int);
    }
    let (url, alt_text) = match &d.nodes[img].1 {
        DomKind::Element(_, attrs) => {
            let url = match attr_value(attrs, "src") {
                Some(v) => v,
                None => String::new(),
            };
            (url, attr_value(attrs, "alt"))
        },
        _ => {
            assert(false);
            (String::new(), None)
        },
    };
    let caption = match first_inside(d, i, "figcaption") {
        Some(c) => Some(join_strings(&texts_of(d, c), " ")),
        None => None,
    };
    Some(Figure { url, alt_text, caption })
}

/// The figures of a document, in selection order.
pub fn figures_of(d: &DomTree) -> (r: Vec<Figure>)
    requires
        d@.wf(),
    ensures
        figure_views(r@) == document_figures(d@),
{
    let mut r: Vec<Figure> = Vec::new();
    let mut k: usize = 0;
    while k < d.select_order.len()
        invariant
            d@.wf(),
            k <= d.select_order.len(),
            figure_views(r@) == figures_upto(d@, k as int),
        decreases d.select_order.len() - k,
    {
        if let Some(i) = d.select_order[k] {
            assert(d@.select_order[k as int] == Some(i));
            let picked = match &d.nodes[i].1 {
                DomKind::Element(n, _) => crate::text::str_eq(n.as_str(), "figure") && d.nodes[i].0.is_some(),
                _ => false,
            };
            assert(d@.nodes[i as int] == d.nodes@[i as int]@);
            if picked {
                match figure_of(d, i) {
                    Some(f) => {
                        let ghost before = r@;
                        r.push(f);
                        assert(figure_views(r@) =~= figure_views(before).push(f@));
                    },
                    None => {},
                }
            }
        }
        k = k + 1;
    }
    r
}

/// Extracts the figures of an HTML document.
pub struct FigureExtractor;

impl ContentExtract for FigureExtractor {
    fn extract(&self, file_type: FileType) -> (r: Result<Vec<Content>, FinanalizeError>)
        ensures
            !(file_type is Html) ==> is_parse_error(r, invalid_input_message()),
            file_type matches FileType::Html(input) ==> (r matches Ok(v) && content_views(v@)
                == seq![ContentView::Figures(document_figures(parsed_document(input@)))]),
    {
        let input = match file_type {
            FileType::Html(input) => input,
            _ => {
                return Err(invalid_input());
            },
        };
        let d = parse_document(input.as_str());
        let figures = figures_of(&d);
        let mut out: Vec<Content> = Vec::new();
        out.push(Content::Figures(figures));
        assert(content_views(out@) =~= seq![ContentView::Figures(document_figures(parsed_document(input@)))]);
        Ok(out)
    }
}

/// Node `i` is a `figure` element holding an image, whose figure is `f`.
pub open spec fn is_figure_with(d: DomTreeView, i: int, f: FigureView) -> bool {
    &&& selectable(d, i, "figure"@)
    &&& d.first_inside(i, "img"@) is Some
    &&& figure_at(d, i) == Some(f)
}

/// `f` is the figure of one of the first `k` nodes in selection order.
pub open spec fn figure_of_a_node(d: DomTreeView, k: int, f: FigureView) -> bool {
    exists|j: int|
        0 <= j < k && d.select_order[j] is Some && #[trigger] is_figure_with(
            d,
            d.select_order[j]->0 as int,
            f,
        )
}

/// Every figure found comes from a `figure` element that holds an image:
/// images outside figures, and figures without an image, give none.
pub proof fn lemma_figures_from_figure_elements(d: DomTreeView, k: int)
    ensures
        forall|m: int|
            0 <= m < figures_upto(d, k).len() ==> #[trigger] figure_of_a_node(
                d,
                k,
                figures_upto(d, k)[m],
            ),
    decreases k,
{
    if k > 0 {
        lemma_figures_from_figure_elements(d, k - 1);
        let prev = figures_upto(d, k - 1);
        let cur = figures_upto(d, k);
        assert forall|m: int| 0 <= m < cur.len() implies #[trigger] figure_of_a_node(d, k, cur[m]) by {
            if m < prev.len() {
                assert(cur[m] == prev[m]);
                assert(figure_of_a_node(d, k - 1, prev[m]));
                let j = choose|j: int|
                    0 <= j < k - 1 && d.select_order[j] is Some && #[trigger] is_figure_with(
                        d,
                        d.select_order[j]->0 as int,
                        prev[m],
                    );
                assert(is_figure_with(d, d.select_order[j]->0 as int, cur[m]));
            } else {
                assert(is_figure_with(d, d.select_order[k - 1]->0 as int, cur[m]));
            }
        }
    }
}

/// The caption of a figure is the text of its first `figcaption`: every run
/// of text below that caption, in document order, one after the other with
/// a single space between. A figure without a `figcaption` has no caption.
pub proof fn lemma_caption_is_all_caption_text(d: DomTreeView, i: int)
    requires
        figure_at(d, i) is Some,
    ensures
        d.first_inside(i, "figcaption"@) matches Some(c) ==> (figure_at(d, i)->0.caption matches Some(
            cap,
        ) && laid_out(cap, d.texts_of(c), " "@)),
        d.first_inside(i, "figcaption"@) is None ==> figure_at(d, i)->0.caption is None,
{
    if let Some(c) = d.first_inside(i, "figcaption"@) {
        lemma_join_laid_out(d.texts_of(c), " "@);
    }
}

} // verus!
