//! The content of a web page: its figures, and the text of its sections as
//! Markdown, leaving out navigation, asides, headers and footers.
use vstd::prelude::*;
use crate::error::FinanalizeError;
use crate::text::{join, join_strings, views, laid_out, lemma_join_laid_out, lemma_part_offset_bound, part_offset, trim};
use super::{Content, ContentExtract, ContentView, FileType, content_views, invalid_input, invalid_input_message, is_parse_error};
use super::dom::{DomKind, DomTree, DomTreeView, has_ancestor_named, parse_document, parsed_document, texts_of};
use super::figure::{FigureExtractor, document_figures, selectable};
use super::md::{MarkdownExtractor, markdown_of};

verus! {

/// The tag names of the sections whose text is left out.
pub open spec fn ignored_sections() -> Seq<Seq<char>> {
    seq!["nav"@, "aside"@, "header"@, "footer"@]
}

/// The text of the sections among the first `k` nodes in selection order:
/// each `div` or `article` outside the ignored sections, its runs of text
/// joined with spaces, when that is not empty.
pub open spec fn section_texts_upto(d: DomTreeView, k: int) -> Seq<Seq<char>>
    decreases k,
{
    if k <= 0 {
        seq![]
    } else {
        let prev = section_texts_upto(d, k - 1);
        match d.select_order[k - 1] {
            Some(i) => {
                let i = i as int;
                let text = join(d.texts_of(i), " "@);
                if (selectable(d, i, "div"@) || selectable(d, i, "article"@)) && !d.has_ancestor_named(
                    i,
                    ignored_sections(),
                ) && text.len() > 0 {
                    prev.push(text)
                } else {
                    prev
                }
            },
            None => prev,
        }
    }
}

/// The text of the sections of a document, in selection order.
pub open spec fn section_texts(d: DomTreeView) -> Seq<Seq<char>> {
    section_texts_upto(d, d.select_order.len() as int)
}

/// The Markdown content made of a buffer: none when its Markdown is empty.
pub open spec fn markdown_contents(buffer: Seq<char>) -> Seq<ContentView> {
    if markdown_of(buffer).len() == 0 {
        seq![]
    } else {
        seq![ContentView::MarkDown(markdown_of(buffer))]
    }
}

/// What the HTML extractor answers for a page: `NotFound` when no section has
/// text; otherwise the figures, then the Markdown of the sections' text, one
/// section a line.
pub open spec fn html_result(input: Seq<char>, r: Result<Vec<Content>, FinanalizeError>) -> bool {
    let d = parsed_document(input);
    if section_texts(d).len() == 0 {
        r matches Err(FinanalizeError::NotFound)
    } else {
        r matches Ok(v) && content_views(v@) == seq![ContentView::Figures(document_figures(d))]
            + markdown_contents(join(section_texts(d), "\n"@))
    }
}

/// Whether node `j` lies inside a `nav`, `aside`, `header` or `footer`
/// element.
pub fn is_inside_ignored_section(d: &DomTree, j: usize) -> (b: bool)
    requires
        d@.wf(),
        j < d.nodes.len(),
    ensures
        b == d@.has_ancestor_named(j as int, ignored_sections()),
{
    let names: Vec<&str> = vec!["nav", "aside", "header", "footer"];
    assert(names@.map_values(|n: &str| n@) =~= ignored_sections());
    has_ancestor_named(d, j, &names)
}

/// The text of the sections of a parsed document, in selection order.
pub fn section_texts_of(d: &DomTree) -> (r: Vec<String>)
    requires
        d@.wf(),
    ensures
        views(r@) == section_texts(d@),
{
    let mut r: Vec<String> = Vec::new();
    let mut k: usize = 0;
    while k < d.select_order.len()
        invariant
            d@.wf(),
            k <= d.select_order.len(),
            views(r@) == section_texts_upto(d@, k as int),
        decreases d.select_order.len() - k,
    {
        if let Some(i) = d.select_order[k] {
            assert(d@.select_order[k as int] == Some(i));
            proof {
                super::dom::lemma_node_view(d, i as int);
            }
            let picked = match &d.nodes[i].1 {
                DomKind::Element(n, _) => (crate::text::str_eq(n.as_str(), "div") || crate::text::str_eq(
                    n.as_str(),
                    "article",
                )) && d.nodes[i].0.is_some(),
                _ => false,
            };
            if picked && !is_inside_ignored_section(d, i) {
                let text = join_strings(&texts_of(d, i), " ");
                if text.as_str().unicode_len() > 0 {
                    let ghost before = r@;
                    r.push(text);
                    assert(views(r@) =~= views(before).push(text@));
                }
            }
        }
        k = k + 1;
    }
    r
}

/// Extracts the figures and the text of a web page.
pub struct HTMLExtractor;

impl ContentExtract for HTMLExtractor {
    fn extract(&self, file_type: FileType) -> (r: Result<Vec<Content>, FinanalizeError>)
        ensures
            !(file_type is Html) ==> is_parse_error(r, invalid_input_message()),
            file_type matches FileType::Html(input) ==> html_result(input@, r),
    {
        let input = match file_type {
            FileType::Html(input) => input,
            _ => {
                return Err(invalid_input());
            },
        };
        let figure_content = match FigureExtractor.extract(FileType::Html(input.clone())) {
            Ok(v) => v,
            Err(_) => Vec::new(),
        };
        let d = parse_document(input.as_str());
        let texts = section_texts_of(&d);
        if texts.len() == 0 {
            return Err(FinanalizeError::NotFound);
        }
        let joined = join_strings(&texts, "\n");
        let markdown_content = match MarkdownExtractor.extract(FileType::MarkDown(joined)) {
            Ok(v) => v,
            Err(_) => Vec::new(),
        };
        let ghost figs = figure_content@;
        let ghost mds = markdown_content@;
        let mut result = figure_content;
        let mut rest = markdown_content;
        result.append(&mut rest);
        assert(content_views(result@) =~= content_views(figs) + content_views(mds));
        Ok(result)
    }
}

/// Node `i` is a section whose text is `t`: a `div` or `article` outside the
/// ignored sections, whose runs of text joined with spaces are `t`.
pub open spec fn is_section_with_text(d: DomTreeView, i: int, t: Seq<char>) -> bool {
    &&& selectable(d, i, "div"@) || selectable(d, i, "article"@)
    &&& !d.has_ancestor_named(i, ignored_sections())
    &&& join(d.texts_of(i), " "@) == t
    &&& t.len() > 0
}

/// `t` is the text of one of the first `k` nodes in selection order that is
/// a section.
pub open spec fn text_of_a_section(d: DomTreeView, k: int, t: Seq<char>) -> bool {
    exists|j: int|
        0 <= j < k && d.select_order[j] is Some && #[trigger] is_section_with_text(
            d,
            d.select_order[j]->0 as int,
            t,
        )
}

/// No text from a navigation bar, an aside, a header or a footer reaches
/// the Markdown: every section text comes from a `div` or `article` outside
/// them, and is not empty.
pub proof fn lemma_section_texts_outside_ignored(d: DomTreeView, k: int)
    ensures
        forall|m: int|
            0 <= m < section_texts_upto(d, k).len() ==> #[trigger] text_of_a_section(
                d,
                k,
                section_texts_upto(d, k)[m],
            ),
    decreases k,
{
    if k > 0 {
        lemma_section_texts_outside_ignored(d, k - 1);
        let prev = section_texts_upto(d, k - 1);
        let cur = section_texts_upto(d, k);
        assert forall|m: int| 0 <= m < cur.len() implies #[trigger] text_of_a_section(d, k, cur[m]) by {
            if m < prev.len() {
                assert(cur[m] == prev[m]);
                assert(text_of_a_section(d, k - 1, prev[m]));
                let j = choose|j: int|
                    0 <= j < k - 1 && d.select_order[j] is Some && #[trigger] is_section_with_text(
                        d,
                        d.select_order[j]->0 as int,
                        prev[m],
                    );
                assert(is_section_with_text(d, d.select_order[j]->0 as int, cur[m]));
            } else {
                assert(is_section_with_text(d, d.select_order[k - 1]->0 as int, cur[m]));
            }
        }
    }
}

/// The Markdown of a page holds its sections one a line: when at least one
/// section has text, the page's contents are its figures and then Markdown
/// made of the section texts in selection order, one after the other with a
/// line feed between. This holds whenever those lines do not themselves
/// look like HTML (their first character that is not white space is not
/// `<`), which the Markdown extractor would read as HTML again.
pub proof fn lemma_sections_one_per_line(input: Seq<char>, r: Result<Vec<Content>, FinanalizeError>)
    requires
        html_result(input, r),
        section_texts(parsed_document(input)).len() > 0,
        !"<"@.is_prefix_of(trim(join(section_texts(parsed_document(input)), "\n"@))),
    ensures
        r matches Ok(v) && {
            &&& content_views(v@).len() == 2
            &&& content_views(v@)[0] == ContentView::Figures(document_figures(parsed_document(input)))
            &&& (content_views(v@)[1] matches ContentView::MarkDown(m) && laid_out(
                m,
                section_texts(parsed_document(input)),
                "\n"@,
            ))
        },
{
    let ts = section_texts(parsed_document(input));
    reveal_strlit("\n");
    lemma_join_laid_out(ts, "\n"@);
    let j = join(ts, "\n"@);
    assert(markdown_of(j) == j);
    assert(j.len() > 0) by {
        assert(ts[0].len() > 0) by {
            super::html::lemma_section_texts_outside_ignored(
                parsed_document(input),
                parsed_document(input).select_order.len() as int,
            );
            assert(text_of_a_section(
                parsed_document(input),
                parsed_document(input).select_order.len() as int,
                ts[0],
            ));
        }
        assert(part_offset(ts, 1, 1) == ts[0].len() + 1) by {
            reveal_with_fuel(part_offset, 2);
        }
        lemma_part_offset_bound(ts, 1, 1, ts.len() as int);
    }
}

} // verus!
