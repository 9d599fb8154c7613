//! Markdown from a document: HTML is rewritten as Markdown, plain text is
//! kept as it is.
use vstd::prelude::*;
use crate::error::FinanalizeError;
use crate::text::{join, join_strings, trim, trim_str, trim_chars, chars_of, starts_with, str_eq, laid_out, lemma_join_laid_out};
use super::{Content, ContentExtract, ContentView, FileType, content_views, invalid_input, invalid_input_message, is_parse_error};
use super::dom::{DomKind, DomTree, DomTreeView, has_ancestor_named, parse_document, parsed_document, texts_of};

verus! {

/// The Markdown line written for an element with the tag name `tag` whose
/// text is `text`.
pub open spec fn md_line(tag: Seq<char>, text: Seq<char>) -> Seq<char> {
    if tag == "h1"@ {
        "# "@ + text + "\n\n"@
    } else if tag == "h2"@ {
        "## "@ + text + "\n\n"@
    } else if tag == "h3"@ {
        "### "@ + text + "\n\n"@
    } else if tag == "p"@ {
        text + "\n\n"@
    } else if tag == "li"@ {
        "- "@ + text + "\n"@
    } else {
        text + "\n"@
    }
}

/// Node `i` is an element inside a `body` element: what the selector
/// `body *` takes.
pub open spec fn in_body(d: DomTreeView, i: int) -> bool {
    &&& d.nodes[i].kind is Element
    &&& d.nodes[i].parent is Some
    &&& d.has_ancestor_named(i, seq!["body"@])
}

/// The Markdown for the first `k` nodes in selection order.
pub open spec fn body_markdown_upto(d: DomTreeView, k: int) -> Seq<char>
    decreases k,
{
    if k <= 0 {
        seq![]
    } else {
        let prev = body_markdown_upto(d, k - 1);
        match d.select_order[k - 1] {
            Some(i) => {
                let i = i as int;
                if in_body(d, i) {
                    prev + md_line(d.nodes[i].kind->Element_0, join(d.texts_of(i), " "@))
                } else {
                    prev
                }
            },
            None => prev,
        }
    }
}

/// The Markdown that a buffer gives: when it looks like HTML (its first
/// character that is not white space is `<`), one line for each element of
/// its body, trimmed; otherwise the buffer itself.
pub open spec fn markdown_of(buffer: Seq<char>) -> Seq<char> {
    if "<"@.is_prefix_of(trim(buffer)) {
        let d = parsed_document(buffer);
        trim(body_markdown_upto(d, d.select_order.len() as int))
    } else {
        buffer
    }
}

/// What the Markdown extractor answers for a buffer: the Markdown, or
/// `NotFound` when it is empty.
pub open spec fn markdown_result(buffer: Seq<char>, r: Result<Vec<Content>, FinanalizeError>) -> bool {
    if markdown_of(buffer).len() == 0 {
        r matches Err(FinanalizeError::NotFound)
    } else {
        r matches Ok(v) && content_views(v@) == seq![ContentView::MarkDown(markdown_of(buffer))]
    }
}

/// The Markdown line for an element with the tag name `tag` and text `text`.
pub fn markdown_line(tag: &str, text: &str) -> (r: String)
    ensures
        r@ == md_line(tag@, text@),
{
    let mut r;
    if str_eq(tag, "h1") {
        r = String::from_str("# ");
        r.append(text);
        r.append("\n\n");
    } else if str_eq(tag, "h2") {
        r = String::from_str("## ");
        r.append(text);
        r.append("\n\n");
    } else if str_eq(tag, "h3") {
        r = String::from_str("### ");
        r.append(text);
        r.append("\n\n");
    } else if str_eq(tag, "p") {
        r = String::from_str(text);
        r.append("\n\n");
    } else if str_eq(tag, "li") {
        r = String::from_str("- ");
        r.append(text);
        r.append("\n");
    } else {
        r = String::from_str(text);
        r.append("\n");
    }
    r
}

/// The Markdown for the elements of the body of a parsed document, before
/// trimming.
pub fn body_markdown(d: &DomTree) -> (r: String)
    requires
        d@.wf(),
    ensures
        r@ == body_markdown_upto(d@, d@.select_order.len() as int),
{
    let body_names: Vec<&str> = vec!["body"];
    assert(body_names@.map_values(|n: &str| n@) =~= seq!["body"@]);
    let mut r = String::new();
    let mut k: usize = 0;
    while k < d.select_order.len()
        invariant
            d@.wf(),
            k <= d.select_order.len(),
            body_names@.map_values(|n: &str| n@) == seq!["body"@],
            r@ == body_markdown_upto(d@, k as int),
        decreases d.select_order.len() - k,
    {
        if let Some(i) = d.select_order[k] {
            assert(d@.select_order[k as int] == Some(i));
            proof {
                super::dom::lemma_node_view(d, i as int);
            }
            if let DomKind::Element(tag, _) = &d.nodes[i].1 {
                if d.nodes[i].0.is_some() && has_ancestor_named(d, i, &body_names) {
                    let text = join_strings(&texts_of(d, i), " ");
                    let line = markdown_line(tag.as_str(), text.as_str());
                    r.append(line.as_str());
                }
            }
        }
        k = k + 1;
    }
    r
}

/// The Markdown that a buffer gives.
pub fn markdown_of_buffer(buffer: &str) -> (r: String)
    ensures
        r@ == markdown_of(buffer@),
{
    let trimmed = trim_chars(&chars_of(buffer));
    if starts_with(&trimmed, "<") {
        let d = parse_document(buffer);
        let md = body_markdown(&d);
        trim_str(md.as_str())
    } else {
        String::from_str(buffer)
    }
}

/// Rewrites a document as Markdown.
pub struct MarkdownExtractor;

impl ContentExtract for MarkdownExtractor {
    fn extract(&self, file_type: FileType) -> (r: Result<Vec<Content>, FinanalizeError>)
        ensures
            !(file_type is MarkDown) ==> is_parse_error(r, invalid_input_message()),
            file_type matches FileType::MarkDown(buffer) ==> markdown_result(buffer@, r),
    {
        let buffer = match file_type {
            FileType::MarkDown(buffer) => buffer,
            _ => {
                return Err(invalid_input());
            },
        };
        let markdown = markdown_of_buffer(buffer.as_str());
        if markdown.as_str().unicode_len() == 0 {
            return Err(FinanalizeError::NotFound);
        }
        let mut out: Vec<Content> = Vec::new();
        out.push(Content::MarkDown(markdown));
        assert(content_views(out@) =~= seq![ContentView::MarkDown(markdown_of(buffer@))]);
        Ok(out)
    }
}

/// Text that does not look like HTML is kept as it is: the Markdown of a
/// buffer whose first character that is not white space is not `<` is the
/// buffer itself.
pub proof fn lemma_plain_text_kept(buffer: Seq<char>)
    requires
        !"<"@.is_prefix_of(trim(buffer)),
    ensures
        markdown_of(buffer) == buffer,
{
}

/// An empty buffer has no Markdown: the extractor answers it with
/// `NotFound`.
pub proof fn lemma_empty_is_not_found(r: Result<Vec<Content>, FinanalizeError>)
    requires
        markdown_result(Seq::empty(), r),
    ensures
        r matches Err(FinanalizeError::NotFound),
{
    reveal_strlit("<");
    assert(trim(Seq::<char>::empty()) == Seq::<char>::empty());
    assert(!"<"@.is_prefix_of(Seq::<char>::empty()));
}

/// Each element of the body adds one Markdown line, and that line carries
/// all the runs of text below the element, in document order, one after
/// the other with a single space between: what the `k`-th node in selection
/// order adds, when it is an element of the body, is the line for its tag
/// around that text.
pub proof fn lemma_md_line_has_all_text(d: DomTreeView, k: int)
    requires
        1 <= k <= d.select_order.len(),
        d.select_order[k - 1] is Some,
        in_body(d, d.select_order[k - 1]->0 as int),
    ensures
        exists|text: Seq<char>|
            #![trigger laid_out(text, d.texts_of(d.select_order[k - 1]->0 as int), " "@)]
            {
                &&& body_markdown_upto(d, k) == body_markdown_upto(d, k - 1) + md_line(
                    d.nodes[d.select_order[k - 1]->0 as int].kind->Element_0,
                    text,
                )
                &&& laid_out(text, d.texts_of(d.select_order[k - 1]->0 as int), " "@)
            },
{
    let i = d.select_order[k - 1]->0 as int;
    let text = join(d.texts_of(i), " "@);
    lemma_join_laid_out(d.texts_of(i), " "@);
    assert(body_markdown_upto(d, k) == body_markdown_upto(d, k - 1) + md_line(d.nodes[i].kind->Element_0, text));
}

} // verus!
