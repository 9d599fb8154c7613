//! Extraction of usable content from the documents that a report draws on.
use vstd::prelude::*;
use crate::error::FinanalizeError;

pub mod dom;
pub mod figure;
pub mod csv;
pub mod excel;
pub mod md;
pub mod pdf;
pub mod html;
pub mod text;
pub mod text_extractor;

verus! {

/// A piece of extracted content.
#[derive(Debug)]
pub enum Content {
    Html(String),
    Text(String),
    Figures(Vec<Figure>),
    Csv(String),
    MarkDown(String),
    Pdf(Vec<u8>),
}

/// A document handed to an extractor, by kind.
#[derive(Debug)]
pub enum FileType {
    Html(String),
    Text(String),
    Figures(Vec<Figure>),
    Csv(String),
    MarkDown(String),
    Pdf(Vec<u8>),
}

/// An image found in a document, with its alternative text and caption.
#[derive(Debug, Clone)]
pub struct Figure {
    pub url: String,
    pub alt_text: Option<String>,
    pub caption: Option<String>,
}

/// A table of data: what it is about and its columns.
#[derive(Debug, Clone)]
pub struct Data {
    pub title: String,
    pub description: String,
    pub columns: Vec<Column>,
}

/// One column of a table of data.
#[derive(Debug, Clone)]
pub struct Column {
    pub name: String,
    pub description: String,
    pub values: Vec<String>,
}

/// A figure, as plain values.
pub ghost struct FigureView {
    pub url: Seq<char>,
    pub alt_text: Option<Seq<char>>,
    pub caption: Option<Seq<char>>,
}

pub open spec fn opt_view(o: Option<String>) -> Option<Seq<char>> {
    match o {
        Some(s) => Some(s@),
        None => None,
    }
}

impl View for Figure {
    type V = FigureView;

    open spec fn view(&self) -> FigureView {
        FigureView { url: self.url@, alt_text: opt_view(self.alt_text), caption: opt_view(self.caption) }
    }
}

pub open spec fn figure_views(v: Seq<Figure>) -> Seq<FigureView> {
    v.map_values(|f: Figure| f@)
}

/// A piece of content, as plain values.
pub ghost enum ContentView {
    Html(Seq<char>),
    Text(Seq<char>),
    Figures(Seq<FigureView>),
    Csv(Seq<char>),
    MarkDown(Seq<char>),
    Pdf(Seq<u8>),
}

impl View for Content {
    type V = ContentView;

    open spec fn view(&self) -> ContentView {
        match self {
            Content::Html(s) => ContentView::Html(s@),
            Content::Text(s) => ContentView::Text(s@),
            Content::Figures(f) => ContentView::Figures(figure_views(f@)),
            Content::Csv(s) => ContentView::Csv(s@),
            Content::MarkDown(s) => ContentView::MarkDown(s@),
            Content::Pdf(b) => ContentView::Pdf(b@),
        }
    }
}

pub open spec fn content_views(v: Seq<Content>) -> Seq<ContentView> {
    v.map_values(|c: Content| c@)
}

/// An extractor of content from a document.
pub trait ContentExtract {
    fn extract(&self, file_type: FileType) -> Result<Vec<Content>, FinanalizeError>;
}

/// The error every extractor answers a document of the wrong kind with.
pub open spec fn invalid_input_message() -> Seq<char> {
    "Invalid input type"@
}

/// `r` is a parse error with the message `m`.
pub open spec fn is_parse_error<T>(r: Result<T, FinanalizeError>, m: Seq<char>) -> bool {
    r matches Err(FinanalizeError::ParseError(msg)) && msg@ == m
}

/// `c` is a piece of text holding `s`.
pub open spec fn is_text(c: Content, s: Seq<char>) -> bool {
    c matches Content::Text(t) && t@ == s
}

/// The contents are pieces of text holding the given texts, in order.
pub open spec fn texts_are(v: Seq<Content>, expected: Seq<Seq<char>>) -> bool {
    &&& v.len() == expected.len()
    &&& forall|j: int| 0 <= j < v.len() ==> is_text(#[trigger] v[j], expected[j])
}

/// The error for a document of the wrong kind.
pub fn invalid_input() -> (e: FinanalizeError)
    ensures
        e matches FinanalizeError::ParseError(m) && m@ == invalid_input_message(),
{
    FinanalizeError::ParseError(String::from_str("Invalid input type"))
}

} // verus!
