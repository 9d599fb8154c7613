//! The content of a PDF document: its pages, once rendered as HTML, are read
//! as a web page.
use vstd::prelude::*;
use vstd::utf8::*;
use crate::error::FinanalizeError;
use crate::text::string_from_utf8;
use super::{Content, ContentExtract, FileType};
use super::html::{HTMLExtractor, html_result};

verus! {

/// What reading the HTML rendering of a PDF document answers: a UTF-8 error
/// when the bytes are not UTF-8, otherwise what the HTML extractor answers
/// for the text.
pub open spec fn pdf_html_result(html: Seq<u8>, r: Result<Vec<Content>, FinanalizeError>) -> bool {
    if valid_utf8(html) {
        html_result(decode_utf8(html), r)
    } else {
        r matches Err(FinanalizeError::Utf8(_))
    }
}

/// Reads the HTML rendering of a PDF document as a web page.
pub fn content_of_pdf_html(html: Vec<u8>) -> (r: Result<Vec<Content>, FinanalizeError>)
    ensures
        pdf_html_result(html@, r),
{
    match string_from_utf8(html) {
        Ok(text) => HTMLExtractor.extract(FileType::Html(text)),
        Err(e) => Err(FinanalizeError::Utf8(e)),
    }
}

/// Extracts the content of a PDF document from its rendering as HTML.
pub struct PdfExtractor;

impl PdfExtractor {
    /// The content of a PDF document, given the outcome of loading and
    /// rendering it: the error of a failed load or rendering is passed on,
    /// and a rendering is read as a web page.
    pub fn read_rendering(&self, rendering: Result<Vec<u8>, FinanalizeError>) -> (r: Result<
        Vec<Content>,
        FinanalizeError,
    >)
        ensures
            rendering matches Err(e) ==> r == Err::<Vec<Content>, FinanalizeError>(e),
            rendering matches Ok(html) ==> pdf_html_result(html@, r),
    {
        match rendering {
            Ok(html) => content_of_pdf_html(html),
            Err(e) => Err(e),
        }
    }
}

} // verus!
