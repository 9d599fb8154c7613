//! What a report request asks for, and the pieces of a report that the
//! language model hands back.
use vstd::prelude::*;

verus! {

/// How long a report should be.
#[derive(Debug, Clone, Copy, PartialEq, Eq, Structural)]
pub enum ReportSize {
    Small,
    Medium,
    Large,
}

/// Which model writes a report.
#[derive(Debug, Clone, Copy, PartialEq, Eq, Structural)]
pub enum ReportModel {
    Llama,
    Qwen,
    OpenAI,
}

/// Whether a request can be answered with a report, and why.
#[derive(Debug, Clone)]
pub struct Verdict {
    pub valid: bool,
    pub justification: String,
}

/// A heading of a report with its paragraphs.
#[derive(Debug, Clone)]
pub struct Heading {
    pub heading: String,
    pub paragraphs: Vec<String>,
}

/// A search query.
#[derive(Debug, Clone)]
pub struct Query {
    pub query: String,
}

/// A web page a report draws on.
#[derive(Debug, Clone)]
pub struct Source {
    pub url: String,
}

} // verus!
