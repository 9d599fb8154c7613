//! Web search: the engine a report's sources are found with, and the query
//! sent to a SearxNG instance.
use vstd::prelude::*;
use crate::error::FinanalizeError;

verus! {

/// A web search engine: the addresses of the pages found for a query.
pub trait SearchEngine {
    fn search(&self, query: &str) -> Result<Vec<String>, FinanalizeError>;
}

/// The address a SearxNG instance at `base_url` is asked for the first page
/// of results for `query`, as JSON.
pub open spec fn search_url_text(base_url: Seq<char>, query: Seq<char>) -> Seq<char> {
    base_url + "/search?q="@ + query + "&format=json&pageno=1"@
}

/// The address a SearxNG instance is asked for the first page of results.
pub fn search_url(base_url: &str, query: &str) -> (u: String)
    ensures
        u@ == search_url_text(base_url@, query@),
{
    let mut u = String::from_str(base_url);
    u.append("/search?q=");
    u.append(query);
    u.append("&format=json&pageno=1");
    u
}

} // verus!
