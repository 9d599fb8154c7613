//! The envelope every answer of the web API is sent in.
use vstd::prelude::*;

verus! {

/// An answer of the web API: a result or an error message, with the HTTP
/// status it is sent with.
#[derive(Debug, Clone)]
pub struct ApiResponse<T> {
    result: Option<T>,
    error: Option<String>,
    status: u16,
}

impl<T> ApiResponse<T> {
    /// The result, if there is one.
    pub closed spec fn result_spec(&self) -> Option<T> {
        self.result
    }

    /// The error message, if there is one.
    pub closed spec fn error_spec(&self) -> Option<Seq<char>> {
        match self.error {
            Some(e) => Some(e@),
            None => None,
        }
    }

    /// The HTTP status.
    pub closed spec fn status_spec(&self) -> u16 {
        self.status
    }

    /// A successful answer holding `object`, sent with status 200.
    pub fn new(object: T) -> (r: Self)
        ensures
            r.result_spec() == Some(object),
            r.error_spec() is None,
            r.status_spec() == 200,
    {
        ApiResponse { result: Some(object), status: 200, error: None }
    }

    /// A failed answer with the message `error`, sent with `status`.
    pub fn error(status: u16, error: String) -> (r: Self)
        ensures
            r.result_spec() is None,
            r.error_spec() == Some(error@),
            r.status_spec() == status,
    {
        ApiResponse { error: Some(error), status, result: None }
    }

    /// The HTTP status the answer is sent with.
    pub fn status(&self) -> (s: u16)
        ensures
            s == self.status_spec(),
    {
        self.status
    }

    /// The result, the error message and the status.
    pub fn into_parts(self) -> (r: (Option<T>, Option<String>, u16))
        ensures
            r.0 == self.result_spec(),
            r.1 matches Some(e) ==> self.error_spec() == Some(e@),
            r.1 is None ==> self.error_spec() is None,
            r.2 == self.status_spec(),
    {
        (self.result, self.error, self.status)
    }
}

} // verus!
