//! Errors of the library and the answer that each one is given.
use vstd::prelude::*;

verus! {

#[verifier::external_type_specification]
#[verifier::external_body]
pub struct ExJsonError(serde_json::Error);

#[verifier::external_type_specification]
#[verifier::external_body]
pub struct ExFromUtf8Error(std::string::FromUtf8Error);

#[verifier::external_type_specification]
#[verifier::external_body]
pub struct ExPdfError(pdf_extract::Error);

#[verifier::external_type_specification]
#[verifier::external_body]
pub struct ExPdfOutputError(pdf_extract::OutputError);

#[verifier::external_type_specification]
#[verifier::external_body]
pub struct ExJwtError(jsonwebtoken::errors::Error);

#[verifier::external_type_specification]
#[verifier::external_body]
pub struct ExPasswordHashError(argon2::password_hash::Error);

#[verifier::external_type_specification]
#[verifier::external_body]
pub struct ExRenderError(handlebars::RenderError);

/// Why a request failed authorization.
#[derive(Debug, Clone, Copy, PartialEq, Eq, Structural)]
pub enum AuthError {
    InvalidToken,
    InvalidCredentials,
    EmailAlreadyExists,
}

/// Every way an operation of the library can fail.
#[derive(Debug)]
pub enum FinanalizeError {
    NotFound,
    Unauthorized(AuthError),
    InternalServerError,
    MissingPromptFile(String),
    MissingPromptUTF8(String),
    MultipleErrors(Vec<FinanalizeError>),
    LlmApi(String),
    ParseError(String),
    Serde(serde_json::Error),
    Utf8(std::string::FromUtf8Error),
    LopdfError(pdf_extract::Error),
    Output(pdf_extract::OutputError),
    Jwt(jsonwebtoken::errors::Error),
    Argon2(argon2::password_hash::Error),
    Handlebars(handlebars::RenderError),
}

/// The error a user of the web API is shown.
#[derive(Debug, Clone, Copy, PartialEq, Eq, Structural)]
pub enum UserError {
    InvalidToken,
    ExpiredToken,
    InvalidCredentials,
    InternalServerError,
    NotImplemented,
    NotFound,
}

/// What the user is told about an error: authorization failures keep their
/// reason where the API has a name for it, a missing resource stays a missing
/// resource, and everything else is an internal error.
pub open spec fn user_error_of(e: FinanalizeError) -> UserError {
    match e {
        FinanalizeError::Unauthorized(AuthError::InvalidToken) => UserError::InvalidToken,
        FinanalizeError::Unauthorized(AuthError::InvalidCredentials) => UserError::InvalidCredentials,
        FinanalizeError::NotFound => UserError::NotFound,
        _ => UserError::InternalServerError,
    }
}

/// The HTTP status an error is answered with.
pub open spec fn status_of(e: FinanalizeError) -> u16 {
    match e {
        FinanalizeError::Unauthorized(_) => 401,
        FinanalizeError::NotFound => 404,
        _ => 500,
    }
}

impl FinanalizeError {
    /// The HTTP status code of this error.
    pub fn status_code(&self) -> (code: u16)
        ensures
            code == status_of(*self),
    {
        match self {
            FinanalizeError::Unauthorized(_) => 401,
            FinanalizeError::NotFound => 404,
            _ => 500,
        }
    }
}

impl UserError {
    /// The user-facing form of an error.
    pub fn from_error(e: &FinanalizeError) -> (u: UserError)
        ensures
            u == user_error_of(*e),
    {
        match e {
            FinanalizeError::Unauthorized(AuthError::InvalidToken) => UserError::InvalidToken,
            FinanalizeError::Unauthorized(AuthError::InvalidCredentials) => UserError::InvalidCredentials,
            FinanalizeError::NotFound => UserError::NotFound,
            _ => UserError::InternalServerError,
        }
    }
}

impl<'a> From<&'a FinanalizeError> for UserError {
    fn from(e: &'a FinanalizeError) -> (u: UserError) {
        UserError::from_error(e)
    }
}

impl<'a> vstd::std_specs::convert::FromSpecImpl<&'a FinanalizeError> for UserError {
    open spec fn obeys_from_spec() -> bool {
        true
    }

    open spec fn from_spec(e: &'a FinanalizeError) -> UserError {
        user_error_of(*e)
    }
}

/// What a user is told agrees with the status the answer is sent with: a
/// missing resource is answered 404 and told so, and nothing else is; a
/// user told that the token or the credentials are wrong is answered 401;
/// every error answered 500 is told it is an internal error; and no error
/// is told that a token expired or that something is not implemented.
pub proof fn lemma_user_error_agrees_with_status(e: FinanalizeError)
    ensures
        (user_error_of(e) == UserError::NotFound) <==> (status_of(e) == 404),
        (user_error_of(e) == UserError::InvalidToken || user_error_of(e)
            == UserError::InvalidCredentials) ==> status_of(e) == 401,
        status_of(e) == 500 ==> user_error_of(e) == UserError::InternalServerError,
        user_error_of(e) != UserError::ExpiredToken,
        user_error_of(e) != UserError::NotImplemented,
{
}

} // verus!
