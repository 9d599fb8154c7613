//! The session cookies the authentication endpoints set, the token a
//! request carries in its `Authorization` header, and the passwords that a
//! login checks and a registration stores.
use vstd::prelude::*;
use crate::error::{AuthError, FinanalizeError};
use crate::models::User;
use crate::text::{split_whitespace, views, words};

verus! {

/// The cookie that hands a client its refresh token: HTTP only, for the
/// whole site, for an hour, never sent cross-site.
pub open spec fn refresh_cookie_text(token: Seq<char>) -> Seq<char> {
    "refresh_token="@ + token + "; HttpOnly; Path=/; Max-Age=3600; SameSite=Strict"@
}

/// The cookie that takes the refresh token away on logout: it expired long
/// ago.
pub open spec fn logout_cookie_text() -> Seq<char> {
    "refresh_token=Deleted; HttpOnly; Path=/; Max-Age=0; SameSite=Strict; Expires=Thu, 01 Jan 1970 00:00:00 GMT"@
}

/// The cookie that hands a client its refresh token.
pub fn refresh_cookie(token: &str) -> (c: String)
    ensures
        c@ == refresh_cookie_text(token@),
{
    let mut c = String::from_str("refresh_token=");
    c.append(token);
    c.append("; HttpOnly; Path=/; Max-Age=3600; SameSite=Strict");
    c
}

/// The cookie that takes the refresh token away.
pub fn logout_cookie() -> (c: String)
    ensures
        c@ == logout_cookie_text(),
{
    String::from_str(
        "refresh_token=Deleted; HttpOnly; Path=/; Max-Age=0; SameSite=Strict; Expires=Thu, 01 Jan 1970 00:00:00 GMT",
    )
}

/// The token of an `Authorization` header: its last word, so that both
/// `Bearer <token>` and a bare token are read. None when the header is
/// blank.
pub fn token_of_header(header: &str) -> (t: Option<String>)
    ensures
        words(header@).len() == 0 ==> t is None,
        words(header@).len() > 0 ==> (t matches Some(s) && s@ == words(header@).last()),
{
    let ws = split_whitespace(header);
    if ws.len() == 0 {
        None
    } else {
        let last = ws[ws.len() - 1].clone();
        assert(views(ws@)[ws.len() - 1] == ws@[ws.len() - 1]@);
        Some(last)
    }
}

/// Whether Argon2 accepts `password` for the PHC string `phc`: the string
/// parses, and hashing the password with the algorithm, version, parameters
/// and salt it names gives the hash it holds. It depends on its arguments
/// alone.
pub uninterp spec fn verifies(password: Seq<char>, phc: Seq<char>) -> bool;

/// Checks a password against a stored PHC string with
/// `Argon2::default().verify_password` on the password's bytes: `Ok` exactly
/// when `verifies` holds. The parameters come from the stored string, so a
/// string naming an enormous memory cost makes the allocation fail.
#[verifier::external_body]
fn password_matches(password: &str, phc: &str) -> (r: Result<(), argon2::password_hash::Error>)
    ensures
        r is Ok <==> verifies(password@, phc@),
{
    <argon2::Argon2 as argon2::PasswordVerifier<str>>::verify_password(&argon2::Argon2::default(), password.as_bytes(), phc)
}

/// Hashes a password with `Argon2::default().hash_password` on its bytes,
/// under a random salt, and gives the PHC string of the hash. The salt makes
/// the string differ from call to call, so only this is stated: the string
/// accepts the password.
#[verifier::external_body]
fn hash_password(password: &str) -> (r: Result<String, argon2::password_hash::Error>)
    ensures
        r matches Ok(h) ==> verifies(password@, h@),
{
    let hasher = argon2::Argon2::default();
    <argon2::Argon2 as argon2::PasswordHasher<argon2::PasswordHash>>::hash_password(&hasher, password.as_bytes())
        .map(|h| h.to_string())
}

/// Whom a login is for. Without a stored user for the email the
/// credentials are invalid; with one, the login is for that user's id
/// exactly when the stored hash accepts the password, and an Argon2 error
/// says why not otherwise.
pub fn login_subject(stored: Option<User>, password: &str) -> (r: Result<String, FinanalizeError>)
    ensures
        stored is None ==> r matches Err(FinanalizeError::Unauthorized(AuthError::InvalidCredentials)),
        stored matches Some(u) ==> (r is Ok <==> verifies(password@, u.password@)),
        stored matches Some(u) ==> (r matches Ok(id) ==> id@ == u.id@),
        stored matches Some(u) ==> (r matches Err(e) ==> e is Argon2),
{
    match stored {
        None => Err(FinanalizeError::Unauthorized(AuthError::InvalidCredentials)),
        Some(u) => match password_matches(password, u.password.as_str()) {
            Ok(()) => Ok(u.id),
            Err(e) => Err(FinanalizeError::Argon2(e)),
        },
    }
}

/// The password hash a registration stores. An email that is already
/// registered is refused; otherwise the password is hashed, and the hash
/// accepts it.
pub fn registration_hash(email_taken: bool, password: &str) -> (r: Result<String, FinanalizeError>)
    ensures
        email_taken ==> r matches Err(FinanalizeError::Unauthorized(AuthError::EmailAlreadyExists)),
        !email_taken ==> (r matches Ok(h) ==> verifies(password@, h@)),
        !email_taken ==> (r matches Err(e) ==> e is Argon2),
{
    if email_taken {
        return Err(FinanalizeError::Unauthorized(AuthError::EmailAlreadyExists));
    }
    match hash_password(password) {
        Ok(h) => Ok(h),
        Err(e) => Err(FinanalizeError::Argon2(e)),
    }
}

} // verus!
