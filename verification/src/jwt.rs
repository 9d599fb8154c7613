//! The access and refresh tokens of a session: the claims they carry, how
//! they are signed and read, and the pair handed to a client.
use vstd::prelude::*;
use crate::error::FinanalizeError;

verus! {

/// The current time as seconds since the Unix epoch (`chrono::Utc::now`,
/// then `timestamp`). It depends on the clock: nothing is promised of it.
#[verifier::external_body]
pub(crate) fn utc_now_timestamp() -> (t: i64) {
    chrono::Utc::now().timestamp()
}

/// What a token lets its holder do: make requests, or get new tokens.
#[derive(Debug, Clone, Copy, PartialEq, Eq, Structural)]
pub enum TokenType {
    Access,
    Refresh,
}

/// How long a token of each type stays valid, in seconds: a day for access
/// tokens, thirty days for refresh tokens.
pub open spec fn lifetime_secs(t: TokenType) -> int {
    match t {
        TokenType::Access => 86400,
        TokenType::Refresh => 2592000,
    }
}

/// The expiry time of a token of type `t` issued at `now`, as the token
/// carries it.
pub open spec fn expiry_at(t: TokenType, now: i64) -> usize {
    (now + lifetime_secs(t)) as usize
}

/// A time as a token carries it.
pub open spec fn time_field(t: i64) -> usize {
    t as usize
}

/// The issuer named in every token.
pub open spec fn issuer() -> Seq<char> {
    "Finanalize Backend"@
}

impl TokenType {
    /// How long a token of this type stays valid, in seconds.
    pub fn duration_secs(&self) -> (d: i64)
        ensures
            d == lifetime_secs(*self),
    {
        match self {
            TokenType::Access => 86400,
            TokenType::Refresh => 2592000,
        }
    }

    /// The expiry time of a token of this type issued at `now`.
    pub fn valid_until_from(&self, now: i64) -> (t: usize)
        ensures
            t == expiry_at(*self, now),
    {
        let total: i128 = now as i128 + self.duration_secs() as i128;
        #[verifier::truncate]
        (total as usize)
    }

    /// The expiry time of a token of this type issued now.
    pub fn valid_until(&self) -> (t: usize)
        ensures
            exists|now: i64| t == #[trigger] expiry_at(*self, now),
    {
        let now = utc_now_timestamp();
        self.valid_until_from(now)
    }
}

/// What a token says: when it expires, when it was issued, who issued it and
/// whom it is for.
#[derive(Debug, Clone)]
pub struct Claims {
    pub exp: usize,
    pub iat: usize,
    pub iss: String,
    pub sub: String,
}

impl Claims {
    /// The claims of a token of type `token_type` for `sub`, expiring at
    /// `exp_from` plus the token's lifetime and issued at `issued`.
    pub fn issued_at(sub: String, token_type: &TokenType, exp_from: i64, issued: i64) -> (c: Claims)
        ensures
            c.exp == expiry_at(*token_type, exp_from),
            c.iat == time_field(issued),
            c.iss@ == issuer(),
            c.sub@ == sub@,
    {
        let exp = token_type.valid_until_from(exp_from);
        #[verifier::truncate]
        let iat = issued as usize;
        Claims { exp, iat, iss: String::from_str("Finanalize Backend"), sub }
    }

    /// The claims of a token of type `token_type` for `sub`, issued now.
    pub fn new(sub: String, token_type: &TokenType) -> (c: Claims)
        ensures
            exists|t: i64| c.exp == #[trigger] expiry_at(*token_type, t),
            exists|t: i64| c.iat == #[trigger] time_field(t),
            c.iss@ == issuer(),
            c.sub@ == sub@,
    {
        let exp_from = utc_now_timestamp();
        let issued = utc_now_timestamp();
        Claims::issued_at(sub, token_type, exp_from, issued)
    }
}

/// An access token and a refresh token.
#[derive(Debug)]
pub struct TokenPair(String, String);

impl View for TokenPair {
    type V = (Seq<char>, Seq<char>);

    closed spec fn view(&self) -> (Seq<char>, Seq<char>) {
        (self.0@, self.1@)
    }
}

impl TokenPair {
    /// The pair of the two tokens.
    pub fn new(access: String, refresh: String) -> (r: Result<TokenPair, FinanalizeError>)
        ensures
            r matches Ok(p) && p@ == (access@, refresh@),
    {
        Ok(TokenPair(access, refresh))
    }

    /// The access token.
    pub fn access(&self) -> (s: &str)
        ensures
            s@ == self@.0,
    {
        self.0.as_str()
    }

    /// The refresh token.
    pub fn refresh(&self) -> (s: &str)
        ensures
            s@ == self@.1,
    {
        self.1.as_str()
    }
}

/// The token that `jsonwebtoken::encode` makes, with the default header
/// (HS256), of the claims object `{"exp", "iat", "iss", "sub"}` signed with
/// the bytes of `secret`. It depends on its arguments alone.
pub uninterp spec fn signed_token(exp: usize, iat: usize, iss: Seq<char>, sub: Seq<char>, secret: Seq<char>) -> Seq<char>;

/// Signs claims with `jsonwebtoken::encode`: the default header (HS256) and
/// the claims as a JSON object with the fields `exp`, `iat`, `iss` and `sub`
/// in that order, under an HMAC key made of the bytes of `secret`. With an
/// HMAC key and the HS256 header the call cannot fail, and what comes back is
/// the token named by `signed_token`. The token carries its claims as
/// base64 of their JSON text, so no other claims give the same token.
#[verifier::external_body]
fn sign_claims(claims: &Claims, secret: &str) -> (r: Result<String, jsonwebtoken::errors::Error>)
    ensures
        r is Ok,
        r matches Ok(t) ==> t@ == signed_token(claims.exp, claims.iat, claims.iss@, claims.sub@, secret@),
        r matches Ok(t) ==> forall|exp: usize, iat: usize, iss: Seq<char>, sub: Seq<char>|
            t@ == #[trigger] signed_token(exp, iat, iss, sub, secret@) ==> exp == claims.exp && iat == claims.iat
                && iss == claims.iss@ && sub == claims.sub@,
{
    let mut m = serde_json::Map::new();
    m.insert(String::from("exp"), serde_json::Value::from(claims.exp));
    m.insert(String::from("iat"), serde_json::Value::from(claims.iat));
    m.insert(String::from("iss"), serde_json::Value::from(claims.iss.as_str()));
    m.insert(String::from("sub"), serde_json::Value::from(claims.sub.as_str()));
    let key = jsonwebtoken::EncodingKey::from_secret(secret.as_bytes());
    jsonwebtoken::encode(&jsonwebtoken::Header::default(), &serde_json::Value::Object(m), &key)
}

/// The claims a token carried, each present when the token had it with the
/// type that a token of this library gives it.
pub struct DecodedClaims {
    pub exp: Option<u64>,
    pub iat: Option<u64>,
    pub iss: Option<String>,
    pub sub: Option<String>,
}

/// Reads a token with `jsonwebtoken::decode` under the default validation
/// (HS256 signature by the bytes of `secret`, an `exp` claim that has not
/// passed, with a minute's leeway) and picks its four claims. Whether it is
/// accepted depends on the clock, so only this is stated: a token that
/// `signed_token` made gives back, when accepted, the claims it was made of.
/// That another secret rejects it is not stated: HMAC treats some distinct
/// keys alike (a key and the same key with zero bytes appended). Like the
/// clock reading of `chrono`, the validation panics on a clock set before
/// 1970.
#[verifier::external_body]
fn decode_claims(token: &str, secret: &str) -> (r: Result<DecodedClaims, jsonwebtoken::errors::Error>)
    ensures
        forall|exp: usize, iat: usize, iss: Seq<char>, sub: Seq<char>|
            token@ == #[trigger] signed_token(exp, iat, iss, sub, secret@) ==> (r matches Ok(c) ==> {
                &&& c.exp == Some(exp as u64)
                &&& c.iat == Some(iat as u64)
                &&& c.iss matches Some(s) && s@ == iss
                &&& c.sub matches Some(s) && s@ == sub
            }),
{
    let key = jsonwebtoken::DecodingKey::from_secret(secret.as_bytes());
    let data = jsonwebtoken::decode::<serde_json::Value>(token, &key, &jsonwebtoken::Validation::default())?;
    let c = &data.claims;
    Ok(DecodedClaims {
        exp: c["exp"].as_u64(),
        iat: c["iat"].as_u64(),
        iss: c["iss"].as_str().map(String::from),
        sub: c["sub"].as_str().map(String::from),
    })
}

/// A `jsonwebtoken` error of kind `MissingRequiredClaim` for the claim
/// `name`. Nothing is stated of it.
#[verifier::external_body]
fn missing_claim(name: &str) -> (e: jsonwebtoken::errors::Error) {
    jsonwebtoken::errors::Error::from(jsonwebtoken::errors::ErrorKind::MissingRequiredClaim(String::from(name)))
}

/// Whether a time claim has the type that the claims of a token give it.
pub open spec fn time_claim_fits(v: Option<u64>) -> bool {
    v matches Some(n) && n <= usize::MAX
}

/// Whether a token carried all four claims with their types.
pub open spec fn claims_complete(c: DecodedClaims) -> bool {
    &&& time_claim_fits(c.exp)
    &&& time_claim_fits(c.iat)
    &&& c.iss is Some
    &&& c.sub is Some
}

/// The subject of a token whose signature and expiry were accepted: its
/// `sub` when it carries all four claims with their types, else a JWT error
/// naming the first claim missing.
pub fn subject_of(claims: DecodedClaims) -> (r: Result<String, FinanalizeError>)
    ensures
        r is Ok <==> claims_complete(claims),
        r matches Ok(s) ==> (claims.sub matches Some(t) && s@ == t@),
        r matches Err(e) ==> e is Jwt,
{
    let exp_fits = match claims.exp {
        Some(n) => n <= usize::MAX as u64,
        None => false,
    };
    let iat_fits = match claims.iat {
        Some(n) => n <= usize::MAX as u64,
        None => false,
    };
    if !exp_fits {
        return Err(FinanalizeError::Jwt(missing_claim("exp")));
    }
    if !iat_fits {
        return Err(FinanalizeError::Jwt(missing_claim("iat")));
    }
    if claims.iss.is_none() {
        return Err(FinanalizeError::Jwt(missing_claim("iss")));
    }
    match claims.sub {
        Some(s) => Ok(s),
        None => Err(FinanalizeError::Jwt(missing_claim("sub"))),
    }
}

/// Whether `token` is one that `secret` signed for `sub`: a token of type
/// `t`, issued by this backend at some time and expiring the lifetime of its
/// type after some time.
pub open spec fn issued_token(token: Seq<char>, t: TokenType, sub: Seq<char>, secret: Seq<char>) -> bool {
    exists|exp_from: i64, issued: i64|
        token == #[trigger] signed_token(expiry_at(t, exp_from), time_field(issued), issuer(), sub, secret)
}

/// Whether `access` and `refresh` are a pair that `secret` signed for `sub`:
/// an access and a refresh token, each issued by this backend at some time
/// and expiring the lifetime of its type after some time, and different
/// whenever those expiry times differ.
pub open spec fn pair_issued(access: Seq<char>, refresh: Seq<char>, sub: Seq<char>, secret: Seq<char>) -> bool {
    exists|ta: i64, ia: i64, tr: i64, ir: i64|
        #![trigger signed_token(expiry_at(TokenType::Access, ta), time_field(ia), issuer(), sub, secret), signed_token(expiry_at(TokenType::Refresh, tr), time_field(ir), issuer(), sub, secret)]
        {
            &&& access == signed_token(expiry_at(TokenType::Access, ta), time_field(ia), issuer(), sub, secret)
            &&& refresh == signed_token(expiry_at(TokenType::Refresh, tr), time_field(ir), issuer(), sub, secret)
            &&& expiry_at(TokenType::Access, ta) != expiry_at(TokenType::Refresh, tr) ==> access != refresh
        }
}

/// Signs and reads the session tokens with one secret.
#[derive(Clone)]
pub struct TokenFactory {
    secret: String,
}

impl View for TokenFactory {
    type V = Seq<char>;

    /// The secret the tokens are signed with.
    closed spec fn view(&self) -> Seq<char> {
        self.secret@
    }
}

impl TokenFactory {
    /// A factory that signs with `secret`.
    pub fn new(secret: &str) -> (f: TokenFactory)
        ensures
            f@ == secret@,
    {
        TokenFactory { secret: String::from_str(secret) }
    }

    /// A token of the claims, signed with this factory's secret.
    fn generate_token_from_claims(&self, claims: Claims) -> (r: Result<String, FinanalizeError>)
        ensures
            r matches Ok(t) && t@ == signed_token(claims.exp, claims.iat, claims.iss@, claims.sub@, self@),
            forall|exp: usize, iat: usize, iss: Seq<char>, sub: Seq<char>|
                (r matches Ok(t) && t@ == #[trigger] signed_token(exp, iat, iss, sub, self@)) ==> exp
                    == claims.exp && iat == claims.iat && iss == claims.iss@ && sub == claims.sub@,
    {
        match sign_claims(&claims, self.secret.as_str()) {
            Ok(t) => Ok(t),
            Err(e) => Err(FinanalizeError::Jwt(e)),
        }
    }

    /// A fresh access token and refresh token for `sub`. Signing cannot
    /// fail. The two tokens differ unless the clock, read once for each,
    /// moved back between the readings so far that their expiry times meet.
    pub fn generate_token(&self, sub: String) -> (r: Result<TokenPair, FinanalizeError>)
        ensures
            r matches Ok(p) && issued_token(p@.0, TokenType::Access, sub@, self@)
                && issued_token(p@.1, TokenType::Refresh, sub@, self@)
                && pair_issued(p@.0, p@.1, sub@, self@),
    {
        let access = Claims::new(sub.clone(), &TokenType::Access);
        let refresh = Claims::new(sub, &TokenType::Refresh);
        let ghost a = access;
        let ghost b = refresh;
        let access_jwt = match self.generate_token_from_claims(access) {
            Ok(t) => t,
            Err(e) => return Err(e),
        };
        let refresh_jwt = match self.generate_token_from_claims(refresh) {
            Ok(t) => t,
            Err(e) => return Err(e),
        };
        proof {
            let ae = choose|t: i64| a.exp == #[trigger] expiry_at(TokenType::Access, t);
            let ai = choose|t: i64| a.iat == #[trigger] time_field(t);
            let re = choose|t: i64| b.exp == #[trigger] expiry_at(TokenType::Refresh, t);
            let ri = choose|t: i64| b.iat == #[trigger] time_field(t);
            assert(access_jwt@ == signed_token(expiry_at(TokenType::Access, ae), time_field(ai), issuer(), sub@, self@));
            assert(refresh_jwt@ == signed_token(expiry_at(TokenType::Refresh, re), time_field(ri), issuer(), sub@, self@));
            if expiry_at(TokenType::Access, ae) != expiry_at(TokenType::Refresh, re) && access_jwt@ == refresh_jwt@ {
                assert(refresh_jwt@ == signed_token(a.exp, a.iat, a.iss@, a.sub@, self@));
            }
        }
        TokenPair::new(access_jwt, refresh_jwt)
    }

    /// Whom a token was issued for, when this factory's secret signed it and
    /// it has not expired. A token made of claims naming `sub` gives `sub`
    /// back, and so does a token that `generate_token` made for `sub`.
    pub fn subject(&self, token: &str) -> (r: Result<String, FinanalizeError>)
        ensures
            forall|exp: usize, iat: usize, iss: Seq<char>, sub: Seq<char>|
                token@ == #[trigger] signed_token(exp, iat, iss, sub, self@) ==> (r matches Ok(s) ==> s@ == sub),
            forall|t: TokenType, sub: Seq<char>|
                #[trigger] issued_token(token@, t, sub, self@) ==> (r matches Ok(s) ==> s@ == sub),
            r matches Err(e) ==> e is Jwt,
    {
        let r = match decode_claims(token, self.secret.as_str()) {
            Ok(c) => subject_of(c),
            Err(e) => Err(FinanalizeError::Jwt(e)),
        };
        assert forall|t: TokenType, sub: Seq<char>|
            #[trigger] issued_token(token@, t, sub, self@) implies (r matches Ok(s) ==> s@ == sub) by {
            let (e, i) = choose|exp_from: i64, issued: i64|
                token@ == #[trigger] signed_token(expiry_at(t, exp_from), time_field(issued), issuer(), sub, self@);
            assert(token@ == signed_token(expiry_at(t, e), time_field(i), issuer(), sub, self@));
        }
        r
    }
}

} // verus!
