//! The token codec: signed bearer tokens carrying claims, random
//! identifiers, token digests and PKCE challenges.
use vstd::prelude::*;
use crate::scopes::{join_names, string_of_chars, text_eq, ScopeSet};
use jsonwebtoken::{DecodingKey, EncodingKey, Header, Validation};
use serde_json::Value;

verus! {

/// Digest of the UTF-8 bytes of a string under SHA-256.
pub uninterp spec fn sha256_utf8(s: Seq<char>) -> Seq<u8>;

/// The URL-safe base64 alphabet, without padding, applied to bytes.
pub uninterp spec fn base64url_nopad(b: Seq<u8>) -> Seq<char>;

/// The claims that a signed token carries when its signature verifies under
/// `secret`: subject, client id, scopes, token type, issued-at, expiry, id.
pub uninterp spec fn jwt_claims(token: Seq<char>, secret: Seq<u8>) -> Option<
    (Seq<char>, Seq<char>, Seq<char>, Seq<char>, int, int, Seq<char>),
>;

#[verifier::external_type_specification]
#[verifier::external_body]
pub struct ExJwtError(jsonwebtoken::errors::Error);

/// Relies on sha2's `Sha256::digest` over the string's UTF-8 bytes: the
/// digest is a function of the input alone and is 32 bytes long.
#[verifier::external_body]
fn sha256_digest(s: &str) -> (r: Vec<u8>)
    ensures
        r@ == sha256_utf8(s@),
        r@.len() == 32,
{
    <sha2::Sha256 as sha2::Digest>::digest(s.as_bytes()).to_vec()
}

/// Relies on base64's `URL_SAFE_NO_PAD` engine `encode`: the text is a
/// function of the bytes alone.
#[verifier::external_body]
fn base64url_encode(b: &[u8]) -> (r: String)
    requires
        b@.len() <= 4096,
    ensures
        r@ == base64url_nopad(b@),
{
    base64::Engine::encode(&base64::engine::general_purpose::URL_SAFE_NO_PAD, b)
}

/// Relies on rand's `thread_rng().gen_range(0..n)`: a value below `n`.
#[verifier::external_body]
fn random_below(n: u8) -> (r: u8)
    requires
        n > 0,
    ensures
        r < n,
{
    rand::Rng::gen_range(&mut rand::thread_rng(), 0..n)
}

/// The 62 characters that random identifiers are drawn from.
pub open spec fn token_alphabet() -> Seq<char> {
    seq![
        'a', 'b', 'c', 'd', 'e', 'f', 'g', 'h', 'i', 'j', 'k', 'l', 'm',
        'n', 'o', 'p', 'q', 'r', 's', 't', 'u', 'v', 'w', 'x', 'y', 'z',
        'A', 'B', 'C', 'D', 'E', 'F', 'G', 'H', 'I', 'J', 'K', 'L', 'M',
        'N', 'O', 'P', 'Q', 'R', 'S', 'T', 'U', 'V', 'W', 'X', 'Y', 'Z',
        '0', '1', '2', '3', '4', '5', '6', '7', '8', '9',
    ]
}

/// Whether every character of `s` is an ASCII letter or digit.
pub open spec fn is_alphanumeric_text(s: Seq<char>) -> bool {
    forall|i: int| 0 <= i < s.len() ==> token_alphabet().contains(#[trigger] s[i])
}

/// A random identifier of `length` characters drawn from ASCII letters and digits.
pub fn generate_random_token(length: usize) -> (r: String)
    ensures
        r@.len() == length,
        is_alphanumeric_text(r@),
{
    let alphabet: Vec<char> = vec![
        'a', 'b', 'c', 'd', 'e', 'f', 'g', 'h', 'i', 'j', 'k', 'l', 'm',
        'n', 'o', 'p', 'q', 'r', 's', 't', 'u', 'v', 'w', 'x', 'y', 'z',
        'A', 'B', 'C', 'D', 'E', 'F', 'G', 'H', 'I', 'J', 'K', 'L', 'M',
        'N', 'O', 'P', 'Q', 'R', 'S', 'T', 'U', 'V', 'W', 'X', 'Y', 'Z',
        '0', '1', '2', '3', '4', '5', '6', '7', '8', '9',
    ];
    assert(alphabet@ =~= token_alphabet());
    let mut out: Vec<char> = Vec::new();
    for _k in 0..length
        invariant
            alphabet@ == token_alphabet(),
            out@.len() == _k,
            is_alphanumeric_text(out@),
    {
        let idx = random_below(62);
        let c = alphabet[idx as usize];
        assert(token_alphabet().contains(c)) by {
            assert(token_alphabet()[idx as int] == c);
        }
        out.push(c);
    }
    string_of_chars(out.as_slice())
}

/// A fresh authorization code (43 characters, about 256 bits).
pub fn generate_authorization_code() -> (r: String)
    ensures
        r@.len() == 43,
        is_alphanumeric_text(r@),
{
    generate_random_token(43)
}

/// A fresh client secret (64 characters).
pub fn generate_client_secret() -> (r: String)
    ensures
        r@.len() == 64,
        is_alphanumeric_text(r@),
{
    generate_random_token(64)
}

/// A fresh `state` value for an authorization request (32 characters).
pub fn generate_state() -> (r: String)
    ensures
        r@.len() == 32,
        is_alphanumeric_text(r@),
{
    generate_random_token(32)
}

/// A fresh PKCE code verifier (128 characters).
pub fn generate_code_verifier() -> (r: String)
    ensures
        r@.len() == 128,
        is_alphanumeric_text(r@),
{
    generate_random_token(128)
}

/// The lower-case hexadecimal digit of `n`.
pub open spec fn hex_digit(n: int) -> char {
    seq!['0', '1', '2', '3', '4', '5', '6', '7', '8', '9', 'a', 'b', 'c', 'd', 'e', 'f'][n]
}

/// Lower-case hexadecimal text of bytes, two digits per byte, high nibble first.
pub open spec fn hex_lower(b: Seq<u8>) -> Seq<char>
    decreases b.len(),
{
    if b.len() == 0 {
        seq![]
    } else {
        hex_lower(b.drop_last()) + seq![hex_digit(b.last() as int / 16), hex_digit(b.last() as int % 16)]
    }
}

/// The digest under which a token id is stored: lower-case hex of its SHA-256.
pub open spec fn token_digest(jti: Seq<char>) -> Seq<char> {
    hex_lower(sha256_utf8(jti))
}

/// The S256 PKCE challenge of a verifier: URL-safe unpadded base64 of its SHA-256.
pub open spec fn s256_challenge(verifier: Seq<char>) -> Seq<char> {
    base64url_nopad(sha256_utf8(verifier))
}

pub fn hash_token(token: &str) -> (r: String)
    ensures
        r@ == token_digest(token@),
{
    let digest = sha256_digest(token);
    let digits: Vec<char> = vec![
        '0', '1', '2', '3', '4', '5', '6', '7', '8', '9', 'a', 'b', 'c', 'd', 'e', 'f',
    ];
    let mut out: Vec<char> = Vec::new();
    for i in 0..digest.len()
        invariant
            digest@ == sha256_utf8(token@),
            digits@ == seq!['0', '1', '2', '3', '4', '5', '6', '7', '8', '9', 'a', 'b', 'c', 'd', 'e', 'f'],
            out@ == hex_lower(digest@.take(i as int)),
    {
        let b = digest[i];
        let ghost pre = digest@.take(i as int + 1);
        assert(pre.drop_last() =~= digest@.take(i as int));
        out.push(digits[(b / 16) as usize]);
        out.push(digits[(b % 16) as usize]);
        assert(out@ =~= hex_lower(pre));
    }
    assert(digest@.take(digest.len() as int) =~= digest@);
    string_of_chars(out.as_slice())
}

pub fn generate_code_challenge(verifier: &str) -> (r: String)
    ensures
        r@ == s256_challenge(verifier@),
{
    let digest = sha256_digest(verifier);
    base64url_encode(digest.as_slice())
}

/// Exclusive upper bound for timestamps (seconds since the epoch) that the
/// codec accepts: the start of the year 10000.
pub const MAX_TIMESTAMP: i64 = 253402300800;

/// Upper bound for token lifetimes in seconds (about 100 years).
pub const MAX_TTL_SECONDS: i64 = 3153600000;

/// The two kinds of bearer tokens.
#[derive(Clone, Copy, Debug, PartialEq, Eq, Structural)]
pub enum TokenKind {
    Access,
    Refresh,
}

/// The `token_type` claim of each kind.
pub open spec fn kind_name(k: TokenKind) -> Seq<char> {
    match k {
        TokenKind::Access => "access_token"@,
        TokenKind::Refresh => "refresh_token"@,
    }
}

impl TokenKind {
    pub fn as_str(&self) -> (r: &'static str)
        ensures
            r@ == kind_name(*self),
    {
        match self {
            TokenKind::Access => "access_token",
            TokenKind::Refresh => "refresh_token",
        }
    }
}

/// Why a token was not accepted.
#[derive(Clone, Copy, Debug, PartialEq, Eq, Structural)]
pub enum TokenError {
    /// The signature, the format or a claim did not check out, or signing failed.
    JwtError,
    /// The token is past its expiry.
    Expired,
    /// The token is of the other kind.
    Invalid,
    /// No signing secret was configured.
    MissingSecret,
}

/// The claims a signed token carries.
#[derive(Debug)]
pub struct Claims {
    /// The user id, or the client id itself for client-credentials tokens.
    pub sub: String,
    pub client_id: String,
    /// The scopes in wire form.
    pub scopes: String,
    /// `access_token` or `refresh_token`.
    pub token_type: String,
    pub iat: i64,
    pub exp: i64,
    /// The random token id; its digest keys the token's stored record.
    pub jti: String,
}

pub type ClaimsModel = (Seq<char>, Seq<char>, Seq<char>, Seq<char>, int, int, Seq<char>);

pub open spec fn claims_model(c: Claims) -> ClaimsModel {
    (c.sub@, c.client_id@, c.scopes@, c.token_type@, c.iat as int, c.exp as int, c.jti@)
}

pub open spec fn opt_claims_model(c: Option<Claims>) -> Option<ClaimsModel> {
    match c {
        Some(c) => Some(claims_model(c)),
        None => None,
    }
}

/// The claims of a verified access token.
#[derive(Debug)]
pub struct AccessTokenClaims {
    pub sub: String,
    pub client_id: String,
    pub scopes: String,
    pub token_type: String,
    pub iat: i64,
    pub exp: i64,
    pub jti: String,
}

/// The claims of a verified refresh token.
#[derive(Debug)]
pub struct RefreshTokenClaims {
    pub sub: String,
    pub client_id: String,
    pub scopes: String,
    pub token_type: String,
    pub iat: i64,
    pub exp: i64,
    pub jti: String,
}

/// The subject of a token: the user, or the client itself without one.
pub open spec fn subject_of(user_id: Option<&str>, client_id: Seq<char>) -> Seq<char> {
    match user_id {
        Some(u) => u@,
        None => client_id,
    }
}

/// The claims a freshly issued token carries: scopes in wire form, the
/// kind's `token_type`, issue and expiry times, and the token id.
pub open spec fn issued_claims(
    kind: TokenKind,
    sub: Seq<char>,
    client: Seq<char>,
    scopes: Seq<crate::scopes::Scope>,
    iat: int,
    exp: int,
    jti: Seq<char>,
) -> ClaimsModel {
    (sub, client, join_names(scopes), kind_name(kind), iat, exp, jti)
}

/// What verification of `token` as a token of kind `kind` at time `now`
/// gives, from the claims that its signature covers: the claims, or why
/// it was refused (a token expiring exactly at `now` is still valid).
pub open spec fn check_claims(decoded: Option<ClaimsModel>, kind: TokenKind, now: int) -> Result<ClaimsModel, TokenError> {
    match decoded {
        None => Err(TokenError::JwtError),
        Some(c) => if c.3 != kind_name(kind) {
            Err(TokenError::Invalid)
        } else if c.5 < now {
            Err(TokenError::Expired)
        } else {
            Ok(c)
        },
    }
}

/// Relies on jsonwebtoken's `decode` (HS256, expiry not checked, `exp`
/// required) into a JSON object, of which the seven claims are read: what
/// comes back depends on the token and the secret alone.
#[verifier::external_body]
fn jwt_decode(token: &str, secret: &[u8]) -> (r: Option<Claims>)
    ensures
        opt_claims_model(r) == jwt_claims(token@, secret@),
{
    let mut v = Validation::default();
    v.validate_exp = false;
    let key = DecodingKey::from_secret(secret);
    let m = jsonwebtoken::decode::<serde_json::Map<String, Value>>(token, &key, &v).ok()?.claims;
    let s = |k: &str| m.get(k)?.as_str().map(String::from);
    let n = |k: &str| m.get(k)?.as_i64();
    Some(Claims { sub: s("sub")?, client_id: s("client_id")?, scopes: s("scopes")?, token_type: s("token_type")?, iat: n("iat")?, exp: n("exp")?, jti: s("jti")? })
}

/// Relies on jsonwebtoken's `encode` with the default HS256 header: signs
/// the seven claims as one JSON object, giving `header.claims.signature`
/// (never empty). HMAC signing of a JSON map cannot
/// fail, and `decode` (expiry unchecked, no audience) reads back exactly the
/// claims written, `exp` being required as a non-negative number.
#[verifier::external_body]
fn jwt_encode(c: &Claims, secret: &[u8]) -> (r: Result<String, jsonwebtoken::errors::Error>)
    ensures
        r is Ok,
        r->Ok_0@.len() > 0,
        c.exp >= 0 ==> jwt_claims(r->Ok_0@, secret@) == Some(claims_model(*c)),
{
    let m = std::collections::BTreeMap::from([
        ("sub", Value::from(c.sub.as_str())),
        ("client_id", Value::from(c.client_id.as_str())),
        ("scopes", Value::from(c.scopes.as_str())),
        ("token_type", Value::from(c.token_type.as_str())),
        ("iat", Value::from(c.iat)),
        ("exp", Value::from(c.exp)),
        ("jti", Value::from(c.jti.as_str())),
    ]);
    jsonwebtoken::encode(&Header::default(), &m, &EncodingKey::from_secret(secret))
}

/// Signs and verifies tokens under one shared secret.
pub struct TokenGenerator {
    secret: Vec<u8>,
}

impl TokenGenerator {
    pub closed spec fn secret(&self) -> Seq<u8> {
        self.secret@
    }

    /// A codec for the given signing secret, which must not be empty.
    pub fn new(secret: Vec<u8>) -> (r: Result<Self, TokenError>)
        ensures
            secret@.len() == 0 ==> r == Err::<Self, TokenError>(TokenError::MissingSecret),
            secret@.len() > 0 ==> (r matches Ok(g) && g.secret() == secret@),
    {
        if secret.len() == 0 {
            Err(TokenError::MissingSecret)
        } else {
            Ok(TokenGenerator { secret })
        }
    }

    /// The claims that `token` carries under this codec's secret, if its
    /// signature verifies.
    pub fn decode(&self, token: &str) -> (r: Option<Claims>)
        ensures
            opt_claims_model(r) == jwt_claims(token@, self.secret()),
    {
        jwt_decode(token, self.secret.as_slice())
    }

    /// Signs a token of kind `kind` for the user (or, without one, for the
    /// client itself), valid from `now` for `ttl_seconds`. Gives the token
    /// and its fresh random id.
    pub fn issue(
        &self,
        kind: TokenKind,
        user_id: Option<&str>,
        client_id: &str,
        scopes: &ScopeSet,
        ttl_seconds: i64,
        now: i64,
    ) -> (r: Result<(String, String), TokenError>)
        requires
            0 <= now < MAX_TIMESTAMP,
            0 <= ttl_seconds <= MAX_TTL_SECONDS,
        ensures
            r matches Ok((tok, jti)) && tok@.len() > 0 && jti@.len() == 32 && is_alphanumeric_text(jti@)
                && jwt_claims(tok@, self.secret()) == Some(issued_claims(
                    kind, subject_of(user_id, client_id@), client_id@, scopes.seq(), now as int, now + ttl_seconds, jti@)),
    {
        let jti = generate_random_token(32);
        let sub = match user_id {
            Some(u) => u.to_owned(),
            None => client_id.to_owned(),
        };
        let claims = Claims {
            sub,
            client_id: client_id.to_owned(),
            scopes: scopes.to_string(),
            token_type: kind.as_str().to_owned(),
            iat: now,
            exp: now + ttl_seconds,
            jti: jti.clone(),
        };
        match jwt_encode(&claims, self.secret.as_slice()) {
            Ok(token) => Ok((token, jti)),
            Err(_) => Err(TokenError::JwtError),
        }
    }

    pub fn generate_access_token(
        &self,
        user_id: Option<&str>,
        client_id: &str,
        scopes: &ScopeSet,
        expires_in_minutes: i64,
        now: i64,
    ) -> (r: Result<(String, String), TokenError>)
        requires
            0 <= now < MAX_TIMESTAMP,
            0 <= expires_in_minutes <= MAX_TTL_SECONDS / 60,
        ensures
            r matches Ok((tok, jti)) && tok@.len() > 0 && jti@.len() == 32 && is_alphanumeric_text(jti@)
                && jwt_claims(tok@, self.secret()) == Some(issued_claims(TokenKind::Access,
                    subject_of(user_id, client_id@), client_id@, scopes.seq(), now as int, now + 60 * expires_in_minutes, jti@)),
    {
        self.issue(TokenKind::Access, user_id, client_id, scopes, expires_in_minutes * 60, now)
    }

    pub fn generate_refresh_token(
        &self,
        user_id: Option<&str>,
        client_id: &str,
        scopes: &ScopeSet,
        expires_in_days: i64,
        now: i64,
    ) -> (r: Result<(String, String), TokenError>)
        requires
            0 <= now < MAX_TIMESTAMP,
            0 <= expires_in_days <= MAX_TTL_SECONDS / 86400,
        ensures
            r matches Ok((tok, jti)) && tok@.len() > 0 && jti@.len() == 32 && is_alphanumeric_text(jti@)
                && jwt_claims(tok@, self.secret()) == Some(issued_claims(TokenKind::Refresh,
                    subject_of(user_id, client_id@), client_id@, scopes.seq(), now as int, now + 86400 * expires_in_days, jti@)),
    {
        self.issue(TokenKind::Refresh, user_id, client_id, scopes, expires_in_days * 86400, now)
    }

    /// Verifies `token` as a token of kind `kind` at time `now`.
    pub fn verify(&self, token: &str, kind: TokenKind, now: i64) -> (r: Result<Claims, TokenError>)
        ensures
            match r {
                Ok(c) => check_claims(jwt_claims(token@, self.secret()), kind, now as int) == Ok::<ClaimsModel, TokenError>(claims_model(c)),
                Err(e) => check_claims(jwt_claims(token@, self.secret()), kind, now as int) == Err::<ClaimsModel, TokenError>(e),
            },
    {
        match self.decode(token) {
            None => Err(TokenError::JwtError),
            Some(c) => {
                if !text_eq(c.token_type.as_str(), kind.as_str()) {
                    Err(TokenError::Invalid)
                } else if c.exp < now {
                    Err(TokenError::Expired)
                } else {
                    Ok(c)
                }
            },
        }
    }

    pub fn validate_access_token(&self, token: &str, now: i64) -> (r: Result<AccessTokenClaims, TokenError>)
        ensures
            match r {
                Ok(c) => check_claims(jwt_claims(token@, self.secret()), TokenKind::Access, now as int) == Ok::<ClaimsModel, TokenError>(
                    (c.sub@, c.client_id@, c.scopes@, c.token_type@, c.iat as int, c.exp as int, c.jti@)),
                Err(e) => check_claims(jwt_claims(token@, self.secret()), TokenKind::Access, now as int) == Err::<ClaimsModel, TokenError>(e),
            },
    {
        match self.verify(token, TokenKind::Access, now) {
            Ok(c) => Ok(AccessTokenClaims {
                sub: c.sub,
                client_id: c.client_id,
                scopes: c.scopes,
                token_type: c.token_type,
                iat: c.iat,
                exp: c.exp,
                jti: c.jti,
            }),
            Err(e) => Err(e),
        }
    }

    pub fn validate_refresh_token(&self, token: &str, now: i64) -> (r: Result<RefreshTokenClaims, TokenError>)
        ensures
            match r {
                Ok(c) => check_claims(jwt_claims(token@, self.secret()), TokenKind::Refresh, now as int) == Ok::<ClaimsModel, TokenError>(
                    (c.sub@, c.client_id@, c.scopes@, c.token_type@, c.iat as int, c.exp as int, c.jti@)),
                Err(e) => check_claims(jwt_claims(token@, self.secret()), TokenKind::Refresh, now as int) == Err::<ClaimsModel, TokenError>(e),
            },
    {
        match self.verify(token, TokenKind::Refresh, now) {
            Ok(c) => Ok(RefreshTokenClaims {
                sub: c.sub,
                client_id: c.client_id,
                scopes: c.scopes,
                token_type: c.token_type,
                iat: c.iat,
                exp: c.exp,
                jti: c.jti,
            }),
            Err(e) => Err(e),
        }
    }
}

} // verus!
