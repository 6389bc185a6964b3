//! The authorization server: client authentication, user sign-up, and the
//! token endpoint's grants (authorization code with PKCE, refresh with
//! rotation, client credentials, and the legacy password grant).
use vstd::prelude::*;
use crate::error::AppError;
use crate::password::{argon2_verdict, verify_password};
use crate::scopes::{all_known, join_names, scopes_named, text_eq, words, Scope, ScopeSet};
use crate::store::{
    contains_hash, find_active, find_active_index, find_client, find_code, find_user, has_hash, hashes_unique,
    opt_str, revoked_copy, AuthorizationCode, Store, TokenRecord, UserAccount,
};
use crate::password::hash_password;
use crate::tokens::{
    check_claims, jwt_claims, s256_challenge, token_digest, generate_code_challenge, hash_token, issued_claims,
    subject_of, TokenError, TokenGenerator, TokenKind, MAX_TIMESTAMP,
};

verus! {

/// Lifetime of access tokens.
pub const ACCESS_TOKEN_MINUTES: i64 = 60;

/// Lifetime of refresh tokens.
pub const REFRESH_TOKEN_DAYS: i64 = 30;

/// `expires_in` of a token response: the access token's lifetime in seconds.
pub const ACCESS_EXPIRES_IN: i64 = 3600;

/// Lifetime of a refresh token in seconds.
pub const REFRESH_EXPIRES_IN: i64 = 2592000;

/// A token endpoint request (form fields).
#[derive(Debug)]
pub struct TokenRequest {
    pub grant_type: String,
    pub client_id: String,
    pub client_secret: Option<String>,
    pub code: Option<String>,
    pub redirect_uri: Option<String>,
    pub code_verifier: Option<String>,
    pub refresh_token: Option<String>,
    pub scope: Option<String>,
    pub username: Option<String>,
    pub password: Option<String>,
}

/// A successful token endpoint response.
#[derive(Debug)]
pub struct TokenResponse {
    pub access_token: String,
    /// Always `Bearer`.
    pub token_type: String,
    pub expires_in: i64,
    pub refresh_token: Option<String>,
    /// The granted scopes in wire form.
    pub scope: String,
}

/// The server's state: the token codec and the store.
pub struct AuthServer {
    pub tokens: TokenGenerator,
    pub store: Store,
}

/// How client authentication ends: the client's index, or `invalid_client`
/// for an unknown client, a confidential client without a secret, or a
/// secret that does not verify against the stored digest.
pub open spec fn client_auth(s: Store, id: Seq<char>, secret: Option<Seq<char>>) -> Result<int, AppError> {
    match find_client(s.clients@, id) {
        None => Err(AppError::InvalidClient),
        Some(i) => if s.clients@[i].is_public {
            Ok(i)
        } else {
            match secret {
                None => Err(AppError::InvalidClient),
                Some(sec) => if argon2_verdict(sec, s.clients@[i].client_secret_hash@) == Some(true) {
                    Ok(i)
                } else {
                    Err(AppError::InvalidClient)
                },
            }
        },
    }
}

/// The challenge method of a code, `plain` when none was given.
pub open spec fn challenge_method(c: AuthorizationCode) -> Seq<char> {
    match c.code_challenge_method {
        Some(m) => m@,
        None => "plain"@,
    }
}

/// PKCE at redemption: without a stored challenge nothing is asked; with
/// one, a verifier is required, and its S256 digest (or, for `plain`, the
/// verifier itself) must equal the challenge.
pub open spec fn pkce_satisfied(c: AuthorizationCode, verifier: Option<Seq<char>>) -> bool {
    match c.code_challenge {
        None => true,
        Some(ch) => match verifier {
            None => false,
            Some(v) => if challenge_method(c) == "S256"@ {
                s256_challenge(v) == ch@
            } else if challenge_method(c) == "plain"@ {
                v == ch@
            } else {
                false
            },
        },
    }
}

/// The code that an authorization-code request redeems, or why the request
/// is refused.
pub open spec fn code_grant_check(s: Store, req: TokenRequest, now: int) -> Result<int, AppError> {
    match (req.code, req.redirect_uri) {
        (Some(code), Some(uri)) => match client_auth(s, req.client_id@, opt_str(req.client_secret)) {
            Err(e) => Err(e),
            Ok(_) => match find_code(s.codes@, code@, req.client_id@) {
                None => Err(AppError::InvalidGrant),
                Some(k) => if s.codes@[k].expires_at < now || s.codes@[k].redirect_uri@ != uri@
                    || !pkce_satisfied(s.codes@[k], opt_str(req.code_verifier)) {
                    Err(AppError::InvalidGrant)
                } else {
                    Ok(k)
                },
            },
        },
        _ => Err(AppError::InvalidRequest),
    }
}

/// The code that an authorization-code request finds expired (and deletes).
pub open spec fn expired_code(s: Store, req: TokenRequest, now: int) -> Option<int> {
    match req.code {
        Some(code) => if req.redirect_uri is Some && client_auth(s, req.client_id@, opt_str(req.client_secret)) is Ok {
            match find_code(s.codes@, code@, req.client_id@) {
                Some(k) => if s.codes@[k].expires_at < now { Some(k) } else { None },
                None => None,
            }
        } else {
            None
        },
        None => None,
    }
}

/// The refresh-token record that a refresh request rotates, or why the
/// request is refused: the token must verify as an unexpired refresh token
/// of the requesting client, and its record must exist unrevoked.
pub open spec fn refresh_grant_check(srv: AuthServer, req: TokenRequest, now: int) -> Result<int, AppError> {
    match req.refresh_token {
        None => Err(AppError::InvalidRequest),
        Some(t) => match client_auth(srv.store, req.client_id@, opt_str(req.client_secret)) {
            Err(e) => Err(e),
            Ok(_) => match check_claims(jwt_claims(t@, srv.tokens.secret()), TokenKind::Refresh, now) {
                Err(_) => Err(AppError::InvalidGrant),
                Ok(c) => if c.1 != req.client_id@ {
                    Err(AppError::InvalidGrant)
                } else {
                    match find_active(srv.store.refresh_tokens@, token_digest(c.6)) {
                        None => Err(AppError::InvalidGrant),
                        Some(k) => Ok(k),
                    }
                },
            },
        },
    }
}

/// The scopes a client-credentials request is granted: all the client's
/// scopes when none are asked for, else the requested ones, which must all
/// be known and allowed to the client.
pub open spec fn requested_scopes(scope: Option<String>, allowed: Set<Scope>) -> Result<Set<Scope>, AppError> {
    match scope {
        None => Ok(allowed),
        Some(s) => if s@.len() == 0 {
            Ok(allowed)
        } else if !all_known(words(s@)) || !scopes_named(words(s@)).subset_of(allowed) {
            Err(AppError::InvalidScope)
        } else {
            Ok(scopes_named(words(s@)))
        },
    }
}

pub open spec fn client_grant_check(s: Store, req: TokenRequest) -> Result<Set<Scope>, AppError> {
    match client_auth(s, req.client_id@, opt_str(req.client_secret)) {
        Err(e) => Err(e),
        Ok(i) => requested_scopes(req.scope, s.clients@[i].scopes@),
    }
}

/// The user and the scopes that a password request is granted, or why it
/// is refused: the app client must authenticate, the scopes must be allowed
/// to it, and the password must verify against the user's digest.
pub open spec fn password_grant_check(s: Store, req: TokenRequest) -> Result<(int, Set<Scope>), AppError> {
    match (req.username, req.password) {
        (Some(name), Some(pw)) => match client_auth(s, req.client_id@, opt_str(req.client_secret)) {
            Err(e) => Err(e),
            Ok(i) => match requested_scopes(req.scope, s.clients@[i].scopes@) {
                Err(e) => Err(e),
                Ok(scopes) => match find_user(s.users@, name@) {
                    None => Err(AppError::InvalidGrant),
                    Some(u) => if argon2_verdict(pw@, s.users@[u].password_hash@) == Some(true) {
                        Ok((u, scopes))
                    } else {
                        Err(AppError::InvalidGrant)
                    },
                },
            },
        },
        _ => Err(AppError::InvalidRequest),
    }
}

/// A record freshly issued: unrevoked, with the given owner, scopes and
/// times, and a digest that no record in `recs` has.
pub open spec fn fresh_record(
    recs: Seq<TokenRecord>,
    rec: TokenRecord,
    client: Seq<char>,
    user: Option<Seq<char>>,
    scopes: Set<Scope>,
    expires_at: int,
    now: int,
) -> bool {
    &&& !has_hash(recs, rec.token_hash@)
    &&& rec.client_id@ == client
    &&& opt_str(rec.user_id) == user
    &&& rec.scopes@ == scopes
    &&& rec.expires_at == expires_at
    &&& rec.created_at == now
    &&& !rec.revoked
}

/// `new` is `old` with one record appended that satisfies `fresh_record`.
pub open spec fn appended_fresh(
    old: Seq<TokenRecord>,
    new: Seq<TokenRecord>,
    client: Seq<char>,
    user: Option<Seq<char>>,
    scopes: Set<Scope>,
    expires_at: int,
    now: int,
) -> bool {
    &&& new.len() == old.len() + 1
    &&& new.drop_last() == old
    &&& fresh_record(old, new.last(), client, user, scopes, expires_at, now)
}

/// The subject of a token for a record's owner: the user, or the client
/// itself when there is none.
pub open spec fn owner_subject(user: Option<Seq<char>>, client: Seq<char>) -> Seq<char> {
    match user {
        Some(u) => u,
        None => client,
    }
}

/// `tok` verifies under `secret` and carries the claims issued for the
/// given kind, subject, client, scopes and times, with an id whose digest
/// is `hash` (the key of the token's record).
pub open spec fn carries(
    tok: Seq<char>,
    secret: Seq<u8>,
    kind: TokenKind,
    sub: Seq<char>,
    client: Seq<char>,
    scopes: Seq<Scope>,
    iat: int,
    exp: int,
    hash: Seq<char>,
) -> bool {
    &&& jwt_claims(tok, secret) is Some
    &&& jwt_claims(tok, secret)->Some_0 == issued_claims(kind, sub, client, scopes, iat, exp, (jwt_claims(tok, secret)->Some_0).6)
    &&& token_digest((jwt_claims(tok, secret)->Some_0).6) == hash
}

/// A bearer response for records `a` (access) and, when `refresh` is
/// given, `f`: the tokens carry their records' owner and scopes and digest
/// to their keys, and `scope` is the scopes' wire form.
pub open spec fn issued_response(
    resp: TokenResponse,
    secret: Seq<u8>,
    sub: Seq<char>,
    a: TokenRecord,
    f: Option<TokenRecord>,
    now: int,
) -> bool {
    &&& resp.token_type@ == "Bearer"@
    &&& resp.expires_in == ACCESS_EXPIRES_IN
    &&& resp.scope@ == join_names(a.scopes.seq())
    &&& resp.access_token@.len() > 0
    &&& carries(resp.access_token@, secret, TokenKind::Access, sub, a.client_id@, a.scopes.seq(), now, now + ACCESS_EXPIRES_IN, a.token_hash@)
    &&& match f {
        Some(f) => {
            &&& resp.refresh_token is Some
            &&& (resp.refresh_token->Some_0)@.len() > 0
            &&& carries(resp.refresh_token->Some_0@, secret, TokenKind::Refresh, sub, f.client_id@, f.scopes.seq(), now, now + REFRESH_EXPIRES_IN, f.token_hash@)
            &&& f.scopes.seq() == a.scopes.seq()
        },
        None => resp.refresh_token is None,
    }
}

/// What an authorization-code request does, from state `o` to state `n`:
/// refused requests change nothing but delete a code found expired; a
/// redemption deletes the code and records a fresh access and refresh token
/// bound to the code's user, client and scopes, which the returned tokens
/// carry. It succeeds whenever no drawn token id can collide with a stored
/// one (so always on empty token tables); on a collision nothing changes.
pub open spec fn code_grant_post(o: AuthServer, req: TokenRequest, now: int, r: Result<TokenResponse, AppError>, n: AuthServer) -> bool {
    &&& n.tokens == o.tokens
    &&& n.store.users == o.store.users
    &&& n.store.clients == o.store.clients
    &&& match code_grant_check(o.store, req, now) {
        Err(e) => {
            &&& r == Err::<TokenResponse, AppError>(e)
            &&& n.store.access_tokens == o.store.access_tokens
            &&& n.store.refresh_tokens == o.store.refresh_tokens
            &&& match expired_code(o.store, req, now) {
                Some(k) => n.store.codes@ == o.store.codes@.remove(k),
                None => n.store.codes == o.store.codes,
            }
        },
        Ok(k) => {
            &&& (o.store.access_tokens@.len() == 0 && o.store.refresh_tokens@.len() == 0 ==> r is Ok)
            &&& match r {
                Err(e) => e == AppError::Internal && n.store == o.store,
                Ok(resp) => {
                    let c = o.store.codes@[k];
                    &&& n.store.codes@ == o.store.codes@.remove(k)
                    &&& appended_fresh(o.store.access_tokens@, n.store.access_tokens@, c.client_id@, Some(c.user_id@), c.scopes@, now + ACCESS_EXPIRES_IN, now)
                    &&& appended_fresh(o.store.refresh_tokens@, n.store.refresh_tokens@, c.client_id@, Some(c.user_id@), c.scopes@, now + REFRESH_EXPIRES_IN, now)
                    &&& n.store.access_tokens@.last().scopes.seq() == c.scopes.seq()
                    &&& issued_response(resp, o.tokens.secret(), c.user_id@, n.store.access_tokens@.last(), Some(n.store.refresh_tokens@.last()), now)
                },
            }
        },
    }
}

/// What a refresh request does: refused requests change nothing; a
/// rotation revokes the presented token's record and records a fresh access
/// and refresh token with that record's owner and scopes, which the
/// returned tokens carry; the returned refresh token differs from the
/// presented one. On a collision of a drawn token id nothing changes.
pub open spec fn refresh_grant_post(o: AuthServer, req: TokenRequest, now: int, r: Result<TokenResponse, AppError>, n: AuthServer) -> bool {
    &&& n.tokens == o.tokens
    &&& n.store.users == o.store.users
    &&& n.store.clients == o.store.clients
    &&& n.store.codes == o.store.codes
    &&& match refresh_grant_check(o, req, now) {
        Err(e) => r == Err::<TokenResponse, AppError>(e) && n.store == o.store,
        Ok(k) => match r {
            Err(e) => e == AppError::Internal && n.store == o.store,
            Ok(resp) => {
                let old_rec = o.store.refresh_tokens@[k];
                let rotated = o.store.refresh_tokens@.update(k, revoked_copy(old_rec));
                &&& appended_fresh(o.store.access_tokens@, n.store.access_tokens@, old_rec.client_id@, opt_str(old_rec.user_id), old_rec.scopes@, now + ACCESS_EXPIRES_IN, now)
                &&& appended_fresh(rotated, n.store.refresh_tokens@, old_rec.client_id@, opt_str(old_rec.user_id), old_rec.scopes@, now + REFRESH_EXPIRES_IN, now)
                &&& !has_hash(o.store.refresh_tokens@, n.store.refresh_tokens@.last().token_hash@)
                &&& n.store.access_tokens@.last().scopes.seq() == old_rec.scopes.seq()
                &&& issued_response(resp, o.tokens.secret(), owner_subject(opt_str(old_rec.user_id), old_rec.client_id@),
                    n.store.access_tokens@.last(), Some(n.store.refresh_tokens@.last()), now)
                &&& resp.refresh_token->Some_0@ != (req.refresh_token->Some_0)@
            },
        },
    }
}

/// What a client-credentials request does: refused requests change
/// nothing; a grant records a fresh access token with no user, whose
/// subject is the client. It succeeds whenever the drawn token id cannot
/// collide (so always on an empty access table).
pub open spec fn client_grant_post(o: AuthServer, req: TokenRequest, now: int, r: Result<TokenResponse, AppError>, n: AuthServer) -> bool {
    &&& n.tokens == o.tokens
    &&& match client_grant_check(o.store, req) {
        Err(e) => r == Err::<TokenResponse, AppError>(e) && n.store == o.store,
        Ok(scopes) => {
            &&& (o.store.access_tokens@.len() == 0 ==> r is Ok)
            &&& match r {
                Err(e) => e == AppError::Internal && n.store == o.store,
                Ok(resp) => {
                    &&& n.store.users == o.store.users
                    &&& n.store.clients == o.store.clients
                    &&& n.store.codes == o.store.codes
                    &&& n.store.refresh_tokens == o.store.refresh_tokens
                    &&& appended_fresh(o.store.access_tokens@, n.store.access_tokens@, req.client_id@, None, scopes, now + ACCESS_EXPIRES_IN, now)
                    &&& issued_response(resp, o.tokens.secret(), req.client_id@, n.store.access_tokens@.last(), None, now)
                },
            }
        },
    }
}

/// What a password request does: refused requests change nothing; a grant
/// records a fresh access and refresh token for the user, which the
/// returned tokens carry. It succeeds whenever no drawn token id can
/// collide (so always on empty token tables).
pub open spec fn password_grant_post(o: AuthServer, req: TokenRequest, now: int, r: Result<TokenResponse, AppError>, n: AuthServer) -> bool {
    &&& n.tokens == o.tokens
    &&& match password_grant_check(o.store, req) {
        Err(e) => r == Err::<TokenResponse, AppError>(e) && n.store == o.store,
        Ok((u, scopes)) => {
            &&& (o.store.access_tokens@.len() == 0 && o.store.refresh_tokens@.len() == 0 ==> r is Ok)
            &&& match r {
                Err(e) => e == AppError::Internal && n.store == o.store,
                Ok(resp) => {
                    let user = o.store.users@[u].id@;
                    &&& n.store.users == o.store.users
                    &&& n.store.clients == o.store.clients
                    &&& n.store.codes == o.store.codes
                    &&& appended_fresh(o.store.access_tokens@, n.store.access_tokens@, req.client_id@, Some(user), scopes, now + ACCESS_EXPIRES_IN, now)
                    &&& appended_fresh(o.store.refresh_tokens@, n.store.refresh_tokens@, req.client_id@, Some(user), scopes, now + REFRESH_EXPIRES_IN, now)
                    &&& issued_response(resp, o.tokens.secret(), user, n.store.access_tokens@.last(), Some(n.store.refresh_tokens@.last()), now)
                },
            }
        },
    }
}

/// What the token endpoint does with a request, by its grant type.
pub open spec fn token_post(o: AuthServer, req: TokenRequest, now: int, r: Result<TokenResponse, AppError>, n: AuthServer) -> bool {
    if req.grant_type@ == "authorization_code"@ {
        code_grant_post(o, req, now, r, n)
    } else if req.grant_type@ == "refresh_token"@ {
        refresh_grant_post(o, req, now, r, n)
    } else if req.grant_type@ == "client_credentials"@ {
        client_grant_post(o, req, now, r, n)
    } else if req.grant_type@ == "password"@ {
        password_grant_post(o, req, now, r, n)
    } else {
        r == Err::<TokenResponse, AppError>(AppError::UnsupportedGrantType) && n == o
    }
}

proof fn lemma_remove_code(codes: Seq<AuthorizationCode>, k: int)
    requires
        0 <= k < codes.len(),
        forall|i: int, j: int|
            0 <= i < codes.len() && 0 <= j < codes.len() && i != j ==> #[trigger] codes[i].code@ != #[trigger] codes[j].code@,
    ensures
        forall|i: int, j: int|
            0 <= i < codes.remove(k).len() && 0 <= j < codes.remove(k).len() && i != j
                ==> #[trigger] codes.remove(k)[i].code@ != #[trigger] codes.remove(k)[j].code@,
{
    let n = codes.remove(k);
    assert forall|i: int, j: int| 0 <= i < n.len() && 0 <= j < n.len() && i != j implies #[trigger] n[i].code@ != #[trigger] n[j].code@ by {
        let oi = if i < k { i } else { i + 1 };
        let oj = if j < k { j } else { j + 1 };
        assert(n[i] == codes[oi] && n[j] == codes[oj]);
    }
}

proof fn lemma_update_revoked(recs: Seq<TokenRecord>, k: int)
    requires
        hashes_unique(recs),
        0 <= k < recs.len(),
    ensures
        hashes_unique(recs.update(k, revoked_copy(recs[k]))),
        forall|h: Seq<char>| #[trigger] has_hash(recs.update(k, revoked_copy(recs[k])), h) == has_hash(recs, h),
{
    let n = recs.update(k, revoked_copy(recs[k]));
    assert forall|i: int| 0 <= i < n.len() implies #[trigger] n[i].token_hash@ == recs[i].token_hash@ by {}
    assert forall|h: Seq<char>| #[trigger] has_hash(n, h) == has_hash(recs, h) by {
        if has_hash(recs, h) {
            let i = choose|i: int| 0 <= i < recs.len() && (#[trigger] recs[i]).token_hash@ == h;
            assert(n[i].token_hash@ == h);
        }
        if has_hash(n, h) {
            let i = choose|i: int| 0 <= i < n.len() && (#[trigger] n[i]).token_hash@ == h;
            assert(recs[i].token_hash@ == h);
        }
    }
}

impl AuthServer {
    pub open spec fn wf(&self) -> bool {
        self.store.wf()
    }

    /// A server with an empty store, signing under `secret`.
    pub fn new(secret: Vec<u8>) -> (r: Result<Self, TokenError>)
        ensures
            secret@.len() == 0 ==> r is Err,
            r matches Ok(s) ==> s.wf() && s.tokens.secret() == secret@ && s.store.clients@.len() == 0
                && s.store.codes@.len() == 0 && s.store.access_tokens@.len() == 0
                && s.store.refresh_tokens@.len() == 0,
            secret@.len() > 0 ==> r is Ok,
    {
        match TokenGenerator::new(secret) {
            Ok(tokens) => Ok(AuthServer { tokens, store: Store::new() }),
            Err(e) => Err(e),
        }
    }

    /// Authenticates a client: public clients by id alone, confidential
    /// ones by a secret checked against the stored digest.
    pub fn authenticate_client(&self, client_id: &str, client_secret: &Option<String>) -> (r: Result<usize, AppError>)
        requires
            self.wf(),
        ensures
            match r {
                Ok(i) => client_auth(self.store, client_id@, opt_str(*client_secret)) == Ok::<int, AppError>(i as int),
                Err(e) => client_auth(self.store, client_id@, opt_str(*client_secret)) == Err::<int, AppError>(e),
            },
    {
        let i = match self.store.find_client_index(client_id) {
            None => return Err(AppError::InvalidClient),
            Some(i) => i,
        };
        if self.store.clients[i].is_public {
            return Ok(i);
        }
        match client_secret {
            None => Err(AppError::InvalidClient),
            Some(sec) => match verify_password(sec.as_str(), self.store.clients[i].client_secret_hash.as_str()) {
                Ok(true) => Ok(i),
                _ => Err(AppError::InvalidClient),
            },
        }
    }

    /// The token endpoint: dispatches on `grant_type`.
    pub fn token(&mut self, req: &TokenRequest, now: i64) -> (r: Result<TokenResponse, AppError>)
        requires
            old(self).wf(),
            0 <= now < MAX_TIMESTAMP,
        ensures
            final(self).wf(),
            token_post(*old(self), *req, now as int, r, *final(self)),
    {
        if text_eq(req.grant_type.as_str(), "authorization_code") {
            self.authorization_code_grant(req, now)
        } else if text_eq(req.grant_type.as_str(), "refresh_token") {
            self.refresh_token_grant(req, now)
        } else if text_eq(req.grant_type.as_str(), "client_credentials") {
            self.client_credentials_grant(req, now)
        } else if text_eq(req.grant_type.as_str(), "password") {
            self.password_grant(req, now)
        } else {
            Err(AppError::UnsupportedGrantType)
        }
    }

    fn authorization_code_grant(&mut self, req: &TokenRequest, now: i64) -> (r: Result<TokenResponse, AppError>)
        requires
            old(self).wf(),
            0 <= now < MAX_TIMESTAMP,
        ensures
            final(self).wf(),
            code_grant_post(*old(self), *req, now as int, r, *final(self)),
    {
        let code = match &req.code {
            Some(c) => c,
            None => return Err(AppError::InvalidRequest),
        };
        let redirect_uri = match &req.redirect_uri {
            Some(u) => u,
            None => return Err(AppError::InvalidRequest),
        };
        match self.authenticate_client(req.client_id.as_str(), &req.client_secret) {
            Ok(_) => {},
            Err(e) => return Err(e),
        }
        let k = match self.store.find_code_index(code.as_str(), req.client_id.as_str()) {
            None => return Err(AppError::InvalidGrant),
            Some(k) => k,
        };
        if self.store.codes[k].expires_at < now {
            let _expired = self.store.codes.remove(k);
            proof {
                lemma_remove_code(old(self).store.codes@, k as int);
            }
            return Err(AppError::InvalidGrant);
        }
        if !text_eq(self.store.codes[k].redirect_uri.as_str(), redirect_uri.as_str()) {
            return Err(AppError::InvalidGrant);
        }
        if !pkce_check(&self.store.codes[k], &req.code_verifier) {
            return Err(AppError::InvalidGrant);
        }
        let user = self.store.codes[k].user_id.clone();
        let client = self.store.codes[k].client_id.clone();
        let scopes = self.store.codes[k].scopes.clone();
        let (access_token, access_jti) = match self.tokens.generate_access_token(
            Some(user.as_str()), client.as_str(), &scopes, ACCESS_TOKEN_MINUTES, now) {
            Ok(p) => p,
            Err(_) => return Err(AppError::Internal),
        };
        let (refresh_token, refresh_jti) = match self.tokens.generate_refresh_token(
            Some(user.as_str()), client.as_str(), &scopes, REFRESH_TOKEN_DAYS, now) {
            Ok(p) => p,
            Err(_) => return Err(AppError::Internal),
        };
        let scope_text = scopes.to_string();
        let access_rec = TokenRecord {
            token_hash: hash_token(access_jti.as_str()),
            client_id: client.clone(),
            user_id: Some(user.clone()),
            scopes: scopes.clone(),
            expires_at: now + ACCESS_EXPIRES_IN,
            created_at: now,
            revoked: false,
        };
        let refresh_rec = TokenRecord {
            token_hash: hash_token(refresh_jti.as_str()),
            client_id: client,
            user_id: Some(user),
            scopes,
            expires_at: now + REFRESH_EXPIRES_IN,
            created_at: now,
            revoked: false,
        };
        match self.store.insert_token_pair(access_rec, refresh_rec) {
            Ok(()) => {},
            Err(e) => return Err(e),
        }
        let _redeemed = self.store.codes.remove(k);
        proof {
            lemma_remove_code(old(self).store.codes@, k as int);
            assert(self.store.access_tokens@.drop_last() =~= old(self).store.access_tokens@);
            assert(self.store.refresh_tokens@.drop_last() =~= old(self).store.refresh_tokens@);
        }
        Ok(TokenResponse {
            access_token,
            token_type: "Bearer".to_owned(),
            expires_in: ACCESS_EXPIRES_IN,
            refresh_token: Some(refresh_token),
            scope: scope_text,
        })
    }

    fn refresh_token_grant(&mut self, req: &TokenRequest, now: i64) -> (r: Result<TokenResponse, AppError>)
        requires
            old(self).wf(),
            0 <= now < MAX_TIMESTAMP,
        ensures
            final(self).wf(),
            refresh_grant_post(*old(self), *req, now as int, r, *final(self)),
    {
        let presented = match &req.refresh_token {
            Some(t) => t,
            None => return Err(AppError::InvalidRequest),
        };
        match self.authenticate_client(req.client_id.as_str(), &req.client_secret) {
            Ok(_) => {},
            Err(e) => return Err(e),
        }
        let claims = match self.tokens.verify(presented.as_str(), TokenKind::Refresh, now) {
            Ok(c) => c,
            Err(_) => return Err(AppError::InvalidGrant),
        };
        if !text_eq(claims.client_id.as_str(), req.client_id.as_str()) {
            return Err(AppError::InvalidGrant);
        }
        let h = hash_token(claims.jti.as_str());
        let k = match find_active_index(&self.store.refresh_tokens, h.as_str()) {
            None => return Err(AppError::InvalidGrant),
            Some(k) => k,
        };
        let client = self.store.refresh_tokens[k].client_id.clone();
        let user: Option<String> = match &self.store.refresh_tokens[k].user_id {
            Some(u) => Some(u.clone()),
            None => None,
        };
        let scopes = self.store.refresh_tokens[k].scopes.clone();
        let user_ref: Option<&str> = match &user {
            Some(u) => Some(u.as_str()),
            None => None,
        };
        let ghost sub = owner_subject(opt_str(user), client@);
        assert(subject_of(user_ref, client@) == sub);
        let (access_token, access_jti) = match self.tokens.generate_access_token(
            user_ref, client.as_str(), &scopes, ACCESS_TOKEN_MINUTES, now) {
            Ok(p) => p,
            Err(_) => return Err(AppError::Internal),
        };
        let (refresh_token, refresh_jti) = match self.tokens.generate_refresh_token(
            user_ref, client.as_str(), &scopes, REFRESH_TOKEN_DAYS, now) {
            Ok(p) => p,
            Err(_) => return Err(AppError::Internal),
        };
        let scope_text = scopes.to_string();
        let access_rec = TokenRecord {
            token_hash: hash_token(access_jti.as_str()),
            client_id: client.clone(),
            user_id: match &user {
                Some(u) => Some(u.clone()),
                None => None,
            },
            scopes: scopes.clone(),
            expires_at: now + ACCESS_EXPIRES_IN,
            created_at: now,
            revoked: false,
        };
        let refresh_rec = TokenRecord {
            token_hash: hash_token(refresh_jti.as_str()),
            client_id: client,
            user_id: user,
            scopes,
            expires_at: now + REFRESH_EXPIRES_IN,
            created_at: now,
            revoked: false,
        };
        let ghost fresh = refresh_rec;
        match self.store.insert_token_pair(access_rec, refresh_rec) {
            Ok(()) => {},
            Err(e) => return Err(e),
        }
        let ghost pushed = self.store.refresh_tokens@;
        crate::store::revoke_at(&mut self.store.refresh_tokens, k);
        proof {
            let orr = old(self).store.refresh_tokens@;
            let rotated = orr.update(k as int, revoked_copy(orr[k as int]));
            lemma_update_revoked(pushed, k as int);
            lemma_update_revoked(orr, k as int);
            assert(self.store.refresh_tokens@ =~= rotated.push(fresh));
            assert(self.store.refresh_tokens@.drop_last() =~= rotated);
            assert(self.store.access_tokens@.drop_last() =~= old(self).store.access_tokens@);
            // The presented token's id digests to the rotated record's key,
            // which the fresh record does not share.
            assert(orr[k as int].token_hash@ == h@);
            assert(has_hash(orr, h@));
            if refresh_token@ == presented@ {
                assert(token_digest(claims.jti@) == fresh.token_hash@);
                assert(false);
            }
        }
        Ok(TokenResponse {
            access_token,
            token_type: "Bearer".to_owned(),
            expires_in: ACCESS_EXPIRES_IN,
            refresh_token: Some(refresh_token),
            scope: scope_text,
        })
    }

    fn password_grant(&mut self, req: &TokenRequest, now: i64) -> (r: Result<TokenResponse, AppError>)
        requires
            old(self).wf(),
            0 <= now < MAX_TIMESTAMP,
        ensures
            final(self).wf(),
            password_grant_post(*old(self), *req, now as int, r, *final(self)),
    {
        let (name, pw) = match (&req.username, &req.password) {
            (Some(n), Some(p)) => (n, p),
            _ => return Err(AppError::InvalidRequest),
        };
        let i = match self.authenticate_client(req.client_id.as_str(), &req.client_secret) {
            Ok(i) => i,
            Err(e) => return Err(e),
        };
        let scopes = match self.scopes_for(i, &req.scope) {
            Ok(s) => s,
            Err(e) => return Err(e),
        };
        let u = match self.store.find_user_index(name.as_str()) {
            None => return Err(AppError::InvalidGrant),
            Some(u) => u,
        };
        match verify_password(pw.as_str(), self.store.users[u].password_hash.as_str()) {
            Ok(true) => {},
            _ => return Err(AppError::InvalidGrant),
        }
        let user = self.store.users[u].id.clone();
        let (access_token, access_jti) = match self.tokens.generate_access_token(
            Some(user.as_str()), req.client_id.as_str(), &scopes, ACCESS_TOKEN_MINUTES, now) {
            Ok(p) => p,
            Err(_) => return Err(AppError::Internal),
        };
        let (refresh_token, refresh_jti) = match self.tokens.generate_refresh_token(
            Some(user.as_str()), req.client_id.as_str(), &scopes, REFRESH_TOKEN_DAYS, now) {
            Ok(p) => p,
            Err(_) => return Err(AppError::Internal),
        };
        let scope_text = scopes.to_string();
        let access_rec = TokenRecord {
            token_hash: hash_token(access_jti.as_str()),
            client_id: req.client_id.clone(),
            user_id: Some(user.clone()),
            scopes: scopes.clone(),
            expires_at: now + ACCESS_EXPIRES_IN,
            created_at: now,
            revoked: false,
        };
        let refresh_rec = TokenRecord {
            token_hash: hash_token(refresh_jti.as_str()),
            client_id: req.client_id.clone(),
            user_id: Some(user),
            scopes,
            expires_at: now + REFRESH_EXPIRES_IN,
            created_at: now,
            revoked: false,
        };
        match self.store.insert_token_pair(access_rec, refresh_rec) {
            Ok(()) => {},
            Err(e) => return Err(e),
        }
        proof {
            assert(self.store.access_tokens@.drop_last() =~= old(self).store.access_tokens@);
            assert(self.store.refresh_tokens@.drop_last() =~= old(self).store.refresh_tokens@);
        }
        Ok(TokenResponse {
            access_token,
            token_type: "Bearer".to_owned(),
            expires_in: ACCESS_EXPIRES_IN,
            refresh_token: Some(refresh_token),
            scope: scope_text,
        })
    }

    /// The scopes granted to client `i` for a requested scope string.
    fn scopes_for(&self, i: usize, scope: &Option<String>) -> (r: Result<ScopeSet, AppError>)
        requires
            i < self.store.clients@.len(),
        ensures
            match r {
                Ok(set) => requested_scopes(*scope, self.store.clients@[i as int].scopes@) == Ok::<Set<Scope>, AppError>(set@),
                Err(e) => requested_scopes(*scope, self.store.clients@[i as int].scopes@) == Err::<Set<Scope>, AppError>(e),
            },
    {
        match scope {
            None => Ok(self.store.clients[i].scopes.clone()),
            Some(s) => if s.as_str().is_empty() {
                Ok(self.store.clients[i].scopes.clone())
            } else {
                match ScopeSet::from_string(s.as_str()) {
                    Err(_) => Err(AppError::InvalidScope),
                    Ok(set) => if set.is_subset_of(&self.store.clients[i].scopes) {
                        Ok(set)
                    } else {
                        Err(AppError::InvalidScope)
                    },
                }
            },
        }
    }

    /// Registers a resource owner who signs in as `email`. A blank email or
    /// a password under 8 bytes is `invalid_request`; a taken email is a
    /// conflict; `Internal` when hashing fails or the fresh id is taken
    /// (`Store::insert_user`), and then nothing is stored. The password
    /// verifies against the stored digest.
    pub fn register_user(&mut self, email: &str, password: &str) -> (r: Result<String, AppError>)
        requires
            old(self).wf(),
        ensures
            final(self).wf(),
            final(self).tokens == old(self).tokens,
            final(self).store.clients == old(self).store.clients,
            final(self).store.codes == old(self).store.codes,
            final(self).store.access_tokens == old(self).store.access_tokens,
            final(self).store.refresh_tokens == old(self).store.refresh_tokens,
            words(email@).len() == 0 || password.len() < 8
                ==> r == Err::<String, AppError>(AppError::InvalidRequest),
            words(email@).len() > 0 && password.len() >= 8 && find_user(old(self).store.users@, email@) is Some
                ==> r == Err::<String, AppError>(AppError::Conflict),
            r is Err ==> final(self).store == old(self).store,
            r matches Ok(id) ==> {
                let u = final(self).store.users@.last();
                &&& final(self).store.users@ == old(self).store.users@.push(u)
                &&& find_user(old(self).store.users@, email@) is None
                &&& u.id@ == id@
                &&& id@.len() == 36
                &&& u.email@ == email@
                &&& argon2_verdict(password@, u.password_hash@) == Some(true)
            },
    {
        let ws = crate::scopes::split_words(email);
        proof {
            assert(crate::scopes::string_views(ws@).len() == ws@.len());
            assert(words(email@).len() == ws@.len());
        }
        if ws.len() == 0 || password.len() < 8 {
            return Err(AppError::InvalidRequest);
        }
        proof {
            assert(crate::scopes::string_views(ws@).len() == ws@.len());
        }
        if self.store.find_user_index(email).is_some() {
            return Err(AppError::Conflict);
        }
        let id = crate::clients::new_uuid();
        let password_hash = match hash_password(password) {
            Ok(h) => h,
            Err(_) => return Err(AppError::Internal),
        };
        let account = UserAccount { id: id.clone(), email: email.to_owned(), password_hash };
        let ghost fresh = account;
        match self.store.insert_user(account) {
            Ok(()) => {},
            Err(e) => return Err(e),
        }
        assert(self.store.users@.last() == fresh);
        Ok(id)
    }

    fn client_credentials_grant(&mut self, req: &TokenRequest, now: i64) -> (r: Result<TokenResponse, AppError>)
        requires
            old(self).wf(),
            0 <= now < MAX_TIMESTAMP,
        ensures
            final(self).wf(),
            client_grant_post(*old(self), *req, now as int, r, *final(self)),
    {
        let i = match self.authenticate_client(req.client_id.as_str(), &req.client_secret) {
            Ok(i) => i,
            Err(e) => return Err(e),
        };
        let scopes = match self.scopes_for(i, &req.scope) {
            Ok(s) => s,
            Err(e) => return Err(e),
        };
        let (access_token, access_jti) = match self.tokens.generate_access_token(
            None, req.client_id.as_str(), &scopes, ACCESS_TOKEN_MINUTES, now) {
            Ok(p) => p,
            Err(_) => return Err(AppError::Internal),
        };
        let scope_text = scopes.to_string();
        let access_rec = TokenRecord {
            token_hash: hash_token(access_jti.as_str()),
            client_id: req.client_id.clone(),
            user_id: None,
            scopes,
            expires_at: now + ACCESS_EXPIRES_IN,
            created_at: now,
            revoked: false,
        };
        match self.store.insert_access(access_rec) {
            Ok(()) => {},
            Err(e) => return Err(e),
        }
        proof {
            assert(self.store.access_tokens@.drop_last() =~= old(self).store.access_tokens@);
        }
        Ok(TokenResponse {
            access_token,
            token_type: "Bearer".to_owned(),
            expires_in: ACCESS_EXPIRES_IN,
            refresh_token: None,
            scope: scope_text,
        })
    }
}

/// Checks a presented verifier against the code's stored PKCE challenge.
pub fn pkce_check(c: &AuthorizationCode, verifier: &Option<String>) -> (r: bool)
    ensures
        r == pkce_satisfied(*c, opt_str(*verifier)),
{
    proof {
        reveal_strlit("S256");
        reveal_strlit("plain");
        assert("plain"@.len() != "S256"@.len());
    }
    match &c.code_challenge {
        None => true,
        Some(ch) => match verifier {
            None => false,
            Some(v) => {
                let is_s256 = match &c.code_challenge_method {
                    Some(m) => text_eq(m.as_str(), "S256"),
                    None => false,
                };
                let is_plain = match &c.code_challenge_method {
                    Some(m) => text_eq(m.as_str(), "plain"),
                    None => true,
                };
                if is_s256 {
                    let derived = generate_code_challenge(v.as_str());
                    text_eq(derived.as_str(), ch.as_str())
                } else if is_plain {
                    text_eq(v.as_str(), ch.as_str())
                } else {
                    false
                }
            },
        },
    }
}

} // verus!
