//! Bearer authentication and per-endpoint scope enforcement.
use vstd::prelude::*;
use crate::error::AppError;
use crate::scopes::{all_known, chars_of, grants, scopes_named, string_of_chars, words, Scope, ScopeSet};
use crate::server::AuthServer;
use crate::store::{find_active, find_active_index, opt_str, TokenRecord};
use crate::tokens::{check_claims, jwt_claims, token_digest, hash_token, ClaimsModel, TokenKind};

verus! {

/// What an authenticated request may act as: the client, the user if the
/// token has one, and the token's scopes.
#[derive(Debug)]
pub struct TokenInfo {
    pub client_id: String,
    pub user_id: Option<String>,
    pub scopes: ScopeSet,
}

/// A principal that must be a user.
#[derive(Debug)]
pub struct AuthUser {
    pub user_id: String,
    pub scopes: ScopeSet,
    pub client_id: String,
}

/// A principal that may be a user or a client acting for itself.
#[derive(Debug)]
pub struct AuthClient {
    pub client_id: String,
    pub scopes: ScopeSet,
}

/// The scope that an endpoint requires.
#[derive(Clone, Copy, Debug)]
pub struct RequireScope(pub Scope);

/// The token of an `Authorization: Bearer <token>` header value.
pub open spec fn bearer_token(h: Seq<char>) -> Option<Seq<char>> {
    if h.len() >= 7 && h.take(7) == "Bearer "@ {
        Some(h.skip(7))
    } else {
        None
    }
}

/// The claims and record index an access token resolves to at `now`:
/// it must verify as an unexpired access token whose record exists
/// unrevoked, and its scopes claim must parse; otherwise the request is
/// unauthorized.
pub open spec fn access_check(srv: AuthServer, token: Seq<char>, now: int) -> Result<(ClaimsModel, int), AppError> {
    match check_claims(jwt_claims(token, srv.tokens.secret()), TokenKind::Access, now) {
        Err(_) => Err(AppError::Unauthorized),
        Ok(c) => match find_active(srv.store.access_tokens@, token_digest(c.6)) {
            None => Err(AppError::Unauthorized),
            Some(k) => if all_known(words(c.2)) {
                Ok((c, k))
            } else {
                Err(AppError::Unauthorized)
            },
        },
    }
}

/// The principal of an authenticated token: the claims' client and
/// scopes, and the record's user.
pub open spec fn info_of(info: TokenInfo, c: ClaimsModel, rec: TokenRecord) -> bool {
    &&& info.client_id@ == c.1
    &&& opt_str(info.user_id) == opt_str(rec.user_id)
    &&& info.scopes@ == scopes_named(words(c.2))
}

impl AuthServer {
    /// Authenticates a bare access token.
    pub fn authenticate_token(&self, token: &str, now: i64) -> (r: Result<TokenInfo, AppError>)
        requires
            self.wf(),
        ensures
            match access_check(*self, token@, now as int) {
                Err(e) => r == Err::<TokenInfo, AppError>(e),
                Ok((c, k)) => r matches Ok(info) && info_of(info, c, self.store.access_tokens@[k]),
            },
    {
        let c = match self.tokens.verify(token, TokenKind::Access, now) {
            Err(_) => return Err(AppError::Unauthorized),
            Ok(c) => c,
        };
        let h = hash_token(c.jti.as_str());
        let k = match find_active_index(&self.store.access_tokens, h.as_str()) {
            None => return Err(AppError::Unauthorized),
            Some(k) => k,
        };
        let scopes = match ScopeSet::from_string(c.scopes.as_str()) {
            Err(_) => return Err(AppError::Unauthorized),
            Ok(s) => s,
        };
        let rec = &self.store.access_tokens[k];
        Ok(TokenInfo {
            client_id: c.client_id,
            user_id: match &rec.user_id {
                Some(u) => Some(u.clone()),
                None => None,
            },
            scopes,
        })
    }

    /// Authenticates a request from its `Authorization` header value: a
    /// missing header or one without the `Bearer ` prefix is unauthorized.
    pub fn extract_and_validate_token(&self, authorization: Option<&str>, now: i64) -> (r: Result<TokenInfo, AppError>)
        requires
            self.wf(),
        ensures
            match authorization {
                None => r == Err::<TokenInfo, AppError>(AppError::Unauthorized),
                Some(h) => match bearer_token(h@) {
                    None => r == Err::<TokenInfo, AppError>(AppError::Unauthorized),
                    Some(t) => match access_check(*self, t, now as int) {
                        Err(e) => r == Err::<TokenInfo, AppError>(e),
                        Ok((c, k)) => r matches Ok(info) && info_of(info, c, self.store.access_tokens@[k]),
                    },
                },
            },
    {
        let header = match authorization {
            None => return Err(AppError::Unauthorized),
            Some(h) => h,
        };
        let cs = chars_of(header);
        let prefix: Vec<char> = vec!['B', 'e', 'a', 'r', 'e', 'r', ' '];
        proof {
            reveal_strlit("Bearer ");
            assert(prefix@ =~= "Bearer "@);
        }
        if cs.len() < 7 {
            return Err(AppError::Unauthorized);
        }
        for i in 0..7
            invariant
                authorization == Some(header),
                cs@ == header@,
                cs@.len() >= 7,
                prefix@ == "Bearer "@,
                prefix@.len() == 7,
                forall|j: int| 0 <= j < i ==> cs@[j] == prefix@[j],
        {
            if cs[i] != prefix[i] {
                assert(cs@.take(7)[i as int] != prefix@[i as int]);
                assert(header@.take(7) != "Bearer "@);
                assert(bearer_token(header@) is None);
                return Err(AppError::Unauthorized);
            }
        }
        assert(cs@.take(7) =~= "Bearer "@);
        let mut rest: Vec<char> = Vec::new();
        for i in 7..cs.len()
            invariant
                7 <= i <= cs@.len(),
                rest@ == cs@.subrange(7, i as int),
        {
            rest.push(cs[i]);
            assert(rest@ =~= cs@.subrange(7, i as int + 1));
        }
        assert(rest@ =~= header@.skip(7));
        let token = string_of_chars(rest.as_slice());
        self.authenticate_token(token.as_str(), now)
    }
}

/// The principal as a user; a token without a user is unauthorized here.
pub fn auth_user(info: TokenInfo) -> (r: Result<AuthUser, AppError>)
    ensures
        match info.user_id {
            None => r == Err::<AuthUser, AppError>(AppError::Unauthorized),
            Some(u) => r matches Ok(a) && a.user_id@ == u@ && a.client_id@ == info.client_id@ && a.scopes@ == info.scopes@,
        },
{
    match info.user_id {
        None => Err(AppError::Unauthorized),
        Some(u) => Ok(AuthUser { user_id: u, scopes: info.scopes, client_id: info.client_id }),
    }
}

/// The principal as a client.
pub fn auth_client(info: TokenInfo) -> (r: AuthClient)
    ensures
        r.client_id@ == info.client_id@,
        r.scopes@ == info.scopes@,
{
    AuthClient { client_id: info.client_id, scopes: info.scopes }
}

/// The guard at the top of a protected handler: `Forbidden` unless the
/// scopes grant `required` (directly or through `admin`).
pub fn require_scope(scopes: &ScopeSet, required: &Scope) -> (r: Result<(), AppError>)
    ensures
        r is Ok <==> grants(scopes@, *required),
        r matches Err(e) ==> e == AppError::Forbidden,
{
    if scopes.contains(required) {
        Ok(())
    } else {
        Err(AppError::Forbidden)
    }
}

pub fn check_scope(auth: &AuthUser, required_scope: &Scope) -> (r: Result<(), AppError>)
    ensures
        r is Ok <==> grants(auth.scopes@, *required_scope),
        r matches Err(e) ==> e == AppError::Forbidden,
{
    require_scope(&auth.scopes, required_scope)
}

pub fn check_client_scope(auth: &AuthClient, required_scope: &Scope) -> (r: Result<(), AppError>)
    ensures
        r is Ok <==> grants(auth.scopes@, *required_scope),
        r matches Err(e) ==> e == AppError::Forbidden,
{
    require_scope(&auth.scopes, required_scope)
}

} // verus!
