//! Token introspection and revocation. A token is resolved once by its
//! `token_type` claim and then checked against the matching table.
use vstd::prelude::*;
use crate::scopes::{join_names, text_eq};
use crate::server::AuthServer;
use crate::store::{
    find_active, find_active_index, find_hash, find_hash_index, lemma_same_keys, opt_str,
    revoke_by_hash, revoke_by_owner, revoke_where_hash, revoke_where_owner, same_keys, TokenRecord,
};
use crate::tokens::{jwt_claims, token_digest, hash_token, ClaimsModel};

verus! {

/// An introspection request (form fields).
#[derive(Debug)]
pub struct IntrospectRequest {
    pub token: String,
    pub token_type_hint: Option<String>,
}

/// A revocation request (form fields).
#[derive(Debug)]
pub struct RevokeRequest {
    pub token: String,
    pub token_type_hint: Option<String>,
}

/// The introspection answer; only `active` is set for an inactive token.
#[derive(Debug)]
pub struct IntrospectResponse {
    pub active: bool,
    pub scope: Option<String>,
    pub client_id: Option<String>,
    pub username: Option<String>,
    pub exp: Option<i64>,
    pub iat: Option<i64>,
    pub sub: Option<String>,
}

/// The claims and stored record of a token that is active at `now`: its
/// signature verifies, it has not expired, and its record (in the table of
/// its kind) exists unrevoked.
pub open spec fn introspect_target(srv: AuthServer, token: Seq<char>, now: int) -> Option<(ClaimsModel, TokenRecord)> {
    match jwt_claims(token, srv.tokens.secret()) {
        None => None,
        Some(c) => if c.5 < now {
            None
        } else if c.3 == "access_token"@ {
            match find_active(srv.store.access_tokens@, token_digest(c.6)) {
                Some(k) => Some((c, srv.store.access_tokens@[k])),
                None => None,
            }
        } else if c.3 == "refresh_token"@ {
            match find_active(srv.store.refresh_tokens@, token_digest(c.6)) {
                Some(k) => Some((c, srv.store.refresh_tokens@[k])),
                None => None,
            }
        } else {
            None
        },
    }
}

/// What revoking `token` does: an access token's record is flagged revoked;
/// a refresh token's record is flagged revoked together with every access
/// token of the client and user (the subject) that its claims name;
/// anything else changes nothing.
pub open spec fn revoke_post(o: AuthServer, token: Seq<char>, n: AuthServer) -> bool {
    &&& n.tokens == o.tokens
    &&& n.store.users == o.store.users
    &&& n.store.clients == o.store.clients
    &&& n.store.codes == o.store.codes
    &&& match jwt_claims(token, o.tokens.secret()) {
        None => n.store == o.store,
        Some(c) => if c.3 == "access_token"@ {
            &&& n.store.access_tokens@ == revoke_where_hash(o.store.access_tokens@, token_digest(c.6))
            &&& n.store.refresh_tokens == o.store.refresh_tokens
        } else if c.3 == "refresh_token"@ {
            match find_hash(o.store.refresh_tokens@, token_digest(c.6)) {
                None => n.store == o.store,
                Some(_) => {
                    &&& n.store.refresh_tokens@ == revoke_where_hash(o.store.refresh_tokens@, token_digest(c.6))
                    &&& n.store.access_tokens@ == revoke_where_owner(o.store.access_tokens@, c.1, Some(c.0))
                },
            }
        } else {
            n.store == o.store
        },
    }
}

fn inactive() -> (r: IntrospectResponse)
    ensures
        !r.active,
        r.scope is None && r.client_id is None && r.username is None,
        r.exp is None && r.iat is None && r.sub is None,
{
    IntrospectResponse { active: false, scope: None, client_id: None, username: None, exp: None, iat: None, sub: None }
}

impl AuthServer {
    /// Reports whether `token` is active at `now`, and if so what it carries.
    pub fn introspect(&self, token: &str, now: i64) -> (r: IntrospectResponse)
        requires
            self.wf(),
        ensures
            match introspect_target(*self, token@, now as int) {
                None => !r.active && r.scope is None && r.client_id is None && r.username is None
                    && r.exp is None && r.iat is None && r.sub is None,
                Some((c, rec)) => {
                    &&& r.active
                    &&& opt_str(r.scope) == Some(join_names(rec.scopes.seq()))
                    &&& opt_str(r.client_id) == Some(c.1)
                    &&& opt_str(r.username) == opt_str(rec.user_id)
                    &&& r.exp matches Some(e) && e == c.5
                    &&& r.iat matches Some(i) && i == c.4
                    &&& opt_str(r.sub) == Some(c.0)
                },
            },
    {
        let c = match self.tokens.decode(token) {
            None => return inactive(),
            Some(c) => c,
        };
        if c.exp < now {
            return inactive();
        }
        let h = hash_token(c.jti.as_str());
        let rec: &TokenRecord = if text_eq(c.token_type.as_str(), "access_token") {
            match find_active_index(&self.store.access_tokens, h.as_str()) {
                None => return inactive(),
                Some(k) => &self.store.access_tokens[k],
            }
        } else if text_eq(c.token_type.as_str(), "refresh_token") {
            match find_active_index(&self.store.refresh_tokens, h.as_str()) {
                None => return inactive(),
                Some(k) => &self.store.refresh_tokens[k],
            }
        } else {
            return inactive();
        };
        IntrospectResponse {
            active: true,
            scope: Some(rec.scopes.to_string()),
            client_id: Some(c.client_id),
            username: match &rec.user_id {
                Some(u) => Some(u.clone()),
                None => None,
            },
            exp: Some(c.exp),
            iat: Some(c.iat),
            sub: Some(c.sub),
        }
    }

    /// Revokes `token`, whose signature must verify; its expiry does not
    /// matter. Per RFC 7009 the outcome is not reported: an unknown or
    /// invalid token changes nothing.
    pub fn revoke(&mut self, token: &str)
        requires
            old(self).wf(),
        ensures
            final(self).wf(),
            revoke_post(*old(self), token@, *final(self)),
    {
        let c = match self.tokens.decode(token) {
            None => return,
            Some(c) => c,
        };
        let h = hash_token(c.jti.as_str());
        if text_eq(c.token_type.as_str(), "access_token") {
            let _found = revoke_by_hash(&mut self.store.access_tokens, h.as_str());
            proof {
                assert(same_keys(old(self).store.access_tokens@, self.store.access_tokens@));
                lemma_same_keys(old(self).store.access_tokens@, self.store.access_tokens@);
            }
        } else if text_eq(c.token_type.as_str(), "refresh_token") {
            match find_hash_index(&self.store.refresh_tokens, h.as_str()) {
                None => return,
                Some(_) => {},
            }
            let client = c.client_id.clone();
            let user: Option<String> = Some(c.sub.clone());
            let _found = revoke_by_hash(&mut self.store.refresh_tokens, h.as_str());
            revoke_by_owner(&mut self.store.access_tokens, client.as_str(), &user);
            proof {
                assert(same_keys(old(self).store.access_tokens@, self.store.access_tokens@));
                lemma_same_keys(old(self).store.access_tokens@, self.store.access_tokens@);
                assert(same_keys(old(self).store.refresh_tokens@, self.store.refresh_tokens@));
                lemma_same_keys(old(self).store.refresh_tokens@, self.store.refresh_tokens@);
            }
        }
    }
}

} // verus!
