//! Properties of the server that hold across calls, proved over the
//! contracts of the endpoints.
use vstd::prelude::*;
use crate::error::AppError;
use crate::introspect::{introspect_target, revoke_post};
use crate::middleware::access_check;
use crate::scopes::{all_known, scopes_named, words};
use crate::server::{
    client_auth, client_grant_check, code_grant_check, pkce_satisfied, refresh_grant_check,
    token_post, AuthServer, TokenRequest, TokenResponse,
};
use crate::store::{
    find_active, find_code, find_hash, opt_str, revoke_where_hash, revoke_where_owner, revoked_copy,
    Store, TokenRecord,
};
use crate::tokens::{check_claims, jwt_claims, token_digest, TokenKind};

verus! {

proof fn lemma_no_active_after_revoke(recs: Seq<TokenRecord>, h: Seq<char>)
    ensures
        find_active(revoke_where_hash(recs, h), h) is None,
{
    let n = revoke_where_hash(recs, h);
    assert forall|i: int| 0 <= i < n.len() && (#[trigger] n[i]).token_hash@ == h implies n[i].revoked by {
        if recs[i].token_hash@ != h {
            assert(n[i] == recs[i]);
        }
    }
}

/// Once a redemption of an authorization code has succeeded, the code is
/// gone: presenting it again is refused with `invalid_grant`, whatever the
/// time.
pub proof fn law_code_redeemed_once(
    o: AuthServer,
    n: AuthServer,
    req: TokenRequest,
    now: int,
    r: Result<TokenResponse, AppError>,
    later: int,
)
    requires
        o.wf(),
        req.grant_type@ == "authorization_code"@,
        token_post(o, req, now, r, n),
        r is Ok,
    ensures
        code_grant_check(n.store, req, later) == Err::<int, AppError>(AppError::InvalidGrant),
        forall|r2: Result<TokenResponse, AppError>, n2: AuthServer|
            token_post(n, req, later, r2, n2) ==> r2 == Err::<TokenResponse, AppError>(AppError::InvalidGrant),
{
    let k = code_grant_check(o.store, req, now)->Ok_0;
    let code = req.code->Some_0;
    let oc = o.store.codes@;
    let nc = n.store.codes@;
    assert(nc == oc.remove(k));
    assert(client_auth(n.store, req.client_id@, opt_str(req.client_secret)) == client_auth(o.store, req.client_id@, opt_str(req.client_secret)));
    assert(oc[k].code@ == code@);
    if exists|i: int| 0 <= i < nc.len() && (#[trigger] nc[i]).code@ == code@ && nc[i].client_id@ == req.client_id@ {
        let i = choose|i: int| 0 <= i < nc.len() && (#[trigger] nc[i]).code@ == code@ && nc[i].client_id@ == req.client_id@;
        let oi = if i < k { i } else { i + 1 };
        assert(nc[i] == oc[oi]);
        assert(oc[oi].code@ != oc[k].code@);
    }
    assert(find_code(nc, code@, req.client_id@) is None);
}

/// With a PKCE challenge stored on the code, redemption without a
/// verifier, or with one whose derived challenge differs, is refused with
/// `invalid_grant`; a matching verifier passes every check.
pub proof fn law_pkce_enforced(s: Store, req: TokenRequest, now: int, k: int)
    requires
        s.wf(),
        req.code is Some,
        req.redirect_uri is Some,
        client_auth(s, req.client_id@, opt_str(req.client_secret)) is Ok,
        find_code(s.codes@, (req.code->Some_0)@, req.client_id@) == Some(k),
        s.codes@[k].code_challenge is Some,
        s.codes@[k].expires_at >= now,
        s.codes@[k].redirect_uri@ == (req.redirect_uri->Some_0)@,
    ensures
        req.code_verifier is None ==> code_grant_check(s, req, now) == Err::<int, AppError>(AppError::InvalidGrant),
        !pkce_satisfied(s.codes@[k], opt_str(req.code_verifier))
            ==> code_grant_check(s, req, now) == Err::<int, AppError>(AppError::InvalidGrant),
        pkce_satisfied(s.codes@[k], opt_str(req.code_verifier))
            ==> code_grant_check(s, req, now) == Ok::<int, AppError>(k),
{
}

/// Once a refresh token has been rotated, presenting it again is refused
/// with `invalid_grant`: its record is revoked and the new one has another
/// digest.
pub proof fn law_refresh_token_single_use(
    o: AuthServer,
    n: AuthServer,
    req: TokenRequest,
    now: int,
    r: Result<TokenResponse, AppError>,
    later: int,
)
    requires
        o.wf(),
        req.grant_type@ == "refresh_token"@,
        token_post(o, req, now, r, n),
        r is Ok,
    ensures
        refresh_grant_check(n, req, later) == Err::<int, AppError>(AppError::InvalidGrant),
        forall|r2: Result<TokenResponse, AppError>, n2: AuthServer|
            token_post(n, req, later, r2, n2) ==> r2 == Err::<TokenResponse, AppError>(AppError::InvalidGrant),
{
    reveal_strlit("authorization_code");
    reveal_strlit("refresh_token");
    assert("refresh_token"@.len() != "authorization_code"@.len());
    let k = refresh_grant_check(o, req, now)->Ok_0;
    let t = req.refresh_token->Some_0;
    let c = check_claims(jwt_claims(t@, o.tokens.secret()), TokenKind::Refresh, now)->Ok_0;
    let d = token_digest(c.6);
    let orr = o.store.refresh_tokens@;
    let nr = n.store.refresh_tokens@;
    let rotated = orr.update(k, revoked_copy(orr[k]));
    assert(find_active(orr, d) == Some(k));
    assert(orr[k].token_hash@ == d);
    assert(nr.drop_last() == rotated);
    assert(client_auth(n.store, req.client_id@, opt_str(req.client_secret)) == client_auth(o.store, req.client_id@, opt_str(req.client_secret)));
    assert forall|i: int| 0 <= i < nr.len() && (#[trigger] nr[i]).token_hash@ == d implies nr[i].revoked by {
        if i == nr.len() - 1 {
            assert(!crate::store::has_hash(orr, nr.last().token_hash@));
            assert(nr[i] == nr.last());
            assert(orr[k].token_hash@ == d);
        } else {
            assert(nr[i] == rotated[i]);
            if i != k {
                assert(rotated[i] == orr[i]);
                assert(orr[i].token_hash@ != orr[k].token_hash@);
            }
        }
    }
    assert(find_active(nr, d) is None);
    match check_claims(jwt_claims(t@, n.tokens.secret()), TokenKind::Refresh, later) {
        Err(_) => {},
        Ok(c2) => {
            assert(c2 == c);
        },
    }
}

/// Revoking a token makes it useless: afterwards authentication with it
/// is refused as unauthorized, and introspection reports it inactive.
pub proof fn law_revoked_token_rejected(o: AuthServer, n: AuthServer, token: Seq<char>, now: int)
    requires
        o.wf(),
        revoke_post(o, token, n),
    ensures
        access_check(n, token, now) == Err::<(crate::tokens::ClaimsModel, int), AppError>(AppError::Unauthorized),
        introspect_target(n, token, now) is None,
{
    reveal_strlit("access_token");
    reveal_strlit("refresh_token");
    assert("refresh_token"@.len() != "access_token"@.len());
    match jwt_claims(token, o.tokens.secret()) {
        None => {},
        Some(c) => {
            let d = token_digest(c.6);
            if c.3 == "access_token"@ {
                lemma_no_active_after_revoke(o.store.access_tokens@, d);
            } else if c.3 == "refresh_token"@ {
                match find_hash(o.store.refresh_tokens@, d) {
                    None => {
                        let rr = o.store.refresh_tokens@;
                        assert forall|i: int| 0 <= i < rr.len() && (#[trigger] rr[i]).token_hash@ == d implies rr[i].revoked by {
                            assert(exists|j: int| 0 <= j < rr.len() && (#[trigger] rr[j]).token_hash@ == d);
                        }
                    },
                    Some(_) => {
                        lemma_no_active_after_revoke(o.store.refresh_tokens@, d);
                    },
                }
            }
        },
    }
}

/// Revoking a refresh token revokes its siblings: every access token whose
/// record belongs to the client and subject the refresh token names is
/// refused afterwards.
pub proof fn law_refresh_revocation_cascades(
    o: AuthServer,
    n: AuthServer,
    refresh: Seq<char>,
    access: Seq<char>,
    now: int,
    k: int,
    j: int,
)
    requires
        o.wf(),
        revoke_post(o, refresh, n),
        jwt_claims(refresh, o.tokens.secret()) is Some,
        (jwt_claims(refresh, o.tokens.secret())->Some_0).3 == "refresh_token"@,
        find_hash(o.store.refresh_tokens@, token_digest((jwt_claims(refresh, o.tokens.secret())->Some_0).6)) == Some(k),
        access_check(o, access, now) matches Ok((_, jj)) && jj == j,
        o.store.access_tokens@[j].client_id@ == (jwt_claims(refresh, o.tokens.secret())->Some_0).1,
        opt_str(o.store.access_tokens@[j].user_id) == Some((jwt_claims(refresh, o.tokens.secret())->Some_0).0),
    ensures
        access_check(n, access, now) == Err::<(crate::tokens::ClaimsModel, int), AppError>(AppError::Unauthorized),
{
    reveal_strlit("access_token");
    reveal_strlit("refresh_token");
    assert("refresh_token"@.len() != "access_token"@.len());
    let rc = jwt_claims(refresh, o.tokens.secret())->Some_0;
    let oa = o.store.access_tokens@;
    let na = n.store.access_tokens@;
    assert(na == revoke_where_owner(oa, rc.1, Some(rc.0)));
    let ac = check_claims(jwt_claims(access, o.tokens.secret()), TokenKind::Access, now)->Ok_0;
    let da = token_digest(ac.6);
    assert(find_active(oa, da) == Some(j));
    assert(oa[j].token_hash@ == da);
    assert forall|i: int| 0 <= i < na.len() && (#[trigger] na[i]).token_hash@ == da implies na[i].revoked by {
        if i != j {
            assert(oa[i].token_hash@ != oa[j].token_hash@);
        }
    }
    assert(find_active(na, da) is None);
}

/// A client-credentials request for scopes beyond the client's allowed
/// scopes, or naming an unknown scope, is refused with `invalid_scope`; a
/// request for a subset of them is granted exactly those.
pub proof fn law_client_scopes_bounded(s: Store, req: TokenRequest, i: int)
    requires
        s.wf(),
        client_auth(s, req.client_id@, opt_str(req.client_secret)) == Ok::<int, AppError>(i),
        req.scope is Some,
        (req.scope->Some_0)@.len() > 0,
    ensures
        !all_known(words((req.scope->Some_0)@))
            ==> client_grant_check(s, req) == Err::<crate::scopes::ScopeSetModel, AppError>(AppError::InvalidScope),
        !scopes_named(words((req.scope->Some_0)@)).subset_of(s.clients@[i].scopes@)
            ==> client_grant_check(s, req) == Err::<crate::scopes::ScopeSetModel, AppError>(AppError::InvalidScope),
        all_known(words((req.scope->Some_0)@)) && scopes_named(words((req.scope->Some_0)@)).subset_of(s.clients@[i].scopes@)
            ==> client_grant_check(s, req) == Ok::<crate::scopes::ScopeSetModel, AppError>(scopes_named(words((req.scope->Some_0)@))),
{
}


/// The tokens of one authorization-code redemption are siblings: once its
/// refresh token is revoked, its access token is refused, at any time.
pub proof fn law_redeemed_pair_revoked_together(
    o: AuthServer,
    n1: AuthServer,
    n2: AuthServer,
    req: TokenRequest,
    now: int,
    resp: TokenResponse,
    later: int,
)
    requires
        o.wf(),
        n1.wf(),
        req.grant_type@ == "authorization_code"@,
        token_post(o, req, now, Ok(resp), n1),
        revoke_post(n1, resp.refresh_token->Some_0@, n2),
    ensures
        access_check(n2, resp.access_token@, later) == Err::<(crate::tokens::ClaimsModel, int), AppError>(AppError::Unauthorized),
{
    reveal_strlit("access_token");
    reveal_strlit("refresh_token");
    assert("refresh_token"@.len() != "access_token"@.len());
    let k = code_grant_check(o.store, req, now)->Ok_0;
    let c = o.store.codes@[k];
    let secret = o.tokens.secret();
    let a = n1.store.access_tokens@.last();
    let f = n1.store.refresh_tokens@.last();
    let rt = resp.refresh_token->Some_0@;
    let rc = jwt_claims(rt, secret)->Some_0;
    assert(rc.3 == "refresh_token"@);
    assert(token_digest(rc.6) == f.token_hash@);
    let fr = n1.store.refresh_tokens@;
    assert(fr[fr.len() - 1] == f);
    assert(find_hash(fr, f.token_hash@) is Some);
    let na = n2.store.access_tokens@;
    let oa = n1.store.access_tokens@;
    assert(na == revoke_where_owner(oa, rc.1, Some(rc.0)));
    let ac = jwt_claims(resp.access_token@, secret)->Some_0;
    let da = token_digest(ac.6);
    assert(da == a.token_hash@);
    let j = oa.len() - 1;
    assert(oa[j] == a);
    assert(a.client_id@ == rc.1 && opt_str(a.user_id) == Some(rc.0));
    assert forall|i: int| 0 <= i < na.len() && (#[trigger] na[i]).token_hash@ == da implies na[i].revoked by {
        if i != j {
            assert(oa[i].token_hash@ != oa[j].token_hash@);
        }
    }
    assert(find_active(na, da) is None);
}

} // verus!
