//! The authorization-code flow's two visible steps: the authorization
//! request (rendered as a pending consent) and the consent decision (which
//! mints and stores a one-time code). Every failure answers with a redirect
//! to the caller's `redirect_uri` carrying `error`, `error_description` and
//! `state`.
use vstd::prelude::*;
use crate::error::AppError;
use crate::scopes::{all_known, scopes_named, text_eq, words, ScopeSet, Scope};
use crate::server::AuthServer;
use crate::store::{find_client, has_code, opt_str, AuthorizationCode, OAuthClient};
use crate::tokens::{generate_authorization_code, MAX_TIMESTAMP};

verus! {

/// Lifetime of an authorization code in seconds.
pub const CODE_TTL_SECONDS: i64 = 600;

/// The query of an authorization request.
#[derive(Debug)]
pub struct AuthorizeParams {
    pub response_type: String,
    pub client_id: String,
    pub redirect_uri: String,
    pub scope: Option<String>,
    pub state: Option<String>,
    pub code_challenge: Option<String>,
    pub code_challenge_method: Option<String>,
}

/// The consent decision submitted by the resource owner.
#[derive(Debug)]
pub struct ConsentForm {
    pub user_id: String,
    pub client_id: String,
    pub redirect_uri: String,
    pub scope: String,
    pub state: Option<String>,
    pub code_challenge: Option<String>,
    pub code_challenge_method: Option<String>,
    /// `true` when the owner approved.
    pub approved: String,
}

/// A redirect to `uri` with query parameters appended in order.
#[derive(Debug)]
pub struct Redirect {
    pub uri: String,
    pub params: Vec<(String, String)>,
}

/// A pending consent: what the owner is asked to approve.
#[derive(Debug)]
pub struct ConsentPrompt {
    pub client_id: String,
    pub client_name: String,
    pub redirect_uri: String,
    pub scope: Option<String>,
    pub state: Option<String>,
    pub code_challenge: Option<String>,
    pub code_challenge_method: Option<String>,
}

/// The answer to an authorization request.
#[derive(Debug)]
pub enum AuthorizeOutcome {
    Consent(ConsentPrompt),
    Redirect(Redirect),
}

pub type Pairs = Seq<(Seq<char>, Seq<char>)>;

pub open spec fn pairs_view(ps: Seq<(String, String)>) -> Pairs {
    ps.map_values(|p: (String, String)| (p.0@, p.1@))
}

/// `uri` with the query pairs appended (form-urlencoded), if `uri` parses
/// as an absolute URL.
pub uninterp spec fn url_with_query(uri: Seq<char>, pairs: Pairs) -> Option<Seq<char>>;

/// Relies on url's `Url::parse` and `query_pairs_mut().extend_pairs`, then
/// `to_string`: the text depends on the URI and the pairs alone.
#[verifier::external_body]
fn url_append_query(uri: &str, pairs: &[(String, String)]) -> (r: Option<String>)
    ensures
        opt_str(r) == url_with_query(uri@, pairs_view(pairs@)),
{
    let mut url = url::Url::parse(uri).ok()?;
    url.query_pairs_mut().extend_pairs(pairs);
    Some(url.to_string())
}

impl Redirect {
    /// The `Location` of the redirect; `None` when `uri` is not an absolute URL.
    pub fn location(&self) -> (r: Option<String>)
        ensures
            opt_str(r) == url_with_query(self.uri@, pairs_view(self.params@)),
    {
        url_append_query(self.uri.as_str(), self.params.as_slice())
    }
}

/// The parameters of an error redirect.
pub open spec fn error_pairs(error: Seq<char>, description: Seq<char>, state: Option<Seq<char>>) -> Pairs {
    seq![("error"@, error), ("error_description"@, description)] + match state {
        Some(s) => seq![("state"@, s)],
        None => Seq::<(Seq<char>, Seq<char>)>::empty(),
    }
}

/// The parameters of a successful consent redirect.
pub open spec fn code_pairs(code: Seq<char>, state: Option<Seq<char>>) -> Pairs {
    seq![("code"@, code)] + match state {
        Some(s) => seq![("state"@, s)],
        None => Seq::<(Seq<char>, Seq<char>)>::empty(),
    }
}

pub open spec fn redirect_registered(c: OAuthClient, uri: Seq<char>) -> bool {
    exists|i: int| 0 <= i < c.redirect_uris@.len() && (#[trigger] c.redirect_uris@[i])@ == uri
}

/// A PKCE challenge, when present, names `S256` or `plain` (the default).
pub open spec fn method_supported(challenge: Option<String>, method: Option<String>) -> bool {
    match challenge {
        None => true,
        Some(_) => match method {
            None => true,
            Some(m) => m@ == "S256"@ || m@ == "plain"@,
        },
    }
}

/// What is wrong with a request for client `ci` (if anything): an error
/// code and description.
pub open spec fn request_problem(
    s_clients: Seq<OAuthClient>,
    client_id: Seq<char>,
    redirect_uri: Seq<char>,
    challenge: Option<String>,
    method: Option<String>,
) -> Result<int, (Seq<char>, Seq<char>)> {
    match find_client(s_clients, client_id) {
        None => Err(("invalid_client"@, "Client not found"@)),
        Some(i) => if !redirect_registered(s_clients[i], redirect_uri) {
            Err(("invalid_request"@, "Invalid redirect_uri"@))
        } else if !method_supported(challenge, method) {
            Err(("invalid_request"@, "Invalid code_challenge_method"@))
        } else {
            Ok(i)
        },
    }
}

/// The decision on an authorization request: the client's index, or the
/// error to redirect with.
pub open spec fn authorize_decision(srv: AuthServer, p: AuthorizeParams) -> Result<int, (Seq<char>, Seq<char>)> {
    if p.response_type@ != "code"@ {
        Err(("unsupported_response_type"@, "Only 'code' response type is supported"@))
    } else {
        request_problem(srv.store.clients@, p.client_id@, p.redirect_uri@, p.code_challenge, p.code_challenge_method)
    }
}

/// The decision on a consent: the client's index and the scopes to bind,
/// or the error to redirect with.
pub open spec fn consent_decision(srv: AuthServer, f: ConsentForm) -> Result<(int, Set<Scope>), (Seq<char>, Seq<char>)> {
    if f.approved@ != "true"@ {
        Err(("access_denied"@, "User denied the authorization request"@))
    } else {
        match request_problem(srv.store.clients@, f.client_id@, f.redirect_uri@, f.code_challenge, f.code_challenge_method) {
            Err(e) => Err(e),
            Ok(i) => if !all_known(words(f.scope@)) {
                Err(("invalid_scope"@, "Unknown scope"@))
            } else {
                Ok((i, scopes_named(words(f.scope@))))
            },
        }
    }
}

/// The code stored at consent: bound to the form's user, client, redirect
/// URI, scopes and challenge, expiring `CODE_TTL_SECONDS` after `now`.
pub open spec fn minted_code(c: AuthorizationCode, f: ConsentForm, scopes: Set<Scope>, now: int) -> bool {
    &&& c.client_id@ == f.client_id@
    &&& c.user_id@ == f.user_id@
    &&& c.redirect_uri@ == f.redirect_uri@
    &&& c.scopes@ == scopes
    &&& c.expires_at == now + CODE_TTL_SECONDS
    &&& c.created_at == now
    &&& opt_str(c.code_challenge) == opt_str(f.code_challenge)
    &&& opt_str(c.code_challenge_method) == opt_str(f.code_challenge_method)
}

fn copy_opt(o: &Option<String>) -> (r: Option<String>)
    ensures
        opt_str(r) == opt_str(*o),
{
    match o {
        Some(s) => Some(s.clone()),
        None => None,
    }
}

fn error_redirect(uri: &String, error: &str, description: &str, state: &Option<String>) -> (r: Redirect)
    ensures
        r.uri@ == uri@,
        pairs_view(r.params@) == error_pairs(error@, description@, opt_str(*state)),
{
    let mut params: Vec<(String, String)> = Vec::new();
    params.push(("error".to_owned(), error.to_owned()));
    params.push(("error_description".to_owned(), description.to_owned()));
    match state {
        Some(s) => params.push(("state".to_owned(), s.clone())),
        None => {},
    }
    proof {
        reveal_strlit("error");
        reveal_strlit("error_description");
        reveal_strlit("state");
    }
    assert(pairs_view(params@) =~= error_pairs(error@, description@, opt_str(*state)));
    Redirect { uri: uri.clone(), params }
}

fn method_check(challenge: &Option<String>, method: &Option<String>) -> (r: bool)
    ensures
        r == method_supported(*challenge, *method),
{
    match challenge {
        None => true,
        Some(_) => match method {
            None => true,
            Some(m) => text_eq(m.as_str(), "S256") || text_eq(m.as_str(), "plain"),
        },
    }
}

fn uri_registered(c: &OAuthClient, uri: &str) -> (r: bool)
    ensures
        r == redirect_registered(*c, uri@),
{
    for i in 0..c.redirect_uris.len()
        invariant
            forall|j: int| 0 <= j < i ==> (#[trigger] c.redirect_uris@[j])@ != uri@,
    {
        if text_eq(c.redirect_uris[i].as_str(), uri) {
            return true;
        }
    }
    false
}

impl AuthServer {
    fn check_request(
        &self,
        client_id: &str,
        redirect_uri: &str,
        challenge: &Option<String>,
        method: &Option<String>,
    ) -> (r: Result<usize, (&'static str, &'static str)>)
        requires
            self.wf(),
        ensures
            match r {
                Ok(i) => request_problem(self.store.clients@, client_id@, redirect_uri@, *challenge, *method) == Ok::<int, (Seq<char>, Seq<char>)>(i as int),
                Err((e, d)) => request_problem(self.store.clients@, client_id@, redirect_uri@, *challenge, *method) == Err::<int, (Seq<char>, Seq<char>)>((e@, d@)),
            },
    {
        let i = match self.store.find_client_index(client_id) {
            None => return Err(("invalid_client", "Client not found")),
            Some(i) => i,
        };
        if !uri_registered(&self.store.clients[i], redirect_uri) {
            return Err(("invalid_request", "Invalid redirect_uri"));
        }
        if !method_check(challenge, method) {
            return Err(("invalid_request", "Invalid code_challenge_method"));
        }
        Ok(i)
    }

    /// Validates an authorization request and renders the pending consent,
    /// or answers with an error redirect.
    pub fn authorize(&self, p: &AuthorizeParams) -> (r: AuthorizeOutcome)
        requires
            self.wf(),
        ensures
            match authorize_decision(*self, *p) {
                Err((e, d)) => r matches AuthorizeOutcome::Redirect(rd) && rd.uri@ == p.redirect_uri@
                    && pairs_view(rd.params@) == error_pairs(e, d, opt_str(p.state)),
                Ok(i) => r matches AuthorizeOutcome::Consent(c) && c.client_name@ == self.store.clients@[i].name@
                    && c.client_id@ == p.client_id@ && c.redirect_uri@ == p.redirect_uri@
                    && opt_str(c.scope) == opt_str(p.scope) && opt_str(c.state) == opt_str(p.state)
                    && opt_str(c.code_challenge) == opt_str(p.code_challenge)
                    && opt_str(c.code_challenge_method) == opt_str(p.code_challenge_method),
            },
    {
        if !text_eq(p.response_type.as_str(), "code") {
            return AuthorizeOutcome::Redirect(error_redirect(
                &p.redirect_uri,
                "unsupported_response_type",
                "Only 'code' response type is supported",
                &p.state,
            ));
        }
        let i = match self.check_request(p.client_id.as_str(), p.redirect_uri.as_str(), &p.code_challenge, &p.code_challenge_method) {
            Err((e, d)) => return AuthorizeOutcome::Redirect(error_redirect(&p.redirect_uri, e, d, &p.state)),
            Ok(i) => i,
        };
        AuthorizeOutcome::Consent(ConsentPrompt {
            client_id: p.client_id.clone(),
            client_name: self.store.clients[i].name.clone(),
            redirect_uri: p.redirect_uri.clone(),
            scope: copy_opt(&p.scope),
            state: copy_opt(&p.state),
            code_challenge: copy_opt(&p.code_challenge),
            code_challenge_method: copy_opt(&p.code_challenge_method),
        })
    }

    /// Acts on the owner's decision: a denial, or a request that fails
    /// validation, redirects with an error; an approval stores a fresh code
    /// and redirects with it. `Internal` only when the fresh code collides
    /// with a pending one (`Store::insert_code`), and then nothing is
    /// stored; so an approval always succeeds while no code is pending.
    pub fn consent(&mut self, f: &ConsentForm, now: i64) -> (r: Result<Redirect, AppError>)
        requires
            old(self).wf(),
            0 <= now < MAX_TIMESTAMP,
        ensures
            final(self).wf(),
            final(self).tokens == old(self).tokens,
            final(self).store.users == old(self).store.users,
            final(self).store.clients == old(self).store.clients,
            final(self).store.access_tokens == old(self).store.access_tokens,
            final(self).store.refresh_tokens == old(self).store.refresh_tokens,
            match consent_decision(*old(self), *f) {
                Err((e, d)) => final(self).store == old(self).store && (r matches Ok(rd)
                    && rd.uri@ == f.redirect_uri@ && pairs_view(rd.params@) == error_pairs(e, d, opt_str(f.state))),
                Ok((_, scopes)) => (old(self).store.codes@.len() == 0 ==> r is Ok) && match r {
                    Err(e) => e == AppError::Internal && final(self).store == old(self).store,
                    Ok(rd) => {
                        let c = final(self).store.codes@.last();
                        &&& final(self).store.codes@ == old(self).store.codes@.push(c)
                        &&& !has_code(old(self).store.codes@, c.code@)
                        &&& minted_code(c, *f, scopes, now as int)
                        &&& rd.uri@ == f.redirect_uri@
                        &&& pairs_view(rd.params@) == code_pairs(c.code@, opt_str(f.state))
                    },
                },
            },
    {
        if !text_eq(f.approved.as_str(), "true") {
            return Ok(error_redirect(&f.redirect_uri, "access_denied", "User denied the authorization request", &f.state));
        }
        match self.check_request(f.client_id.as_str(), f.redirect_uri.as_str(), &f.code_challenge, &f.code_challenge_method) {
            Err((e, d)) => return Ok(error_redirect(&f.redirect_uri, e, d, &f.state)),
            Ok(_) => {},
        }
        let scopes = match ScopeSet::from_string(f.scope.as_str()) {
            Err(_) => return Ok(error_redirect(&f.redirect_uri, "invalid_scope", "Unknown scope", &f.state)),
            Ok(s) => s,
        };
        let code = generate_authorization_code();
        let mut params: Vec<(String, String)> = Vec::new();
        params.push(("code".to_owned(), code.clone()));
        match &f.state {
            Some(s) => params.push(("state".to_owned(), s.clone())),
            None => {},
        }
        let record = AuthorizationCode {
            code,
            client_id: f.client_id.clone(),
            user_id: f.user_id.clone(),
            redirect_uri: f.redirect_uri.clone(),
            scopes,
            expires_at: now + CODE_TTL_SECONDS,
            code_challenge: copy_opt(&f.code_challenge),
            code_challenge_method: copy_opt(&f.code_challenge_method),
            created_at: now,
        };
        let ghost fresh = record;
        match self.store.insert_code(record) {
            Ok(()) => {},
            Err(e) => return Err(e),
        }
        proof {
            reveal_strlit("code");
            reveal_strlit("state");
            assert(pairs_view(params@) =~= code_pairs(fresh.code@, opt_str(f.state)));
            assert(self.store.codes@.last() == fresh);
        }
        Ok(Redirect { uri: f.redirect_uri.clone(), params })
    }
}

} // verus!
