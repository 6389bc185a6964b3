//! Client registration: an administrative action that creates a client
//! record once, with a fresh id and (for confidential clients) a fresh
//! secret whose digest alone is kept.
use vstd::prelude::*;
use crate::error::AppError;
use crate::password::{argon2_verdict, hash_password};
use crate::scopes::{all_known, scopes_named, Scope, ScopeSet};
use crate::server::AuthServer;
use crate::store::{find_client, OAuthClient};
use crate::tokens::{generate_client_secret, is_alphanumeric_text};

verus! {

/// A registration request.
#[derive(Debug)]
pub struct CreateClientRequest {
    pub name: String,
    pub redirect_uris: Vec<String>,
    pub grant_types: Vec<String>,
    pub scopes: Vec<String>,
    pub is_public: Option<bool>,
}

/// What registration hands back, once: the id and the plain secret (empty
/// for public clients).
#[derive(Debug)]
pub struct OAuthClientCredentials {
    pub client_id: String,
    pub client_secret: String,
    pub name: String,
    pub redirect_uris: Vec<String>,
    pub grant_types: Vec<String>,
    pub scopes: Vec<String>,
    pub is_public: bool,
}

pub open spec fn texts(v: Seq<String>) -> Seq<Seq<char>> {
    v.map_values(|s: String| s@)
}

/// Relies on uuid's `Uuid::new_v4` rendered by `to_string`: a random
/// version-4 UUID in hyphenated form, which is 36 characters long.
#[verifier::external_body]
pub(crate) fn new_uuid() -> (r: String)
    ensures
        r@.len() == 36,
{
    uuid::Uuid::new_v4().to_string()
}

fn copy_texts(v: &Vec<String>) -> (r: Vec<String>)
    ensures
        texts(r@) == texts(v@),
{
    let mut r: Vec<String> = Vec::new();
    for i in 0..v.len()
        invariant
            r@.len() == i,
            forall|j: int| 0 <= j < i ==> (#[trigger] r@[j])@ == v@[j]@,
    {
        r.push(v[i].clone());
    }
    assert(texts(r@) =~= texts(v@));
    r
}

/// Parses each scope name; the first unknown one fails the whole list.
fn parse_scope_list(names: &Vec<String>) -> (r: Option<ScopeSet>)
    ensures
        r is Some <==> all_known(texts(names@)),
        r matches Some(s) ==> s@ == scopes_named(texts(names@)),
{
    let ghost ws = texts(names@);
    let mut set = ScopeSet::new();
    for i in 0..names.len()
        invariant
            ws == texts(names@),
            forall|j: int| 0 <= j < i ==> (#[trigger] crate::scopes::scope_from_name(ws[j])) is Some,
            set@ == scopes_named(ws.take(i as int)),
    {
        match Scope::from_str(names[i].as_str()) {
            Err(_) => {
                assert(crate::scopes::scope_from_name(ws[i as int]) is None);
                return None;
            },
            Ok(sc) => {
                set.insert(sc);
                proof {
                    let pre = ws.take(i as int);
                    let nd = ws.take(i as int + 1);
                    assert forall|x: Scope| #[trigger] set@.contains(x) == scopes_named(nd).contains(x) by {
                        if x == sc {
                            assert(crate::scopes::scope_from_name(nd[i as int]) == Some(x));
                        }
                        if scopes_named(nd).contains(x) {
                            let k = choose|k: int| 0 <= k < nd.len() && crate::scopes::scope_from_name(nd[k]) == Some(x);
                            if k < i {
                                assert(nd[k] == pre[k]);
                                assert(scopes_named(pre).contains(x));
                            }
                        }
                        if scopes_named(pre).contains(x) {
                            let k = choose|k: int| 0 <= k < pre.len() && crate::scopes::scope_from_name(pre[k]) == Some(x);
                            assert(nd[k] == pre[k]);
                        }
                    }
                    assert(set@ =~= scopes_named(nd));
                }
            },
        }
    }
    assert(ws.take(names.len() as int) =~= ws);
    Some(set)
}

impl AuthServer {
    /// Registers a client. Unknown scope names are refused with
    /// `invalid_scope`; `Internal` when hashing the secret fails or the
    /// fresh id is taken (`Store::insert_client`), and then nothing is
    /// stored. A public client is always registered while no client is. A
    /// confidential client's secret verifies against its stored digest.
    pub fn create_client(&mut self, req: CreateClientRequest) -> (r: Result<OAuthClientCredentials, AppError>)
        requires
            old(self).wf(),
        ensures
            final(self).wf(),
            final(self).tokens == old(self).tokens,
            final(self).store.users == old(self).store.users,
            final(self).store.codes == old(self).store.codes,
            final(self).store.access_tokens == old(self).store.access_tokens,
            final(self).store.refresh_tokens == old(self).store.refresh_tokens,
            !all_known(texts(req.scopes@)) ==> r == Err::<OAuthClientCredentials, AppError>(AppError::InvalidScope),
            r is Err ==> final(self).store == old(self).store,
            all_known(texts(req.scopes@)) ==> (r is Err ==> r == Err::<OAuthClientCredentials, AppError>(AppError::Internal)),
            all_known(texts(req.scopes@)) && req.is_public == Some(true) && old(self).store.clients@.len() == 0 ==> r is Ok,
            r matches Ok(cred) ==> {
                let c = final(self).store.clients@.last();
                let public = match req.is_public { Some(b) => b, None => false };
                &&& final(self).store.clients@ == old(self).store.clients@.push(c)
                &&& find_client(old(self).store.clients@, c.client_id@) is None
                &&& c.client_id@ == cred.client_id@
                &&& c.client_id@.len() == 36
                &&& c.name@ == req.name@
                &&& texts(c.redirect_uris@) == texts(req.redirect_uris@)
                &&& texts(c.grant_types@) == texts(req.grant_types@)
                &&& c.scopes@ == scopes_named(texts(req.scopes@))
                &&& c.is_public == public
                &&& cred.is_public == public
                &&& (public ==> cred.client_secret@.len() == 0 && c.client_secret_hash@.len() == 0)
                &&& (!public ==> cred.client_secret@.len() == 64 && is_alphanumeric_text(cred.client_secret@))
                &&& (!public ==> argon2_verdict(cred.client_secret@, c.client_secret_hash@) == Some(true))
                &&& cred.name@ == req.name@
                &&& texts(cred.redirect_uris@) == texts(req.redirect_uris@)
                &&& texts(cred.grant_types@) == texts(req.grant_types@)
                &&& texts(cred.scopes@) == texts(req.scopes@)
            },
    {
        let scopes = match parse_scope_list(&req.scopes) {
            None => return Err(AppError::InvalidScope),
            Some(s) => s,
        };
        let is_public = match req.is_public {
            Some(b) => b,
            None => false,
        };
        let client_id = new_uuid();
        let (client_secret, client_secret_hash) = if is_public {
            (String::new(), String::new())
        } else {
            let secret = generate_client_secret();
            match hash_password(secret.as_str()) {
                Ok(h) => (secret, h),
                Err(_) => return Err(AppError::Internal),
            }
        };
        let cred = OAuthClientCredentials {
            client_id: client_id.clone(),
            client_secret,
            name: req.name.clone(),
            redirect_uris: copy_texts(&req.redirect_uris),
            grant_types: copy_texts(&req.grant_types),
            scopes: copy_texts(&req.scopes),
            is_public,
        };
        let client = OAuthClient {
            client_id,
            client_secret_hash,
            name: req.name,
            redirect_uris: req.redirect_uris,
            grant_types: req.grant_types,
            scopes,
            is_public,
        };
        let ghost fresh = client;
        match self.store.insert_client(client) {
            Ok(()) => {},
            Err(e) => return Err(e),
        }
        assert(self.store.clients@.last() == fresh);
        Ok(cred)
    }
}

} // verus!
