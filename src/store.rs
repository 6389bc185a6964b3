//! The records the server keeps: registered clients, pending authorization
//! codes, and the access- and refresh-token records that revocation flips.
//! Each operation here is a single-row insert, lookup, delete or flag
//! update; the server holds the store behind `&mut`, so every grant applies
//! its reads and writes as one atomic step.
use vstd::prelude::*;
use crate::scopes::{text_eq, ScopeSet};
use crate::error::AppError;

verus! {

pub open spec fn opt_str(o: Option<String>) -> Option<Seq<char>> {
    match o {
        Some(s) => Some(s@),
        None => None,
    }
}

/// A registered client. Immutable once registered.
#[derive(Debug)]
pub struct OAuthClient {
    pub client_id: String,
    /// Argon2 digest of the client secret; empty for public clients.
    pub client_secret_hash: String,
    pub name: String,
    /// Absolute redirect URIs, matched exactly.
    pub redirect_uris: Vec<String>,
    pub grant_types: Vec<String>,
    /// The scopes the client may be granted.
    pub scopes: ScopeSet,
    pub is_public: bool,
}

/// A resource owner who can sign in with a password.
#[derive(Debug)]
pub struct UserAccount {
    pub id: String,
    /// The sign-in name.
    pub email: String,
    /// Argon2 digest of the password.
    pub password_hash: String,
}

/// A one-time code issued at consent, bound to user, client, redirect URI,
/// scopes and an optional PKCE challenge.
#[derive(Debug)]
pub struct AuthorizationCode {
    pub code: String,
    pub client_id: String,
    pub user_id: String,
    pub redirect_uri: String,
    pub scopes: ScopeSet,
    pub expires_at: i64,
    pub code_challenge: Option<String>,
    pub code_challenge_method: Option<String>,
    pub created_at: i64,
}

/// The stored record of an issued access or refresh token, keyed by the
/// digest of its id. Never deleted; revocation sets `revoked`.
#[derive(Debug)]
pub struct TokenRecord {
    pub token_hash: String,
    pub client_id: String,
    /// Absent for client-credentials tokens.
    pub user_id: Option<String>,
    pub scopes: ScopeSet,
    pub expires_at: i64,
    pub created_at: i64,
    pub revoked: bool,
}

pub open spec fn revoked_copy(r: TokenRecord) -> TokenRecord {
    TokenRecord { revoked: true, ..r }
}

/// No two records share a digest.
pub open spec fn hashes_unique(recs: Seq<TokenRecord>) -> bool {
    forall|i: int, j: int|
        0 <= i < recs.len() && 0 <= j < recs.len() && i != j
            ==> #[trigger] recs[i].token_hash@ != #[trigger] recs[j].token_hash@
}

pub open spec fn has_hash(recs: Seq<TokenRecord>, h: Seq<char>) -> bool {
    exists|i: int| 0 <= i < recs.len() && (#[trigger] recs[i]).token_hash@ == h
}

/// The record with digest `h`, if there is one and it is not revoked.
pub open spec fn find_active(recs: Seq<TokenRecord>, h: Seq<char>) -> Option<int> {
    if exists|i: int| 0 <= i < recs.len() && (#[trigger] recs[i]).token_hash@ == h && !recs[i].revoked {
        Some(choose|i: int| 0 <= i < recs.len() && (#[trigger] recs[i]).token_hash@ == h && !recs[i].revoked)
    } else {
        None
    }
}

/// The record with digest `h`, revoked or not.
pub open spec fn find_hash(recs: Seq<TokenRecord>, h: Seq<char>) -> Option<int> {
    if exists|i: int| 0 <= i < recs.len() && (#[trigger] recs[i]).token_hash@ == h {
        Some(choose|i: int| 0 <= i < recs.len() && (#[trigger] recs[i]).token_hash@ == h)
    } else {
        None
    }
}

/// `new` differs from `old` at most in revocation flags.
pub open spec fn same_keys(old: Seq<TokenRecord>, new: Seq<TokenRecord>) -> bool {
    &&& new.len() == old.len()
    &&& forall|i: int| 0 <= i < new.len() ==> (#[trigger] new[i]).token_hash@ == old[i].token_hash@
}

/// Changing only revocation flags keeps digests unique and present.
pub proof fn lemma_same_keys(old: Seq<TokenRecord>, new: Seq<TokenRecord>)
    requires
        same_keys(old, new),
    ensures
        hashes_unique(old) ==> hashes_unique(new),
        forall|h: Seq<char>| #[trigger] has_hash(new, h) == has_hash(old, h),
{
    assert forall|h: Seq<char>| #[trigger] has_hash(new, h) == has_hash(old, h) by {
        if has_hash(old, h) {
            let i = choose|i: int| 0 <= i < old.len() && (#[trigger] old[i]).token_hash@ == h;
            assert(new[i].token_hash@ == h);
        }
        if has_hash(new, h) {
            let i = choose|i: int| 0 <= i < new.len() && (#[trigger] new[i]).token_hash@ == h;
            assert(old[i].token_hash@ == h);
        }
    }
    if hashes_unique(old) {
        assert forall|i: int, j: int| 0 <= i < new.len() && 0 <= j < new.len() && i != j implies #[trigger] new[i].token_hash@ != #[trigger] new[j].token_hash@ by {
            assert(old[i].token_hash@ != old[j].token_hash@);
        }
    }
}

/// Every record with digest `h` flagged revoked.
pub open spec fn revoke_where_hash(recs: Seq<TokenRecord>, h: Seq<char>) -> Seq<TokenRecord> {
    Seq::new(recs.len(), |i: int| if recs[i].token_hash@ == h { revoked_copy(recs[i]) } else { recs[i] })
}

/// Every record of the pair (client, user) flagged revoked.
pub open spec fn revoke_where_owner(recs: Seq<TokenRecord>, client: Seq<char>, user: Option<Seq<char>>) -> Seq<TokenRecord> {
    Seq::new(
        recs.len(),
        |i: int|
            if recs[i].client_id@ == client && opt_str(recs[i].user_id) == user {
                revoked_copy(recs[i])
            } else {
                recs[i]
            },
    )
}

/// The user who signs in as `email`.
pub open spec fn find_user(us: Seq<UserAccount>, email: Seq<char>) -> Option<int> {
    if exists|i: int| 0 <= i < us.len() && (#[trigger] us[i]).email@ == email {
        Some(choose|i: int| 0 <= i < us.len() && (#[trigger] us[i]).email@ == email)
    } else {
        None
    }
}

pub open spec fn find_client(cs: Seq<OAuthClient>, id: Seq<char>) -> Option<int> {
    if exists|i: int| 0 <= i < cs.len() && (#[trigger] cs[i]).client_id@ == id {
        Some(choose|i: int| 0 <= i < cs.len() && (#[trigger] cs[i]).client_id@ == id)
    } else {
        None
    }
}

/// The pending code `code` issued to client `client`.
pub open spec fn find_code(cs: Seq<AuthorizationCode>, code: Seq<char>, client: Seq<char>) -> Option<int> {
    if exists|i: int| 0 <= i < cs.len() && (#[trigger] cs[i]).code@ == code && cs[i].client_id@ == client {
        Some(choose|i: int| 0 <= i < cs.len() && (#[trigger] cs[i]).code@ == code && cs[i].client_id@ == client)
    } else {
        None
    }
}

pub open spec fn has_code(cs: Seq<AuthorizationCode>, code: Seq<char>) -> bool {
    exists|i: int| 0 <= i < cs.len() && (#[trigger] cs[i]).code@ == code
}

/// All the server's records.
#[derive(Debug)]
pub struct Store {
    pub users: Vec<UserAccount>,
    pub clients: Vec<OAuthClient>,
    pub codes: Vec<AuthorizationCode>,
    pub access_tokens: Vec<TokenRecord>,
    pub refresh_tokens: Vec<TokenRecord>,
}

impl Store {
    /// Keys are unique: user emails and ids, client ids, codes, and token
    /// digests in each table.
    pub open spec fn wf(&self) -> bool {
        &&& forall|i: int, j: int|
            0 <= i < self.users@.len() && 0 <= j < self.users@.len() && i != j
                ==> #[trigger] self.users@[i].email@ != #[trigger] self.users@[j].email@
        &&& forall|i: int, j: int|
            0 <= i < self.users@.len() && 0 <= j < self.users@.len() && i != j
                ==> #[trigger] self.users@[i].id@ != #[trigger] self.users@[j].id@
        &&& forall|i: int, j: int|
            0 <= i < self.clients@.len() && 0 <= j < self.clients@.len() && i != j
                ==> #[trigger] self.clients@[i].client_id@ != #[trigger] self.clients@[j].client_id@
        &&& forall|i: int, j: int|
            0 <= i < self.codes@.len() && 0 <= j < self.codes@.len() && i != j
                ==> #[trigger] self.codes@[i].code@ != #[trigger] self.codes@[j].code@
        &&& hashes_unique(self.access_tokens@)
        &&& hashes_unique(self.refresh_tokens@)
    }

    pub fn new() -> (r: Self)
        ensures
            r.wf(),
            r.users@.len() == 0,
            r.clients@.len() == 0,
            r.codes@.len() == 0,
            r.access_tokens@.len() == 0,
            r.refresh_tokens@.len() == 0,
    {
        Store { users: Vec::new(), clients: Vec::new(), codes: Vec::new(), access_tokens: Vec::new(), refresh_tokens: Vec::new() }
    }

    pub fn find_client_index(&self, client_id: &str) -> (r: Option<usize>)
        requires
            self.wf(),
        ensures
            match r {
                Some(i) => find_client(self.clients@, client_id@) == Some(i as int),
                None => find_client(self.clients@, client_id@) is None,
            },
    {
        for i in 0..self.clients.len()
            invariant
                self.wf(),
                forall|j: int| 0 <= j < i ==> (#[trigger] self.clients@[j]).client_id@ != client_id@,
        {
            if text_eq(self.clients[i].client_id.as_str(), client_id) {
                assert(self.clients@[i as int].client_id@ == client_id@);
                let ghost w = choose|k: int| 0 <= k < self.clients@.len() && (#[trigger] self.clients@[k]).client_id@ == client_id@;
                assert(self.clients@[w].client_id@ == client_id@);
                assert(w == i);
                return Some(i);
            }
        }
        None
    }

    pub fn find_user_index(&self, email: &str) -> (r: Option<usize>)
        requires
            self.wf(),
        ensures
            match r {
                Some(i) => find_user(self.users@, email@) == Some(i as int),
                None => find_user(self.users@, email@) is None,
            },
    {
        for i in 0..self.users.len()
            invariant
                self.wf(),
                forall|j: int| 0 <= j < i ==> (#[trigger] self.users@[j]).email@ != email@,
        {
            if text_eq(self.users[i].email.as_str(), email) {
                assert(self.users@[i as int].email@ == email@);
                let ghost w = choose|k: int| 0 <= k < self.users@.len() && (#[trigger] self.users@[k]).email@ == email@;
                assert(self.users@[w].email@ == email@);
                assert(w == i);
                return Some(i);
            }
        }
        None
    }

    pub fn user_id_taken(&self, id: &str) -> (r: bool)
        ensures
            r == exists|i: int| 0 <= i < self.users@.len() && (#[trigger] self.users@[i]).id@ == id@,
    {
        for i in 0..self.users.len()
            invariant
                forall|j: int| 0 <= j < i ==> (#[trigger] self.users@[j]).id@ != id@,
        {
            if text_eq(self.users[i].id.as_str(), id) {
                return true;
            }
        }
        false
    }

    pub fn find_code_index(&self, code: &str, client_id: &str) -> (r: Option<usize>)
        requires
            self.wf(),
        ensures
            match r {
                Some(i) => find_code(self.codes@, code@, client_id@) == Some(i as int),
                None => find_code(self.codes@, code@, client_id@) is None,
            },
    {
        for i in 0..self.codes.len()
            invariant
                self.wf(),
                forall|j: int| 0 <= j < i ==> !((#[trigger] self.codes@[j]).code@ == code@ && self.codes@[j].client_id@ == client_id@),
        {
            if text_eq(self.codes[i].code.as_str(), code) && text_eq(self.codes[i].client_id.as_str(), client_id) {
                assert(self.codes@[i as int].code@ == code@);
                let ghost w = choose|k: int| 0 <= k < self.codes@.len() && (#[trigger] self.codes@[k]).code@ == code@ && self.codes@[k].client_id@ == client_id@;
                assert(self.codes@[w].code@ == code@);
                assert(w == i);
                return Some(i);
            }
        }
        None
    }

    pub fn code_exists(&self, code: &str) -> (r: bool)
        ensures
            r == has_code(self.codes@, code@),
    {
        for i in 0..self.codes.len()
            invariant
                forall|j: int| 0 <= j < i ==> (#[trigger] self.codes@[j]).code@ != code@,
        {
            if text_eq(self.codes[i].code.as_str(), code) {
                return true;
            }
        }
        false
    }
}

pub fn contains_hash(recs: &Vec<TokenRecord>, h: &str) -> (r: bool)
    ensures
        r == has_hash(recs@, h@),
{
    for i in 0..recs.len()
        invariant
            forall|j: int| 0 <= j < i ==> (#[trigger] recs@[j]).token_hash@ != h@,
    {
        if text_eq(recs[i].token_hash.as_str(), h) {
            return true;
        }
    }
    false
}

pub fn find_active_index(recs: &Vec<TokenRecord>, h: &str) -> (r: Option<usize>)
    requires
        hashes_unique(recs@),
    ensures
        match r {
            Some(i) => find_active(recs@, h@) == Some(i as int),
            None => find_active(recs@, h@) is None,
        },
{
    for i in 0..recs.len()
        invariant
            hashes_unique(recs@),
            forall|j: int| 0 <= j < i ==> (#[trigger] recs@[j]).token_hash@ != h@,
    {
        if text_eq(recs[i].token_hash.as_str(), h) {
            if recs[i].revoked {
                assert forall|k: int| 0 <= k < recs@.len() && (#[trigger] recs@[k]).token_hash@ == h@ implies recs@[k].revoked by {
                    if k != i {
                        assert(recs@[k].token_hash@ != recs@[i as int].token_hash@);
                    }
                }
                return None;
            }
            assert(recs@[i as int].token_hash@ == h@);
            let ghost w = choose|k: int| 0 <= k < recs@.len() && (#[trigger] recs@[k]).token_hash@ == h@ && !recs@[k].revoked;
            assert(recs@[w].token_hash@ == h@);
            assert(w == i);
            return Some(i);
        }
    }
    None
}

pub fn find_hash_index(recs: &Vec<TokenRecord>, h: &str) -> (r: Option<usize>)
    requires
        hashes_unique(recs@),
    ensures
        match r {
            Some(i) => find_hash(recs@, h@) == Some(i as int),
            None => find_hash(recs@, h@) is None,
        },
{
    for i in 0..recs.len()
        invariant
            hashes_unique(recs@),
            forall|j: int| 0 <= j < i ==> (#[trigger] recs@[j]).token_hash@ != h@,
    {
        if text_eq(recs[i].token_hash.as_str(), h) {
            assert(recs@[i as int].token_hash@ == h@);
            let ghost w = choose|k: int| 0 <= k < recs@.len() && (#[trigger] recs@[k]).token_hash@ == h@;
            assert(recs@[w].token_hash@ == h@);
            assert(w == i);
            return Some(i);
        }
    }
    None
}

/// Flags record `i` revoked.
pub(crate) fn revoke_at(recs: &mut Vec<TokenRecord>, i: usize)
    requires
        i < old(recs)@.len(),
    ensures
        final(recs)@ == old(recs)@.update(i as int, revoked_copy(old(recs)@[i as int])),
{
    let mut rec = recs.remove(i);
    rec.revoked = true;
    recs.insert(i, rec);
    assert(final(recs)@ =~= old(recs)@.update(i as int, revoked_copy(old(recs)@[i as int])));
}

/// Flags every record with digest `h` revoked; tells whether there was one.
pub fn revoke_by_hash(recs: &mut Vec<TokenRecord>, h: &str) -> (found: bool)
    ensures
        final(recs)@ == revoke_where_hash(old(recs)@, h@),
        found == has_hash(old(recs)@, h@),
{
    let mut found = false;
    let n = recs.len();
    for i in 0..n
        invariant
            n == old(recs)@.len(),
            recs@.len() == old(recs)@.len(),
            forall|j: int| 0 <= j < i ==> #[trigger] recs@[j] == revoke_where_hash(old(recs)@, h@)[j],
            forall|j: int| i <= j < recs@.len() ==> #[trigger] recs@[j] == old(recs)@[j],
            found == (exists|j: int| 0 <= j < i && (#[trigger] old(recs)@[j]).token_hash@ == h@),
    {
        if text_eq(recs[i].token_hash.as_str(), h) {
            revoke_at(recs, i);
            found = true;
        }
    }
    assert(recs@ =~= revoke_where_hash(old(recs)@, h@));
    found
}

fn same_user(a: &Option<String>, b: &Option<String>) -> (r: bool)
    ensures
        r == (opt_str(*a) == opt_str(*b)),
{
    match (a, b) {
        (Some(x), Some(y)) => text_eq(x.as_str(), y.as_str()),
        (None, None) => true,
        _ => false,
    }
}

/// Flags every record of the pair (client, user) revoked.
pub fn revoke_by_owner(recs: &mut Vec<TokenRecord>, client_id: &str, user_id: &Option<String>)
    ensures
        final(recs)@ == revoke_where_owner(old(recs)@, client_id@, opt_str(*user_id)),
{
    let n = recs.len();
    for i in 0..n
        invariant
            n == old(recs)@.len(),
            recs@.len() == old(recs)@.len(),
            forall|j: int| 0 <= j < i ==> #[trigger] recs@[j] == revoke_where_owner(old(recs)@, client_id@, opt_str(*user_id))[j],
            forall|j: int| i <= j < recs@.len() ==> #[trigger] recs@[j] == old(recs)@[j],
    {
        if text_eq(recs[i].client_id.as_str(), client_id) && same_user(&recs[i].user_id, user_id) {
            revoke_at(recs, i);
        }
    }
    assert(recs@ =~= revoke_where_owner(old(recs)@, client_id@, opt_str(*user_id)));
}

proof fn lemma_push_fresh_hash(recs: Seq<TokenRecord>, rec: TokenRecord)
    requires
        hashes_unique(recs),
        !has_hash(recs, rec.token_hash@),
    ensures
        hashes_unique(recs.push(rec)),
{
    let n = recs.push(rec);
    assert forall|i: int, j: int| 0 <= i < n.len() && 0 <= j < n.len() && i != j implies #[trigger] n[i].token_hash@ != #[trigger] n[j].token_hash@ by {
        if i == recs.len() {
            assert(recs[j] == n[j]);
        } else if j == recs.len() {
            assert(recs[i] == n[i]);
        } else {
            assert(recs[i] == n[i] && recs[j] == n[j]);
        }
    }
}

impl Store {
    /// Stores a freshly issued access record; refused, with nothing stored,
    /// exactly when its digest is already taken.
    pub fn insert_access(&mut self, access: TokenRecord) -> (r: Result<(), AppError>)
        requires
            old(self).wf(),
        ensures
            final(self).wf(),
            r is Err <==> has_hash(old(self).access_tokens@, access.token_hash@),
            r matches Err(e) ==> e == AppError::Internal && *final(self) == *old(self),
            r is Ok ==> final(self).access_tokens@ == old(self).access_tokens@.push(access)
                && final(self).refresh_tokens == old(self).refresh_tokens
                && final(self).codes == old(self).codes && final(self).clients == old(self).clients
                && final(self).users == old(self).users,
    {
        if contains_hash(&self.access_tokens, access.token_hash.as_str()) {
            return Err(AppError::Internal);
        }
        proof {
            lemma_push_fresh_hash(self.access_tokens@, access);
        }
        self.access_tokens.push(access);
        Ok(())
    }

    /// Stores a freshly issued access and refresh record together; refused,
    /// with nothing stored, exactly when either digest is already taken in
    /// its table.
    pub fn insert_token_pair(&mut self, access: TokenRecord, refresh: TokenRecord) -> (r: Result<(), AppError>)
        requires
            old(self).wf(),
        ensures
            final(self).wf(),
            r is Err <==> has_hash(old(self).access_tokens@, access.token_hash@)
                || has_hash(old(self).refresh_tokens@, refresh.token_hash@),
            r matches Err(e) ==> e == AppError::Internal && *final(self) == *old(self),
            r is Ok ==> final(self).access_tokens@ == old(self).access_tokens@.push(access)
                && final(self).refresh_tokens@ == old(self).refresh_tokens@.push(refresh)
                && final(self).codes == old(self).codes && final(self).clients == old(self).clients
                && final(self).users == old(self).users,
    {
        if contains_hash(&self.access_tokens, access.token_hash.as_str())
            || contains_hash(&self.refresh_tokens, refresh.token_hash.as_str()) {
            return Err(AppError::Internal);
        }
        proof {
            lemma_push_fresh_hash(self.access_tokens@, access);
            lemma_push_fresh_hash(self.refresh_tokens@, refresh);
        }
        self.access_tokens.push(access);
        self.refresh_tokens.push(refresh);
        Ok(())
    }

    /// Stores a pending code; refused, with nothing stored, exactly when the
    /// code is already pending.
    pub fn insert_code(&mut self, code: AuthorizationCode) -> (r: Result<(), AppError>)
        requires
            old(self).wf(),
        ensures
            final(self).wf(),
            r is Err <==> has_code(old(self).codes@, code.code@),
            r matches Err(e) ==> e == AppError::Internal && *final(self) == *old(self),
            r is Ok ==> final(self).codes@ == old(self).codes@.push(code)
                && final(self).access_tokens == old(self).access_tokens
                && final(self).refresh_tokens == old(self).refresh_tokens
                && final(self).clients == old(self).clients && final(self).users == old(self).users,
    {
        if self.code_exists(code.code.as_str()) {
            return Err(AppError::Internal);
        }
        let ghost fresh = code;
        self.codes.push(code);
        proof {
            let n = self.codes@;
            let o = old(self).codes@;
            assert(n.last() == fresh);
            assert forall|i: int, j: int| 0 <= i < n.len() && 0 <= j < n.len() && i != j implies #[trigger] n[i].code@ != #[trigger] n[j].code@ by {
                if i == o.len() {
                    assert(n[j] == o[j]);
                } else if j == o.len() {
                    assert(n[i] == o[i]);
                } else {
                    assert(n[i] == o[i] && n[j] == o[j]);
                }
            }
        }
        Ok(())
    }

    /// Registers a client; refused, with nothing stored, exactly when its
    /// id is already taken.
    pub fn insert_client(&mut self, client: OAuthClient) -> (r: Result<(), AppError>)
        requires
            old(self).wf(),
        ensures
            final(self).wf(),
            r is Err <==> find_client(old(self).clients@, client.client_id@) is Some,
            r matches Err(e) ==> e == AppError::Internal && *final(self) == *old(self),
            r is Ok ==> final(self).clients@ == old(self).clients@.push(client)
                && final(self).codes == old(self).codes
                && final(self).access_tokens == old(self).access_tokens
                && final(self).refresh_tokens == old(self).refresh_tokens && final(self).users == old(self).users,
    {
        if self.find_client_index(client.client_id.as_str()).is_some() {
            return Err(AppError::Internal);
        }
        let ghost fresh = client;
        self.clients.push(client);
        proof {
            let n = self.clients@;
            let o = old(self).clients@;
            assert(n.last() == fresh);
            assert forall|i: int, j: int| 0 <= i < n.len() && 0 <= j < n.len() && i != j implies #[trigger] n[i].client_id@ != #[trigger] n[j].client_id@ by {
                if i == o.len() {
                    assert(n[j] == o[j]);
                } else if j == o.len() {
                    assert(n[i] == o[i]);
                } else {
                    assert(n[i] == o[i] && n[j] == o[j]);
                }
            }
        }
        Ok(())
    }

    /// Registers a user whose email is free; refused, with nothing stored,
    /// exactly when the user's id is already taken.
    pub fn insert_user(&mut self, user: UserAccount) -> (r: Result<(), AppError>)
        requires
            old(self).wf(),
            find_user(old(self).users@, user.email@) is None,
        ensures
            final(self).wf(),
            r is Err <==> exists|i: int| 0 <= i < old(self).users@.len() && (#[trigger] old(self).users@[i]).id@ == user.id@,
            r matches Err(e) ==> e == AppError::Internal && *final(self) == *old(self),
            r is Ok ==> final(self).users@ == old(self).users@.push(user)
                && final(self).codes == old(self).codes && final(self).clients == old(self).clients
                && final(self).access_tokens == old(self).access_tokens
                && final(self).refresh_tokens == old(self).refresh_tokens,
    {
        if self.user_id_taken(user.id.as_str()) {
            return Err(AppError::Internal);
        }
        let ghost fresh = user;
        self.users.push(user);
        proof {
            let n = self.users@;
            let o = old(self).users@;
            assert(n.last() == fresh);
            assert(!(exists|i: int| 0 <= i < o.len() && (#[trigger] o[i]).email@ == fresh.email@));
            assert forall|i: int, j: int| 0 <= i < n.len() && 0 <= j < n.len() && i != j implies #[trigger] n[i].email@ != #[trigger] n[j].email@ by {
                if i == o.len() {
                    assert(n[j] == o[j]);
                } else if j == o.len() {
                    assert(n[i] == o[i]);
                } else {
                    assert(n[i] == o[i] && n[j] == o[j]);
                }
            }
            assert forall|i: int, j: int| 0 <= i < n.len() && 0 <= j < n.len() && i != j implies #[trigger] n[i].id@ != #[trigger] n[j].id@ by {
                if i == o.len() {
                    assert(n[j] == o[j]);
                } else if j == o.len() {
                    assert(n[i] == o[i]);
                } else {
                    assert(n[i] == o[i] && n[j] == o[j]);
                }
            }
        }
        Ok(())
    }
}

} // verus!
