//! Smaller shared vocabulary: cleaning frequencies, the legacy scope
//! whitelist, and the OAuth error body.
use vstd::prelude::*;
use crate::error::{error_code, AppError};
use crate::scopes::{split_words, string_views, text_eq, words};

verus! {

/// How often a zone is due for cleaning.
#[derive(Clone, Copy, Debug, PartialEq, Eq, Structural)]
pub enum Frequency {
    Daily,
    Weekly,
    Monthly,
    Custom,
}

pub open spec fn frequency_name(f: Frequency) -> Seq<char> {
    match f {
        Frequency::Daily => "daily"@,
        Frequency::Weekly => "weekly"@,
        Frequency::Monthly => "monthly"@,
        Frequency::Custom => "custom"@,
    }
}

pub open spec fn frequency_from_name(s: Seq<char>) -> Option<Frequency> {
    if s == "daily"@ {
        Some(Frequency::Daily)
    } else if s == "weekly"@ {
        Some(Frequency::Weekly)
    } else if s == "monthly"@ {
        Some(Frequency::Monthly)
    } else if s == "custom"@ {
        Some(Frequency::Custom)
    } else {
        None
    }
}

impl Frequency {
    pub fn as_str(&self) -> (r: &'static str)
        ensures
            r@ == frequency_name(*self),
    {
        match self {
            Frequency::Daily => "daily",
            Frequency::Weekly => "weekly",
            Frequency::Monthly => "monthly",
            Frequency::Custom => "custom",
        }
    }

    pub fn from_str(s: &str) -> (r: Option<Frequency>)
        ensures
            r == frequency_from_name(s@),
    {
        if text_eq(s, "daily") {
            Some(Frequency::Daily)
        } else if text_eq(s, "weekly") {
            Some(Frequency::Weekly)
        } else if text_eq(s, "monthly") {
            Some(Frequency::Monthly)
        } else if text_eq(s, "custom") {
            Some(Frequency::Custom)
        } else {
            None
        }
    }
}

pub open spec fn allowed_scope_names() -> Seq<Seq<char>> {
    seq!["openid"@, "profile"@, "email"@, "offline_access"@]
}

/// The scopes the legacy password/refresh token endpoint accepts.
pub fn get_allowed_scopes() -> (r: Vec<&'static str>)
    ensures
        r@.len() == 4,
        forall|i: int| 0 <= i < 4 ==> (#[trigger] r@[i])@ == allowed_scope_names()[i],
{
    vec!["openid", "profile", "email", "offline_access"]
}

pub open spec fn opt_text(o: Option<&str>) -> Option<Seq<char>> {
    match o {
        Some(s) => Some(s@),
        None => None,
    }
}

/// Whether `w` is one of `allowed`.
pub open spec fn is_allowed(allowed: Seq<&str>, w: Seq<char>) -> bool {
    exists|j: int| 0 <= j < allowed.len() && (#[trigger] allowed[j])@ == w
}

/// Every word is allowed.
pub open spec fn all_allowed(ws: Seq<Seq<char>>, allowed: Seq<&str>) -> bool {
    forall|i: int| 0 <= i < ws.len() ==> is_allowed(allowed, #[trigger] ws[i])
}

/// Every word of the request (if there is one) is allowed.
pub open spec fn scope_request_allowed(requested: Option<Seq<char>>, allowed: Seq<&str>) -> bool {
    match requested {
        None => true,
        Some(t) => all_allowed(words(t), allowed),
    }
}

/// Whether every whitespace-separated word of the requested scope is one
/// of `allowed`; no request at all is accepted.
pub fn validate_scope(requested_scope: Option<&str>, allowed_scopes: &[&str]) -> (r: bool)
    ensures
        r == scope_request_allowed(opt_text(requested_scope), allowed_scopes@),
{
    let s = match requested_scope {
        None => return true,
        Some(s) => s,
    };
    let ghost t = s@;
    let ws = split_words(s);
    for i in 0..ws.len()
        invariant
            opt_text(requested_scope) == Some(t),
            string_views(ws@) == words(t),
            forall|k: int| 0 <= k < i ==> is_allowed(allowed_scopes@, #[trigger] words(t)[k]),
            ws@.len() == words(t).len(),
    {
        let ghost w = ws@[i as int]@;
        assert(w == words(t)[i as int]);
        let mut found = false;
        for j in 0..allowed_scopes.len()
            invariant
                opt_text(requested_scope) == Some(t),
                string_views(ws@) == words(t),
                i < ws@.len(),
                w == ws@[i as int]@,
                found ==> is_allowed(allowed_scopes@, w),
                !found ==> forall|j2: int| 0 <= j2 < j ==> (#[trigger] allowed_scopes@[j2])@ != w,
        {
            if text_eq(allowed_scopes[j], ws[i].as_str()) {
                found = true;
            }
        }
        if !found {
            assert(string_views(ws@).len() == ws@.len());
            assert(!is_allowed(allowed_scopes@, words(t)[i as int]));
            let ghost wt = words(t);
            assert(!is_allowed(allowed_scopes@, wt[i as int]));
            assert(!all_allowed(wt, allowed_scopes@));
            return false;
        }
    }
    assert(all_allowed(words(t), allowed_scopes@));
    true
}

/// The JSON error body of the token endpoint.
#[derive(Debug)]
pub struct TokenErrorResponse {
    pub error: String,
    pub error_description: Option<String>,
    pub error_uri: Option<String>,
}

impl TokenErrorResponse {
    pub fn from_error(e: &AppError) -> (r: Self)
        ensures
            r.error@ == error_code(*e),
            r.error_description is None,
            r.error_uri is None,
    {
        TokenErrorResponse { error: e.code().to_owned(), error_description: None, error_uri: None }
    }
}

} // verus!
