//! Secret digests: hashing client secrets and checking a presented secret
//! against a stored digest.
use vstd::prelude::*;

verus! {

/// The verdict of checking `password` against the PHC-format digest
/// `digest` under Argon2: `Some(true)` when it matches, `Some(false)` when
/// it does not, `None` when the digest cannot be parsed or checked.
pub uninterp spec fn argon2_verdict(password: Seq<char>, digest: Seq<char>) -> Option<bool>;

/// Why hashing or checking a secret failed.
#[derive(Debug)]
pub enum PasswordError {
    HashError(String),
    VerificationFailed,
}

pub type PasswordResult<T> = Result<T, PasswordError>;

/// Relies on argon2's `PasswordHash::new` (parsing the digest) and
/// `Argon2::default().verify_password`: the verdict depends on the secret
/// and the digest alone; a mismatch is `Error::Password`.
#[verifier::external_body]
fn argon2_check(password: &str, hash: &str) -> (r: PasswordResult<bool>)
    ensures
        r is Ok <==> argon2_verdict(password@, hash@) is Some,
        r matches Ok(b) ==> argon2_verdict(password@, hash@) == Some(b),
{
    let parsed = match argon2::PasswordHash::new(hash) {
        Ok(h) => h,
        Err(e) => return Err(PasswordError::HashError(e.to_string())),
    };
    match argon2::PasswordVerifier::verify_password(&argon2::Argon2::default(), password.as_bytes(), &parsed) {
        Ok(()) => Ok(true),
        Err(argon2::password_hash::Error::Password) => Ok(false),
        Err(e) => Err(PasswordError::HashError(e.to_string())),
    }
}

/// Relies on argon2's `Argon2::default().hash_password` with a salt from
/// `SaltString::generate(OsRng)`: the salt is random, but the PHC string
/// records salt and parameters, so checking the same password against it
/// (which recomputes the hash with them) succeeds.
#[verifier::external_body]
fn argon2_hash(password: &str) -> (r: PasswordResult<String>)
    ensures
        r matches Ok(h) ==> argon2_verdict(password@, h@) == Some(true),
{
    let salt = argon2::password_hash::SaltString::generate(&mut argon2::password_hash::rand_core::OsRng);
    match argon2::PasswordHasher::hash_password(&argon2::Argon2::default(), password.as_bytes(), &salt) {
        Ok(h) => Ok(h.to_string()),
        Err(e) => Err(PasswordError::HashError(e.to_string())),
    }
}

/// A salted Argon2 digest of `password` in PHC string format, against
/// which `password` verifies.
pub fn hash_password(password: &str) -> (r: PasswordResult<String>)
    ensures
        r matches Ok(h) ==> argon2_verdict(password@, h@) == Some(true),
        r matches Err(e) ==> e is HashError,
{
    match argon2_hash(password) {
        Ok(h) => Ok(h),
        Err(PasswordError::HashError(m)) => Err(PasswordError::HashError(m)),
        Err(PasswordError::VerificationFailed) => Err(PasswordError::HashError(String::new())),
    }
}

/// Whether `password` matches the stored digest `hash`.
pub fn verify_password(password: &str, hash: &str) -> (r: PasswordResult<bool>)
    ensures
        r is Ok <==> argon2_verdict(password@, hash@) is Some,
        r matches Ok(b) ==> argon2_verdict(password@, hash@) == Some(b),
{
    argon2_check(password, hash)
}

} // verus!
