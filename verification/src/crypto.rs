//! Credential hashing over bcrypt: a slow, salted one-way hash and its
//! verification.

use vstd::prelude::*;

verus! {

/// Whether bcrypt verification of `password` against the stored hash text
/// `hash` succeeds. Verification is a function of the two texts alone: the
/// salt and cost it uses are embedded in the hash text itself.
pub uninterp spec fn bcrypt_matches(password: Seq<char>, hash: Seq<char>) -> bool;

/// Relies on bcrypt::hash with bcrypt::DEFAULT_COST: on success it returns a
/// 60-character hash text that bcrypt::verify accepts for the same password.
#[verifier::external_body]
pub fn hash_password(password: &str) -> (r: Result<String, String>)
    ensures
        r matches Ok(h) ==> bcrypt_matches(password@, h@),
        r matches Ok(h) ==> h@.len() == 60,
{
    match bcrypt::hash(password, bcrypt::DEFAULT_COST) {
        Ok(h) => Ok(h),
        Err(e) => Err(format!("{}", e)),
    }
}

/// Relies on bcrypt::verify: it returns Ok(true) exactly when the password
/// matches the hash text. A verification error (a malformed hash text, which
/// this library never stores) counts as a mismatch.
#[verifier::external_body]
pub fn verify_password(password: &str, hash: &str) -> (r: bool)
    ensures
        r == bcrypt_matches(password@, hash@),
{
    bcrypt::verify(password, hash).unwrap_or(false)
}

} // verus!
