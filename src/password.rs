use vstd::prelude::*;

verus! {

/// Whether `bcrypt::verify` accepts `password` against the stored hash `hash`.
pub uninterp spec fn password_matches(password: Seq<char>, hash: Seq<char>) -> bool;

/// Relies on `bcrypt::verify`: it rehashes `password` with the salt and cost
/// that `hash` carries and compares. A malformed hash counts as no match.
#[verifier::external_body]
pub(crate) fn verify_password(password: &str, hash: &str) -> (r: bool)
    ensures
        r == password_matches(password@, hash@),
{
    bcrypt::verify(password, hash).unwrap_or(false)
}

/// Relies on `bcrypt::hash`: a hash with a random salt, which
/// `bcrypt::verify` accepts for the same password; `None` when the cost is
/// out of range or the system has no randomness to give.
#[verifier::external_body]
pub(crate) fn hash_password(password: &str, cost: u32) -> (r: Option<String>)
    ensures
        r matches Some(h) ==> password_matches(password@, h@),
{
    bcrypt::hash(password, cost).ok()
}

} // verus!
