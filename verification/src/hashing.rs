use vstd::prelude::*;

verus! {

/// Whether a plaintext password verifies against a stored salted hash
/// string. This names the outcome of pbkdf2's check, which is a function
/// of the two strings alone; no statement is made of what the hash looks
/// like, only that checking it is deterministic.
pub uninterp spec fn pwd_matches(pass: Seq<char>, hash: Seq<char>) -> bool;

/// Relies on pbkdf2::pbkdf2_simple: computes a salted one-way hash of
/// `pass` with a fresh random salt. A hash produced here verifies against
/// the same password under pbkdf2::pbkdf2_check, which is what the `Some`
/// clause states; `None` covers a fault of the salt's entropy source.
#[verifier::external_body]
pub(crate) fn hash_password(pass: &str) -> (r: Option<String>)
    ensures
        r matches Some(h) ==> pwd_matches(pass@, h@),
{
    pbkdf2::pbkdf2_simple(pass, 20).ok()
}

/// Relies on pbkdf2::pbkdf2_check: true exactly when `pass` verifies
/// against the salted hash string `hash`; a malformed hash string
/// verifies no password.
#[verifier::external_body]
pub(crate) fn verify_password(pass: &str, hash: &str) -> (r: bool)
    ensures
        r == pwd_matches(pass@, hash@),
{
    pbkdf2::pbkdf2_check(pass, hash).is_ok()
}

} // verus!
