use vstd::prelude::*;

verus! {

/// Relies on std::time::SystemTime::now: the wall clock read as whole
/// seconds since the Unix epoch. Nothing is assumed of the value read.
#[verifier::external_body]
pub(crate) fn timestamp_now() -> u64 {
    std::time::SystemTime::now()
        .duration_since(std::time::UNIX_EPOCH)
        .map(|d| d.as_secs())
        .unwrap_or(0)
}

} // verus!
