use vstd::prelude::*;

verus! {

/// Relies on ulid's `Ulid::new` and `Ulid::to_string`: a fresh identifier from the
/// clock and a random source, written as 26 Crockford base32 digits.
#[verifier::external_body]
pub(crate) fn new_ulid() -> (r: String)
    ensures
        r@.len() == 26,
{
    ulid::Ulid::new().to_string()
}

/// Relies on chrono's `Utc::now`: the current time, in whole seconds since the Unix epoch.
#[verifier::external_body]
pub(crate) fn now_timestamp() -> (r: i64) {
    chrono::Utc::now().timestamp()
}

} // verus!
