//! Sources of randomness, time and fresh identifiers.  Each is an outside
//! call whose result depends on more than its arguments, so the contracts
//! state only what holds of every outcome.

use vstd::prelude::*;

verus! {

/// Relies on rand's Rng::gen_range over `0..n`: the result is below `n`.
#[verifier::external_body]
pub fn rand_below(n: usize) -> (r: usize)
    requires
        n > 0,
    ensures
        r < n,
{
    rand::Rng::gen_range(&mut rand::thread_rng(), 0..n)
}

/// Relies on rand's Alphanumeric distribution: 32 characters, each an ASCII
/// letter or digit.
#[verifier::external_body]
pub fn random_alphanumeric_32() -> (r: String)
    ensures
        r@.len() == 32,
        forall|i: int|
            0 <= i < r@.len() ==> ('a' <= #[trigger] r@[i] <= 'z' || 'A' <= r@[i] <= 'Z' || '0'
                <= r@[i] <= '9'),
{
    rand::Rng::sample_iter(rand::thread_rng(), &rand::distributions::Alphanumeric)
        .take(32)
        .map(char::from)
        .collect()
}

/// Relies on uuid's Uuid::new_v4: a fresh random identifier in the
/// canonical hyphenated form, 36 characters long.
#[verifier::external_body]
pub fn new_request_id() -> (r: String)
    ensures
        r@.len() == 36,
{
    uuid::Uuid::new_v4().to_string()
}

/// Relies on std::time::SystemTime::now: the wall clock as milliseconds
/// since the Unix epoch.  Nothing is promised of the value.
#[verifier::external_body]
pub fn now_millis() -> u64 {
    std::time::SystemTime::now()
        .duration_since(std::time::UNIX_EPOCH)
        .unwrap_or_default()
        .as_millis() as u64
}

} // verus!
