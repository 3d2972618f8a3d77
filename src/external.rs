use vstd::prelude::*;

verus! {

#[verifier::external_type_specification]
#[verifier::external_body]
pub struct ExKeypair(stellar_sdk::Keypair);

/// Seconds in a day.
pub const SECS_PER_DAY: i64 = 86400;

/// The largest number of days that chrono's `TimeDelta` can hold, rounded
/// down (its bound is `i64::MAX` milliseconds either way).
pub const MAX_INTERVAL_DAYS: i64 = 106_751_991_167;

/// An upper bound on chrono's clock: `DateTime::from_timestamp` refuses day
/// numbers beyond `i32::MAX`.
pub const CLOCK_BOUND: i64 = 185_542_587_187_200;

/// Whether `stellar_sdk::Keypair::from_public_key` accepts the text.
pub uninterp spec fn public_key_parses(s: Seq<char>) -> bool;

/// Whether `stellar_sdk::Keypair::from_secret_key` accepts the text.
pub uninterp spec fn secret_key_parses(s: Seq<char>) -> bool;

/// Relies on `stellar_sdk::Keypair::from_public_key`: `Ok` exactly when the
/// strkey decodes to an ed25519 public key. Its decoder indexes into the
/// decoded bytes unchecked, so it is only handed texts of a full strkey's
/// length.
#[verifier::external_body]
pub(crate) fn parse_public_key(s: &str) -> (r: Option<stellar_sdk::Keypair>)
    requires
        s@.len() == 56,
    ensures
        r.is_some() == public_key_parses(s@),
{
    stellar_sdk::Keypair::from_public_key(s).ok()
}

/// Relies on `stellar_sdk::Keypair::from_secret_key`: `Ok` exactly when the
/// strkey decodes to an ed25519 secret seed. Only texts of a full strkey's
/// length are handed to it, as above.
#[verifier::external_body]
pub(crate) fn parse_secret_key(s: &str) -> (r: Option<stellar_sdk::Keypair>)
    requires
        s@.len() == 56,
    ensures
        r.is_some() == secret_key_parses(s@),
{
    stellar_sdk::Keypair::from_secret_key(s).ok()
}

/// Relies on chrono's `TimeDelta::days` and `num_seconds`: a whole number of
/// days as seconds. `days` panics outside `MAX_INTERVAL_DAYS`.
#[verifier::external_body]
pub(crate) fn days_to_seconds(days: i64) -> (r: i64)
    requires
        -MAX_INTERVAL_DAYS <= days <= MAX_INTERVAL_DAYS,
    ensures
        r == days * SECS_PER_DAY,
{
    chrono::Duration::days(days).num_seconds()
}

/// Relies on chrono's `Utc::now` and `timestamp`: the current time in seconds
/// since the Unix epoch. `now` panics on a clock before the epoch and on one
/// that `from_timestamp` refuses.
#[verifier::external_body]
pub(crate) fn now_timestamp() -> (r: i64)
    ensures
        0 <= r < CLOCK_BOUND,
{
    chrono::Utc::now().timestamp()
}

} // verus!
