//! Trusted boundary for time and identifier generation.  Every result here
//! depends on the clock or on randomness, so no contract names the value; the
//! verified logic takes these values as arguments and is proved for all of
//! them.

use vstd::prelude::*;

verus! {

/// Relies on `std::time::SystemTime::now`: seconds since the Unix epoch.
/// Nothing is promised of the value; callers hold for every outcome.
#[verifier::external_body]
pub fn now_seconds() -> u64 {
    match std::time::SystemTime::now().duration_since(std::time::SystemTime::UNIX_EPOCH) {
        Ok(d) => d.as_secs(),
        Err(_) => 0,
    }
}

/// Relies on `std::time::SystemTime::now`, chrono's `From<SystemTime>` for
/// `DateTime<Utc>` (total on both sides of the epoch) and
/// `DateTime::to_rfc3339`: the current time as an RFC 3339 string.  Nothing
/// is promised of the value; a system clock outside chrono's representable
/// range (hundreds of millennia from now) would still abort.
#[verifier::external_body]
pub fn now_rfc3339() -> String {
    chrono::DateTime::<chrono::Utc>::from(std::time::SystemTime::now()).to_rfc3339()
}

/// Relies on `uuid::Uuid::new_v4` and its hyphenated formatting: a random
/// version-4 identifier is 36 ASCII characters, so its first eight characters
/// form an eight-character token.
#[verifier::external_body]
pub fn new_action_id() -> (r: String)
    ensures
        r@.len() == 8,
{
    let mut s = uuid::Uuid::new_v4().to_string();
    s.truncate(8);
    s
}

} // verus!
