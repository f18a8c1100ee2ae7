use vstd::prelude::*;

verus! {

/// A capability that yields the current wall-clock timestamp.
///
/// The tracing context takes it as an injected dependency, so deterministic
/// clocks can stand in for the system clock when the library is exercised.
pub trait TimeFetcher {
    fn get(&self) -> i64;
}

/// Relies on std::time::SystemTime::now and duration_since(UNIX_EPOCH):
/// the seconds elapsed since the Unix epoch, never negative; a clock set
/// before the epoch yields 0.
#[verifier::external_body]
fn unix_timestamp_secs() -> (r: i64)
    ensures
        r >= 0,
{
    match std::time::SystemTime::now().duration_since(std::time::UNIX_EPOCH) {
        Ok(d) => i64::try_from(d.as_secs()).unwrap_or(i64::MAX),
        Err(_) => 0,
    }
}

/// The production time source: seconds since the Unix epoch.
pub struct UnixTimeStampFetcher {}

impl UnixTimeStampFetcher {
    pub fn new() -> (r: Self) {
        UnixTimeStampFetcher {}
    }
}

impl Default for UnixTimeStampFetcher {
    fn default() -> (r: Self) {
        UnixTimeStampFetcher {}
    }
}

impl TimeFetcher for UnixTimeStampFetcher {
    fn get(&self) -> i64 {
        unix_timestamp_secs()
    }
}

/// Relies on uuid::Uuid::new_v4 and u128::to_string: the decimal digits of a
/// freshly drawn random 128-bit identifier, never an empty string.
#[verifier::external_body]
pub(crate) fn fresh_id() -> (r: String)
    ensures
        r@.len() >= 1,
{
    uuid::Uuid::new_v4().as_u128().to_string()
}

} // verus!
