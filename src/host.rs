use vstd::prelude::*;

use rand::Rng;

verus! {

/// A point in time of the host's monotonic clock.
#[verifier::external_type_specification]
#[verifier::external_body]
pub struct ExInstant(std::time::Instant);

/// Relies on std::time::Instant::now: it reads the clock, nothing is promised
/// of the value.
pub assume_specification[ std::time::Instant::now ]() -> std::time::Instant;

/// Relies on std::time::Instant::elapsed: the time since the instant, read from
/// the clock; nothing is promised of the value.
pub assume_specification[ std::time::Instant::elapsed ](i: &std::time::Instant) -> std::time::Duration;

/// Relies on std::time::Duration::as_millis: the whole milliseconds of the
/// span; nothing is stated of the value.
pub assume_specification[ std::time::Duration::as_millis ](d: &std::time::Duration) -> u128;

/// The whole milliseconds since `epoch`, saturating at the largest `u64`.
pub(crate) fn millis_since(epoch: &std::time::Instant) -> (r: u64) {
    let ms = epoch.elapsed().as_millis();
    if ms > u64::MAX as u128 {
        u64::MAX
    } else {
        ms as u64
    }
}

/// Relies on rand::thread_rng and Rng::gen_range (rand 0.8): a value drawn from
/// `0..n`, which is below `n`; the range may not be empty.
#[verifier::external_body]
pub(crate) fn random_below(n: u8) -> (r: u8)
    requires
        n > 0,
    ensures
        r < n,
{
    rand::thread_rng().gen_range(0..n)
}

} // verus!
