//! A timer value derived from the wall clock: the seconds since the Unix
//! epoch shifted left, with the subsecond nanoseconds packed into the low
//! bits. Reading the clock is the only unverified step; packing the parts
//! is exact.

use vstd::prelude::*;

verus! {

/// Relies on `std::time::SystemTime::now` and
/// `std::time::SystemTime::duration_since`: the result is the elapsed time
/// since the Unix epoch, as whole seconds plus the subsecond nanoseconds,
/// which `std::time::Duration::subsec_nanos` documents to be below one
/// billion. A clock set before the epoch reads as zero elapsed time.
#[verifier::external_body]
fn unix_now_parts() -> (r: (u64, u32))
    ensures
        r.1 < 1_000_000_000,
{
    let elapsed = std::time::SystemTime::now()
        .duration_since(std::time::UNIX_EPOCH)
        .unwrap_or(std::time::Duration::from_secs(0));
    (elapsed.as_secs(), elapsed.subsec_nanos())
}

/// Packs a clock reading into one word: the seconds shifted left by 30
/// bits, with the nanoseconds folded into the low bits.
pub fn timer_value(secs: u64, nanos: u32) -> (r: u64)
    ensures
        r == (secs << 30u64) | (nanos as u64),
{
    (secs << 30u64) | (nanos as u64)
}

/// Reads the wall clock and packs it with [`timer_value`]. The result
/// depends on the moment of the call, so nothing relates two readings.
pub fn get_timer() -> u64 {
    let (secs, nanos) = unix_now_parts();
    timer_value(secs, nanos)
}

} // verus!
