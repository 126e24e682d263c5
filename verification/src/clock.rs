//! Clock ticks and the blink period.

use vstd::prelude::*;

verus! {

/// Clock ticks in one millisecond: the clock runs at 1 MHz.
pub const TICKS_PER_MILLI: u64 = 1000;

/// The blink period in milliseconds.
pub const LED_PERIOD_MS: u64 = 200;

/// The number of clock ticks in `millis` milliseconds.
pub open spec fn millis_as_ticks(millis: nat) -> nat {
    millis * (TICKS_PER_MILLI as nat)
}

/// Calls `embassy_time::Duration::from_millis` and reads the result with
/// `Duration::as_ticks`.
///
/// Trusted: `embassy-time` counts at 1 MHz here, which is the rate its `std`
/// feature selects and also the one it has when none is selected. At that
/// rate `from_millis` multiplies by 1000 and divides by 1, rounding up, so
/// the tick count is `millis * 1000`. The product is formed in `u64`; the
/// precondition keeps it in range.
#[verifier::external_body]
fn duration_ticks(millis: u64) -> (ticks: u64)
    requires
        millis_as_ticks(millis as nat) <= u64::MAX,
    ensures
        ticks == millis_as_ticks(millis as nat),
{
    embassy_time::Duration::from_millis(millis).as_ticks()
}

/// The number of clock ticks in `millis` milliseconds, or `None` where that
/// number does not fit the clock's 64 bits.
pub fn ticks_from_millis(millis: u64) -> (ticks: Option<u64>)
    ensures
        millis_as_ticks(millis as nat) <= u64::MAX ==> ticks == Some(
            millis_as_ticks(millis as nat) as u64,
        ),
        millis_as_ticks(millis as nat) > u64::MAX ==> ticks.is_none(),
{
    if millis <= u64::MAX / TICKS_PER_MILLI {
        Some(duration_ticks(millis))
    } else {
        None
    }
}

/// The blink period in clock ticks.
pub fn led_period() -> (ticks: u64)
    ensures
        ticks == millis_as_ticks(LED_PERIOD_MS as nat),
        ticks == 200_000,
{
    duration_ticks(LED_PERIOD_MS)
}

} // verus!
