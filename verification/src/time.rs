//! Lengths of the phases and the rule that aligns a group session's start with
//! the clock.

use vstd::prelude::*;
use chrono::Timelike;

verus! {

/// Milliseconds in one minute.
pub const MINUTE_MILLIS: u64 = 60_000;

/// Default length of a work phase: 25 minutes.
pub const POMODORO_MILLIS: u64 = 1_500_000;

/// Length of a break: 5 minutes.
pub const BREAK_MILLIS: u64 = 300_000;

/// Milliseconds from the beginning of minute `minute` of an hour to the next
/// minute that is a multiple of five, a full five minutes when `minute` is one
/// itself.
pub open spec fn slot_delay(minute: u32) -> int {
    (5 - minute % 5) * 60_000
}

/// The wait, in milliseconds, before a session announced during minute `minute`
/// of the hour begins.
pub fn millis_to_next_slot(minute: u32) -> (r: u64)
    ensures
        r == slot_delay(minute),
        60_000 <= r <= 300_000,
{
    let rest: u32 = minute % 5;
    let minutes: u64 = (5 - rest) as u64;
    minutes * MINUTE_MILLIS
}

/// `chrono::Utc::now()` followed by `Timelike::minute`: the minute of the
/// current hour in UTC. Trusted: chrono documents the minute as a number from 0
/// to 59. The value depends on the system clock, so nothing more is claimed.
/// chrono expects that clock not to stand before the year 1970.
#[verifier::external_body]
fn utc_minute() -> (m: u32)
    ensures
        m < 60,
{
    chrono::Utc::now().minute()
}

/// The instant, counted from `now`, at which the clock next shows a minute that
/// is a multiple of five. The minute is read from the system clock: the result
/// is `now` plus `slot_delay` of whatever minute that was.
pub fn instant_at_minute(now: u64) -> (r: u64)
    requires
        now + 300_000 <= u64::MAX,
    ensures
        exists|m: u32| m < 60 && r == now + #[trigger] slot_delay(m),
        now + 60_000 <= r <= now + 300_000,
{
    let minute: u32 = utc_minute();
    let delay: u64 = millis_to_next_slot(minute);
    now + delay
}

} // verus!
