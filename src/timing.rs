use vstd::prelude::*;

verus! {

/// Relies on chrono::Local::now and DateTime::timestamp_millis: the wall
/// clock in milliseconds since the Unix epoch. Nothing is promised about the
/// reading.
#[verifier::external_body]
fn clock_millis() -> (r: i64) {
    chrono::Local::now().timestamp_millis()
}

/// Moves the timestamp `last` to `now` and returns the milliseconds from the
/// one to the other, wrapping on overflow.
pub fn advance_clock(last: &mut i64, now: i64) -> (delta: i64)
    ensures
        *final(last) == now,
        delta == now.wrapping_sub(*old(last)),
{
    let delta = now.wrapping_sub(*last);
    *last = now;
    delta
}

/// Reads the clock into `last` and returns the milliseconds since the
/// timestamp that `last` held.
pub fn timest(last: &mut i64) -> (delta: i64)
    ensures
        delta == (*final(last)).wrapping_sub(*old(last)),
{
    let now = clock_millis();
    advance_clock(last, now)
}

/// Reads the clock into `last`, and records the milliseconds since the
/// timestamp that `last` held, truncated to `u32`, at the end of
/// `durations`.
pub fn timex(last: &mut i64, durations: &mut Vec<u32>) -> (r: u32)
    ensures
        r == (*final(last)).wrapping_sub(*old(last)) as u32,
        final(durations)@ == old(durations)@.push(r),
{
    let duration = #[verifier::truncate] (timest(last) as u32);
    durations.push(duration);
    duration
}

} // verus!
