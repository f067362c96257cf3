use vstd::prelude::*;

verus! {

/// Whole periods elapsed between `summon_time` and `now` (both in
/// milliseconds), with periods of `period_duration` seconds; zero when `now`
/// lies before `summon_time`, and zero for a zero duration, which has no
/// periods.
pub open spec fn period_at(now: u64, summon_time: u64, period_duration: u32) -> int {
    if now < summon_time || period_duration == 0 {
        0
    } else {
        (now - summon_time) as int / 1000 / period_duration as int
    }
}

/// Computes `period_at(now, summon_time, period_duration)`.
pub fn elapsed_periods(now: u64, summon_time: u64, period_duration: u32) -> (r: u128)
    ensures
        r as int == period_at(now, summon_time, period_duration),
{
    if now < summon_time || period_duration == 0 {
        0
    } else {
        let diff: u64 = now - summon_time;
        let seconds: u64 = diff / 1000;
        (seconds / (period_duration as u64)) as u128
    }
}

} // verus!
