use vstd::prelude::*;

use crate::wallclock::{now_wall_time, WallTime};

verus! {

/// The next timer interval: a short 250 ms poll while the minute is
/// unchanged; on a minute change, the time until a quarter second
/// before the next minute boundary.  A leap second (`sec == 60`) is
/// treated as the last ordinary second, giving the same 750 ms wait.
pub open spec fn tick_interval_spec(changed: bool, sec: int) -> int {
    if !changed {
        250
    } else if sec <= 59 {
        1000 * (60 - sec) - 250
    } else {
        750
    }
}

/// Compute the interval to re-arm the clock timer with.
pub fn next_timer_interval(cur_min: i32, past_min: i32, sec: i32) -> (iv: u32)
    requires
        0 <= sec <= 60,
    ensures
        iv == tick_interval_spec(cur_min != past_min, sec as int),
        250 <= iv <= 59750,
{
    if cur_min == past_min {
        250
    } else if sec <= 59 {
        (1000 * (60 - sec) - 250) as u32
    } else {
        750
    }
}

/// On a minute change the recomputed interval always lands strictly
/// before the next minute boundary and is never negative: for any
/// second `s` within the minute it is at least the 750 ms of the
/// `s == 59` edge and at most the 59750 ms of `s == 0`.
pub proof fn lemma_interval_bounds(s: int)
    requires
        0 <= s <= 59,
    ensures
        750 <= tick_interval_spec(true, s) <= 59750,
        tick_interval_spec(true, s) == 1000 * (60 - s) - 250,
        tick_interval_spec(false, s) == 250,
{
}

/// One firing of the periodic timer: what it observed and what it
/// decided.
pub struct SchedulerFire {
    pub tick: bool,
    pub interval_ms: u32,
    pub minute: i32,
    pub second: i32,
}

/// The timer callback's decision: read the wall clock, emit a tick
/// exactly when the observed minute differs from the last minute the
/// main loop handled, and re-arm with `tick_interval_spec`.  The
/// observed time itself may be anything within its documented ranges.
pub fn scheduler_fire(past_min: i32) -> (r: SchedulerFire)
    ensures
        0 <= r.minute <= 59,
        0 <= r.second <= 60,
        r.tick == (r.minute != past_min),
        r.interval_ms == tick_interval_spec(r.tick, r.second as int),
        250 <= r.interval_ms <= 59750,
{
    let t: WallTime = now_wall_time();
    let iv: u32 = next_timer_interval(t.minute, past_min, t.second);
    SchedulerFire { tick: t.minute != past_min, interval_ms: iv, minute: t.minute, second: t.second }
}

} // verus!
