use vstd::prelude::*;

verus! {

/// The wall-clock time of day, broken down as the renderer reads it.
#[derive(Clone, Copy, PartialEq, Eq, Structural, Debug)]
pub struct WallTime {
    pub hour: i32,
    pub minute: i32,
    pub second: i32,
}

/// Relies on time::now for the local wall-clock time; the Tm fields it
/// is built from are documented as tm_hour in [0, 23], tm_min in
/// [0, 59] and tm_sec in [0, 60] (60 for a leap second).  Nothing more
/// is assumed: two calls may return anything within those ranges.
#[verifier::external_body]
pub(crate) fn now_wall_time() -> (t: WallTime)
    ensures
        0 <= t.hour <= 23,
        0 <= t.minute <= 59,
        0 <= t.second <= 60,
{
    let tm = time::now();
    WallTime { hour: tm.tm_hour, minute: tm.tm_min, second: tm.tm_sec }
}

} // verus!
