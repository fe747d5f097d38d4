use vstd::prelude::*;

use crate::wallclock::{now_wall_time, WallTime};

verus! {

/// The ASCII digit character for `d`.
pub open spec fn ascii_digit(d: int) -> u8 {
    (0x30 + d) as u8
}

/// The decimal text of a displayed value, matching the renderer's
/// formatting: two-width values are zero-padded; the start-up sentinel
/// `-1` renders as the two characters `-1`.
pub open spec fn format_spec(v: int, two_width: bool) -> Seq<u8> {
    if v < 0 {
        seq![0x2du8, 0x31u8]
    } else if v <= 9 && two_width {
        seq![0x30u8, ascii_digit(v)]
    } else if v <= 9 {
        seq![ascii_digit(v)]
    } else {
        seq![ascii_digit(v / 10), ascii_digit(v % 10)]
    }
}

/// Format a displayed value as ASCII digits.
pub fn format_digits(v: i32, two_width: bool) -> (s: Vec<u8>)
    requires
        -1 <= v <= 99,
    ensures
        s@ == format_spec(v as int, two_width),
        1 <= s@.len() <= 2,
{
    let s: Vec<u8> = if v < 0 {
        vec![0x2du8, 0x31u8]
    } else if v <= 9 {
        let d: u8 = 0x30u8 + v as u8;
        if two_width {
            vec![0x30u8, d]
        } else {
            vec![d]
        }
    } else {
        let tens: u8 = 0x30u8 + (v / 10) as u8;
        let ones: u8 = 0x30u8 + (v % 10) as u8;
        vec![tens, ones]
    };
    proof {
        assert(s@ =~= format_spec(v as int, two_width));
    }
    s
}

/// The hour as displayed: unchanged in 24-hour mode, folded into
/// 1 through 12 in AM/PM mode.
pub open spec fn display_hour_spec(hour: int, ampm: bool) -> int {
    if ampm {
        (hour + 11) % 12 + 1
    } else {
        hour
    }
}

pub fn display_hour(hour: i32, ampm: bool) -> (d: i32)
    requires
        0 <= hour <= 23,
    ensures
        d == display_hour_spec(hour as int, ampm),
        ampm ==> 1 <= d <= 12,
        !ampm ==> d == hour,
{
    if ampm {
        (hour + 11) % 12 + 1
    } else {
        hour
    }
}

/// The last committed display state: the hour and minute of the last
/// completed transition, or `-1` before the first frame is drawn.
pub struct ClockState {
    pub past_hour: i32,
    pub past_minute: i32,
}

impl ClockState {
    pub open spec fn wf(self) -> bool {
        -1 <= self.past_hour <= 23 && -1 <= self.past_minute <= 59
    }

    pub fn new() -> (s: ClockState)
        ensures
            s.wf(),
            s.past_hour == -1,
            s.past_minute == -1,
    {
        ClockState { past_hour: -1, past_minute: -1 }
    }
}

/// What one panel draws this frame: the new digits and the previously
/// committed digits the flap departs from.
pub struct PanelDraw {
    pub digits: Vec<u8>,
    pub prev: Vec<u8>,
}

/// What one clock frame draws: each panel only when its value differs
/// from the committed one, and the AM/PM marker when the hour panel is
/// redrawn in AM/PM mode.
pub struct ClockPlan {
    pub hour_panel: Option<PanelDraw>,
    pub pm_marker: Option<bool>,
    pub minute_panel: Option<PanelDraw>,
}

/// Decide what a frame draws, given the observed wall-clock hour and
/// minute and the committed state.  The minute panel is always
/// zero-padded; the hour panel is zero-padded only in leading-zero
/// mode; the previous hour is formatted as committed, without the
/// AM/PM fold.
pub fn clock_plan(
    state: &ClockState,
    ampm: bool,
    leadingzero: bool,
    hour: i32,
    minute: i32,
) -> (p: ClockPlan)
    requires
        state.wf(),
        0 <= hour <= 23,
        0 <= minute <= 59,
    ensures
        (p.hour_panel is Some) == (hour != state.past_hour),
        (p.hour_panel is Some) ==> p.hour_panel->Some_0.digits@ == format_spec(
            display_hour_spec(hour as int, ampm),
            leadingzero,
        ) && p.hour_panel->Some_0.prev@ == format_spec(state.past_hour as int, leadingzero),
        p.pm_marker == (if hour != state.past_hour && ampm {
            Some(hour >= 12)
        } else {
            None::<bool>
        }),
        (p.minute_panel is Some) == (minute != state.past_minute),
        (p.minute_panel is Some) ==> p.minute_panel->Some_0.digits@ == format_spec(
            minute as int,
            true,
        ) && p.minute_panel->Some_0.prev@ == format_spec(state.past_minute as int, true),
{
    let hour_panel: Option<PanelDraw> = if hour != state.past_hour {
        let h: i32 = display_hour(hour, ampm);
        Some(
            PanelDraw {
                digits: format_digits(h, leadingzero),
                prev: format_digits(state.past_hour, leadingzero),
            },
        )
    } else {
        None
    };
    let pm_marker: Option<bool> = if hour != state.past_hour && ampm {
        Some(hour >= 12)
    } else {
        None
    };
    let minute_panel: Option<PanelDraw> = if minute != state.past_minute {
        Some(
            PanelDraw {
                digits: format_digits(minute, true),
                prev: format_digits(state.past_minute, true),
            },
        )
    } else {
        None
    };
    ClockPlan { hour_panel, pm_marker, minute_panel }
}

/// Commit the observed time as the new baseline — but only on the final
/// frame of a transition.  An interrupted animation therefore still
/// flips from the last fully committed value.
pub fn commit_if_final(state: &mut ClockState, hour: i32, minute: i32, maxsteps: i32, step: i32)
    requires
        old(state).wf(),
        0 <= hour <= 23,
        0 <= minute <= 59,
        1 <= maxsteps,
    ensures
        final(state).wf(),
        step == maxsteps - 1 ==> final(state).past_hour == hour && final(state).past_minute
            == minute,
        step != maxsteps - 1 ==> *final(state) == *old(state),
{
    if step == maxsteps - 1 {
        state.past_hour = hour;
        state.past_minute = minute;
    }
}

/// One clock frame, as the renderer runs it: the observed time and the
/// panels to draw from it.
pub struct ClockTick {
    pub plan: ClockPlan,
    pub hour: i32,
    pub minute: i32,
}

/// Read the wall clock, plan the frame against the committed state, and
/// commit the observed time if this is the transition's final frame.
/// Whatever time the clock returns, the plan redraws exactly the panels
/// whose value changed, and the commit happens only at the final frame.
pub fn clock_tick(
    state: &mut ClockState,
    ampm: bool,
    leadingzero: bool,
    maxsteps: i32,
    step: i32,
) -> (t: ClockTick)
    requires
        old(state).wf(),
        1 <= maxsteps,
    ensures
        final(state).wf(),
        0 <= t.hour <= 23,
        0 <= t.minute <= 59,
        (t.plan.hour_panel is Some) == (t.hour != old(state).past_hour),
        (t.plan.hour_panel is Some) ==> t.plan.hour_panel->Some_0.digits@ == format_spec(
            display_hour_spec(t.hour as int, ampm),
            leadingzero,
        ) && t.plan.hour_panel->Some_0.prev@ == format_spec(
            old(state).past_hour as int,
            leadingzero,
        ),
        t.plan.pm_marker == (if t.hour != old(state).past_hour && ampm {
            Some(t.hour >= 12)
        } else {
            None::<bool>
        }),
        (t.plan.minute_panel is Some) == (t.minute != old(state).past_minute),
        (t.plan.minute_panel is Some) ==> t.plan.minute_panel->Some_0.digits@ == format_spec(
            t.minute as int,
            true,
        ) && t.plan.minute_panel->Some_0.prev@ == format_spec(old(state).past_minute as int, true),
        step == maxsteps - 1 ==> final(state).past_hour == t.hour && final(state).past_minute
            == t.minute,
        step != maxsteps - 1 ==> *final(state) == *old(state),
{
    let now: WallTime = now_wall_time();
    let plan: ClockPlan = clock_plan(state, ampm, leadingzero, now.hour, now.minute);
    commit_if_final(state, now.hour, now.minute, maxsteps, step);
    ClockTick { plan, hour: now.hour, minute: now.minute }
}

} // verus!
