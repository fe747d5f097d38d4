use gluqlo::clock::{clock_plan, clock_tick, commit_if_final, display_hour, format_digits, ClockState};

#[test]
fn formatting_matches_the_display_rules() {
    assert_eq!(format_digits(5, false), b"5".to_vec());
    assert_eq!(format_digits(5, true), b"05".to_vec());
    assert_eq!(format_digits(0, true), b"00".to_vec());
    assert_eq!(format_digits(23, false), b"23".to_vec());
    assert_eq!(format_digits(59, true), b"59".to_vec());
    // The start-up sentinel renders as "-1", as the unpadded write did.
    assert_eq!(format_digits(-1, true), b"-1".to_vec());
    assert_eq!(format_digits(-1, false), b"-1".to_vec());
}

#[test]
fn display_hour_folds_into_twelve_hour_mode() {
    assert_eq!(display_hour(0, true), 12);
    assert_eq!(display_hour(1, true), 1);
    assert_eq!(display_hour(11, true), 11);
    assert_eq!(display_hour(12, true), 12);
    assert_eq!(display_hour(13, true), 1);
    assert_eq!(display_hour(23, true), 11);
    assert_eq!(display_hour(17, false), 17);
}

#[test]
fn unchanged_panels_are_not_redrawn() {
    let state = ClockState { past_hour: 9, past_minute: 30 };
    let plan = clock_plan(&state, false, false, 9, 30);
    assert!(plan.hour_panel.is_none());
    assert!(plan.minute_panel.is_none());
    assert!(plan.pm_marker.is_none());
}

#[test]
fn only_the_changed_panel_is_redrawn() {
    let state = ClockState { past_hour: 9, past_minute: 30 };
    let plan = clock_plan(&state, false, false, 9, 31);
    assert!(plan.hour_panel.is_none());
    let minute = plan.minute_panel.expect("minute panel");
    assert_eq!(minute.digits, b"31".to_vec());
    assert_eq!(minute.prev, b"30".to_vec());
}

#[test]
fn commit_only_happens_on_the_final_frame() {
    let mut state = ClockState { past_hour: 9, past_minute: 30 };
    commit_if_final(&mut state, 10, 31, 100, 50);
    assert_eq!((state.past_hour, state.past_minute), (9, 30));
    commit_if_final(&mut state, 10, 31, 100, 99);
    assert_eq!((state.past_hour, state.past_minute), (10, 31));
}

#[test]
fn noon_rollover_end_to_end() {
    // Committed display reads 11:59; the wall clock rolls to 12:00 in
    // 12-hour leading-zero mode.
    let mut state = ClockState { past_hour: 11, past_minute: 59 };

    // Before the rollover the marker still reads AM.
    let before = clock_plan(&ClockState { past_hour: 10, past_minute: 59 }, true, true, 11, 59);
    assert_eq!(before.pm_marker, Some(false));

    // Every frame of the full animation draws 12 over 11, and the
    // committed state is untouched until the final frame.
    for step in 0..100 {
        let plan = clock_plan(&state, true, true, 12, 0);
        let hour = plan.hour_panel.expect("hour panel");
        assert_eq!(hour.digits, b"12".to_vec());
        assert_eq!(hour.prev, b"11".to_vec());
        assert_eq!(plan.pm_marker, Some(true));
        let minute = plan.minute_panel.expect("minute panel");
        assert_eq!(minute.digits, b"00".to_vec());
        assert_eq!(minute.prev, b"59".to_vec());
        if step < 99 {
            assert_eq!((state.past_hour, state.past_minute), (11, 59));
        }
        commit_if_final(&mut state, 12, 0, 100, step);
    }
    assert_eq!((state.past_hour, state.past_minute), (12, 0));

    // The next frame finds nothing to redraw.
    let after = clock_plan(&state, true, true, 12, 0);
    assert!(after.hour_panel.is_none());
    assert!(after.minute_panel.is_none());
}

#[test]
fn clock_tick_commits_the_observed_time() {
    // A terminal settle frame (step 19 of 20) against the start-up
    // sentinel: both panels redraw and the observed time is committed.
    let mut state = ClockState::new();
    let t = clock_tick(&mut state, false, false, 20, 19);
    assert!((0..=23).contains(&t.hour));
    assert!((0..=59).contains(&t.minute));
    assert!(t.plan.hour_panel.is_some());
    assert!(t.plan.minute_panel.is_some());
    assert_eq!(state.past_hour, t.hour);
    assert_eq!(state.past_minute, t.minute);
}
