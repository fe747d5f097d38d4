use gluqlo::sched::{next_timer_interval, scheduler_fire};

#[test]
fn unchanged_minute_polls_at_250ms() {
    for s in 0..=60 {
        assert_eq!(next_timer_interval(5, 5, s), 250);
    }
}

#[test]
fn minute_change_waits_until_just_before_the_boundary() {
    for s in 0..=59 {
        let iv = next_timer_interval(6, 5, s);
        assert_eq!(iv, (1000 * (60 - s) - 250) as u32);
        assert!(iv >= 750);
    }
}

#[test]
fn minute_change_edge_seconds() {
    assert_eq!(next_timer_interval(1, 0, 0), 59750);
    assert_eq!(next_timer_interval(1, 0, 59), 750);
    // A leap second reads as the last ordinary second.
    assert_eq!(next_timer_interval(1, 0, 60), 750);
}

#[test]
fn scheduler_fire_reads_a_consistent_clock() {
    // With a sentinel past minute the observed minute always differs,
    // so the fire must tick and re-arm relative to the observed second.
    let r = scheduler_fire(-1);
    assert!(r.tick);
    assert!((0..=59).contains(&r.minute));
    assert!((0..=60).contains(&r.second));
    let expect = if r.second <= 59 {
        (1000 * (60 - r.second) - 250) as u32
    } else {
        750
    };
    assert_eq!(r.interval_ms, expect);
}
