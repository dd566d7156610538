use fixed_timestep::{
    clamped_sleep_nanos, run_scripted, Action, FixedTimestep, Tick, FIXED_TICK_NANOS,
};

#[test]
fn it_adds_two() {
    assert_eq!(4, 2 + 2);
}

#[test]
fn continues_then_stop_calls_n_plus_one_times() {
    let frames = vec![
        (Action::Continue, 1_000),
        (Action::Continue, 2_000),
        (Action::Continue, 3_000),
        (Action::Stop, 4_000),
        (Action::Continue, 5_000),
    ];
    let r = run_scripted(&frames);
    assert_eq!(r.invocations, 4);
    assert!(r.stopped);
    assert_eq!(r.ticks.len(), 3);
}

#[test]
fn stop_at_first_call_makes_one_call_and_no_sleep() {
    let frames = vec![(Action::Stop, 99_000_000), (Action::Continue, 0)];
    let r = run_scripted(&frames);
    assert_eq!(r.invocations, 1);
    assert!(r.stopped);
    assert!(r.ticks.is_empty());
}

#[test]
fn frames_without_stop_run_out() {
    let frames = vec![(Action::Continue, 0), (Action::Continue, 0)];
    let r = run_scripted(&frames);
    assert_eq!(r.invocations, 2);
    assert!(!r.stopped);
    assert_eq!(r.ticks.len(), 2);
    let empty = run_scripted(&vec![]);
    assert_eq!(empty.invocations, 0);
    assert!(!empty.stopped);
    assert!(empty.ticks.is_empty());
}

#[test]
fn accumulator_stays_below_one_tick() {
    let mut s = FixedTimestep::new();
    assert_eq!(s.accumulator_nanos(), 0);
    for elapsed in [0u64, 1, 16_666_666, 16_666_667, 16_666_668, 33_333_334, 100_000_000, 7] {
        s.advance(elapsed);
        assert!(s.accumulator_nanos() < FIXED_TICK_NANOS);
    }
}

#[test]
fn sleep_is_clamped_at_zero() {
    assert_eq!(clamped_sleep_nanos(0), 16_666_667);
    assert_eq!(clamped_sleep_nanos(1), 16_666_666);
    assert_eq!(clamped_sleep_nanos(16_666_666), 1);
    assert_eq!(clamped_sleep_nanos(16_666_667), 0);
    assert_eq!(clamped_sleep_nanos(16_666_668), 0);
    assert_eq!(clamped_sleep_nanos(u64::MAX), 0);
}

#[test]
fn slow_frame_of_fifty_milliseconds() {
    // 50 ms is two whole ticks and 16,666,666 ns: two updates, then a 1 ns sleep
    let r = run_scripted(&vec![(Action::Continue, 50_000_000), (Action::Stop, 0)]);
    assert_eq!(r.invocations, 2);
    assert!(r.stopped);
    assert_eq!(r.ticks, vec![Tick { updates: 2, sleep_nanos: 1 }]);
}

#[test]
fn slow_frame_of_three_whole_ticks() {
    let r = run_scripted(&vec![(Action::Continue, 50_000_001), (Action::Stop, 0)]);
    assert_eq!(r.invocations, 2);
    assert_eq!(r.ticks, vec![Tick { updates: 3, sleep_nanos: 16_666_667 }]);
}

#[test]
fn no_elapsed_time_never_updates_and_always_sleeps_a_tick() {
    let frames = vec![(Action::Continue, 0); 6];
    let r = run_scripted(&frames);
    assert_eq!(r.invocations, 6);
    assert!(!r.stopped);
    assert_eq!(r.ticks, vec![Tick { updates: 0, sleep_nanos: FIXED_TICK_NANOS }; 6]);
}

#[test]
fn time_accumulates_across_frames() {
    let r = run_scripted(&vec![
        (Action::Continue, 10_000_000),
        (Action::Continue, 10_000_000),
        (Action::Continue, 16_666_667),
        (Action::Stop, 0),
    ]);
    assert_eq!(
        r.ticks,
        vec![
            Tick { updates: 0, sleep_nanos: 6_666_667 },
            Tick { updates: 1, sleep_nanos: 13_333_334 },
            Tick { updates: 1, sleep_nanos: 13_333_334 },
        ]
    );
}

#[test]
fn advance_reports_updates_and_sleep() {
    let mut s = FixedTimestep::new();
    assert_eq!(s.advance(16_666_667), Tick { updates: 1, sleep_nanos: 16_666_667 });
    assert_eq!(s.advance(16_666_666), Tick { updates: 0, sleep_nanos: 1 });
    assert_eq!(s.accumulator_nanos(), 16_666_666);
    assert_eq!(s.advance(1), Tick { updates: 1, sleep_nanos: 16_666_667 });
    assert_eq!(s.accumulator_nanos(), 0);
}

#[test]
fn stop_is_terminal() {
    let mut s = FixedTimestep::new();
    assert!(s.is_running());
    assert!(s.record(Action::Continue));
    assert!(!s.record(Action::Stop));
    assert!(!s.is_running());
    assert!(!s.record(Action::Continue));
    assert!(!s.is_running());
}
