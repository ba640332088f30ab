use localization_mcap_visualizer::time::{
    abs_duration, nanos_abs_diff, nanos_since, nanos_since_epoch, system_time_from_nanos,
    time_abs_diff, Time, WallTime, NANOS_PER_SECOND,
};

#[test]
fn times_before_the_epoch_count_as_the_epoch() {
    assert_eq!(nanos_since_epoch(WallTime { nanos: -5 }), 0);
    assert_eq!(nanos_since_epoch(WallTime { nanos: 5 }), 5);
    assert_eq!(nanos_abs_diff(WallTime { nanos: -5 }, WallTime { nanos: 7 }), 7);
    assert_eq!(nanos_abs_diff(WallTime { nanos: 9 }, WallTime { nanos: 7 }), 2);
}

#[test]
fn durations_have_no_sign() {
    assert_eq!(abs_duration(WallTime { nanos: -5 }, WallTime { nanos: 7 }), 12);
    assert_eq!(abs_duration(WallTime { nanos: 7 }, WallTime { nanos: -5 }), 12);
    assert_eq!(time_abs_diff(Time::from_nanos(i64::MIN), Time::from_nanos(i64::MAX)), u64::MAX);
}

#[test]
fn offsets_have_a_sign() {
    let start = system_time_from_nanos(10);
    assert_eq!(nanos_since(WallTime { nanos: 4 }, start), -6);
    assert_eq!(nanos_since(WallTime { nanos: 14 }, start), 4);
}

#[test]
fn wall_clock_times_keep_their_nanoseconds() {
    let time = WallTime { nanos: 12 * NANOS_PER_SECOND as i128 };
    assert_eq!(Time::from_wallclock(time).as_nanos(), 12_000_000_000);
    assert_eq!(Time::from_wallclock(time).to_wallclock(), time);
    assert_eq!(WallTime::epoch().nanos, 0);
    assert_eq!(system_time_from_nanos(u64::MAX).nanos, u64::MAX as i128);
}
