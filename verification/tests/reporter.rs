use main_game_loop::report::Reporter;

#[test]
fn reset_with_no_operations_yields_no_average() {
    // No division by zero: an interval with no completed operation has no
    // average, and ten operations never happened, so zero per second.
    let mut reporter = Reporter::new_with_interval(1_000_000_000);
    reporter.reset();
    assert_eq!(reporter.last(), None);
    let (dur, per) = reporter.last_string();
    assert_eq!(dur, "...");
    assert_eq!(per, "0.0");
}

#[test]
fn ten_operations_of_ten_milliseconds_over_one_second() {
    // Report interval of one second, ten operations of ten milliseconds:
    // ten operations per second, ten milliseconds each.
    let mut reporter = Reporter::new_with_interval(1_000_000_000);
    for _ in 0..10 {
        reporter.record(10_000_000);
    }
    reporter.reset();
    assert_eq!(reporter.last(), Some((10_000_000, 10_000)));
    let (dur, per) = reporter.last_string();
    assert_eq!(dur, "10.0000ms");
    assert_eq!(per, "10.0");
}

#[test]
fn reset_zeroes_the_running_counters() {
    let mut reporter = Reporter::new_with_interval(1_000_000_000);
    reporter.record(5);
    reporter.reset();
    reporter.reset();
    // The second window completed nothing.
    assert_eq!(reporter.last(), None);
}

#[test]
fn duration_units_scale_with_the_average() {
    let mut reporter = Reporter::new_with_interval(1_000_000_000);
    reporter.record(999);
    reporter.reset();
    assert_eq!(reporter.last_string().0, "999.0000ns");

    reporter.record(1_500);
    reporter.reset();
    assert_eq!(reporter.last_string().0, "1.5000us");

    reporter.record(2_500_000_000);
    reporter.reset();
    assert_eq!(reporter.last_string().0, "2.5000s");
}

#[test]
fn precision_zero_drops_the_fraction() {
    let mut reporter = Reporter::new_with_interval(1_000_000_000);
    for _ in 0..10 {
        reporter.record(10_000_000);
    }
    reporter.reset();
    let (dur, per) = reporter.last_string_prec(0, 0);
    assert_eq!(dur, "10ms");
    assert_eq!(per, "10");
}

#[test]
fn fractional_digits_are_exact() {
    // One operation of 1,234,567 nanoseconds: 1.234567 milliseconds.
    let mut reporter = Reporter::new_with_interval(1_000_000_000);
    reporter.record(1_234_567);
    reporter.reset();
    let (dur, _) = reporter.last_string_prec(4, 1);
    assert_eq!(dur, "1.2345ms");
    // Three operations in two seconds: 1.5 per second.
    let mut reporter = Reporter::new_with_interval(2_000_000_000);
    for _ in 0..3 {
        reporter.record(7);
    }
    reporter.reset();
    let (_, per) = reporter.last_string_prec(1, 3);
    assert_eq!(per, "1.500");
}

#[test]
fn zero_interval_publishes_no_per_second_figure() {
    let mut reporter = Reporter::new_with_interval(0);
    assert!(reporter.should_report_after(0));
    reporter.record(10);
    reporter.reset();
    assert_eq!(reporter.last(), None);
    let (dur, per) = reporter.last_string();
    assert_eq!(dur, "10.0000ns");
    assert_eq!(per, "...");
}

#[test]
fn begin_and_end_count_an_operation() {
    let mut reporter = Reporter::new();
    assert_eq!(reporter.report_interval(), 3_000_000_000);
    let timer = reporter.begin();
    reporter.end(timer);
    reporter.reset();
    // One operation in the window: an average exists.
    assert!(reporter.last().is_some());
}

#[test]
fn timed_closure_hands_its_result_through() {
    let mut reporter = Reporter::new_with_interval(1_000_000_000);
    let value = reporter.time(|| 21 * 2);
    assert_eq!(value, 42);
    reporter.reset();
    assert!(reporter.last().is_some());
}

#[test]
fn should_report_threshold() {
    let reporter = Reporter::new_with_interval(1_000_000_000);
    assert!(!reporter.should_report_after(999_999_999));
    assert!(reporter.should_report_after(1_000_000_000));
    assert!(reporter.should_report_after(u64::MAX));
}

#[test]
fn saturating_accounting_does_not_panic() {
    let mut reporter = Reporter::new_with_interval(1_000_000_000);
    reporter.record(u64::MAX);
    reporter.record(u64::MAX);
    reporter.reset();
    let (avg, _) = reporter.last().expect("two operations completed");
    assert_eq!(avg, u64::MAX / 2);
}

#[test]
fn report_all_aligns_and_resets() {
    let mut reporter_update = Reporter::new_with_interval(1_000_000_000);
    for _ in 0..10 {
        reporter_update.record(10_000_000);
    }
    let reporter_frame = Reporter::new_with_interval(2_000_000_000);
    let mut reporters = vec![
        ("UPDATE".to_string(), reporter_update),
        ("FRAME".to_string(), reporter_frame),
    ];
    let report = Reporter::report_all("session", &mut reporters);
    let expected = "Report session\n   per second @ time per\nUPDATE:  10.0 @ 10.0000ms\nFRAME:    0.0 @ ...\n";
    assert_eq!(report, expected);
    // Every reporter passed in was reset and published its window.
    assert_eq!(reporters[0].1.last(), Some((10_000_000, 10_000)));
    assert_eq!(reporters[1].1.last(), None);
}

#[test]
fn report_all_of_no_reporters_is_just_the_header() {
    let mut reporters = Vec::new();
    let report = Reporter::report_all("empty", &mut reporters);
    assert_eq!(report, "Report empty\nper second @ time per\n");
}

#[test]
fn default_reporter_uses_three_seconds() {
    let reporter = Reporter::default();
    assert_eq!(reporter.report_interval(), 3_000_000_000);
    assert_eq!(reporter.last(), None);
}
