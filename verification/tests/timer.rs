use mobility_map::timer::{duration_line_string, duration_parts, Timer};

#[test]
fn duration_parts_split_seconds() {
    assert_eq!(duration_parts(0), (0, 0, 0));
    assert_eq!(duration_parts(3725), (1, 2, 5));
    assert_eq!(duration_parts(86_399), (23, 59, 59));
    assert_eq!(duration_parts(360_000), (100, 0, 0));
}

#[test]
fn duration_parts_recompose() {
    for total in [0u64, 59, 60, 61, 3599, 3600, 3601, 123_456, 9_999_999] {
        let (h, m, s) = duration_parts(total);
        assert_eq!(h * 3600 + m * 60 + s, total);
        assert!(m < 60 && s < 60);
    }
}

#[test]
fn duration_line_pads_to_two_digits() {
    assert_eq!(duration_line_string(3725), "Total duration: 01:02:05");
    assert_eq!(duration_line_string(0), "Total duration: 00:00:00");
    assert_eq!(duration_line_string(360_000), "Total duration: 100:00:00");
}

#[test]
fn new_timer_reports_only_the_duration() {
    let t = Timer::new();
    assert_eq!(t.report_lines(61), vec!["Total duration: 00:01:01".to_string()]);
}

#[test]
fn counters_are_reported_in_order_and_overwritten() {
    let mut t = Timer::new();
    t.start_ticking();
    t.push_info("stops proccessed", 12);
    t.push_info("stop times proccessed", 3400);
    t.push_info("stops proccessed", 13);
    assert_eq!(
        t.report_lines(7322),
        vec![
            "Total duration: 02:02:02".to_string(),
            " stops proccessed: 13".to_string(),
            " stop times proccessed: 3400".to_string(),
        ]
    );
}

#[test]
fn show_duration_reports_the_counters() {
    let mut t = Timer::new();
    t.push_info("records", 0);
    let lines = t.show_duration();
    assert_eq!(lines.len(), 2);
    assert!(lines[0].starts_with("Total duration: 00:00:0"));
    assert_eq!(lines[1], " records: 0");
}
