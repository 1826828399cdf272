use foothold::Stats;

#[test]
fn statistics_as_text() {
    let stats = Stats {
        total: 3,
        session_successful: 2,
        session_failed: 1,
        session_skipped: 0,
        previous_session_successful: 0,
        previous_session_failed: 0,
        elapsed: 59_810,
    };
    assert_eq!(
        stats.render("33287.84"),
        "Total: 3, Successful: 2, Failed: 1, Skipped: 0, Elapsed: 59.81µs, Rate: 33287.84 tasks/sec. In previous session: successful: 0, failed: 0"
    );
}

#[test]
fn numbers_are_written_in_full() {
    let stats = Stats {
        total: usize::MAX,
        session_successful: 10,
        session_failed: 909,
        session_skipped: 1_000_000,
        previous_session_successful: 9,
        previous_session_failed: 1_234_567_890,
        elapsed: 0,
    };
    assert_eq!(
        stats.render_with("e", "r"),
        format!(
            "Total: {}, Successful: 10, Failed: 909, Skipped: 1000000, Elapsed: e, Rate: r tasks/sec. In previous session: successful: 9, failed: 1234567890",
            usize::MAX
        )
    );
}

#[test]
fn nothing_has_happened_by_default() {
    let stats = Stats::default();
    assert_eq!(
        stats.render("0.00"),
        "Total: 0, Successful: 0, Failed: 0, Skipped: 0, Elapsed: 0.00ns, Rate: 0.00 tasks/sec. In previous session: successful: 0, failed: 0"
    );
    assert_eq!(stats.elapsed, 0);
}

#[test]
fn elapsed_time_is_written_with_two_decimals() {
    let cases = [
        (1, "1.00ns"),
        (1_500, "1.50µs"),
        (2_345_678, "2.35ms"),
        (1_000_000_000, "1.00s"),
        (3_600_250_000_000, "3600.25s"),
    ];
    for (elapsed, text) in cases {
        let stats = Stats { elapsed, ..Stats::default() };
        assert!(stats.can_render());
        assert_eq!(stats.render("1.00"), stats.render_with(text, "1.00"));
    }
}

#[test]
fn an_elapsed_time_can_be_too_long_to_write() {
    let longest = u64::MAX as u128 * 1_000_000_000 + 999_999_999;
    let stats = Stats { elapsed: longest, ..Stats::default() };
    assert!(stats.can_render());
    assert!(stats.render("1.00").contains("s, Rate: 1.00 tasks/sec."));
    assert!(!Stats { elapsed: longest + 1, ..stats }.can_render());
}
