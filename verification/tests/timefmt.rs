use orbitdock_server::timefmt::{is_leap_year, time_to_iso8601};

#[test]
fn epoch_renders_as_1970() {
    assert_eq!(time_to_iso8601(0), "1970-01-01T00:00:00Z");
}

#[test]
fn known_timestamps_render_exactly() {
    assert_eq!(time_to_iso8601(951_782_400), "2000-02-29T00:00:00Z");
    assert_eq!(time_to_iso8601(1_711_281_600), "2024-03-24T12:00:00Z");
    assert_eq!(time_to_iso8601(1_735_689_599), "2024-12-31T23:59:59Z");
}

#[test]
fn leap_year_rule() {
    assert!(is_leap_year(2000));
    assert!(is_leap_year(2024));
    assert!(!is_leap_year(1900));
    assert!(!is_leap_year(2023));
}

#[test]
fn rendered_times_keep_their_order_and_width() {
    let times = [0u64, 59, 60, 3599, 86_399, 86_400, 951_782_400, 1_709_251_199, 253_402_300_799];
    for pair in times.windows(2) {
        let (a, b) = (time_to_iso8601(pair[0]), time_to_iso8601(pair[1]));
        assert!(a < b, "{a} should sort before {b}");
        assert_eq!(a.len(), 20);
        assert_eq!(b.len(), 20);
    }
    assert_eq!(time_to_iso8601(253_402_300_799), "9999-12-31T23:59:59Z");
}
