use windows_toolbox::clock::{format_hms, format_hms_millis, time_of_day};

#[test]
fn clock_fields_are_zero_padded() {
    assert_eq!(format_hms(9, 5, 0), "09:05:00");
    assert_eq!(format_hms_millis(23, 59, 59, 7), "23:59:59.007");
    assert_eq!(format_hms_millis(0, 0, 0, 0), "00:00:00.000");
    assert_eq!(format_hms(123, 4, 56), "123:04:56");
}

#[test]
fn time_of_day_splits_milliseconds_since_midnight() {
    assert_eq!(time_of_day(0), (0, 0, 0, 0));
    assert_eq!(time_of_day(45_296_789), (12, 34, 56, 789));
    assert_eq!(time_of_day(86_400_000 + 1_001), (0, 0, 1, 1));
}
