use tasknet::dates::{edit_date, edit_time};
use tasknet::time::DateTime;

// 2024-03-05T14:30:15Z
const T: i64 = 1_709_649_015_000;

#[test]
fn date_input_keeps_the_time_of_day() {
    // 2024-12-24T14:30:15Z
    assert_eq!(edit_date(Some(DateTime(T)), "2024-12-24"), Some(DateTime(1_735_050_615_000)));
    // no time yet: midnight
    assert_eq!(edit_date(None, "2024-12-24"), Some(DateTime(1_734_998_400_000)));
    assert_eq!(edit_date(Some(DateTime(T)), "24.12.2024"), None);
    assert_eq!(edit_date(None, ""), None);
    // 2024-01-31 moved to February 30 does not exist
    assert_eq!(edit_date(Some(DateTime(1_706_659_200_000)), "2023-02-30"), None);
}

#[test]
fn time_input_keeps_the_day() {
    // 2024-03-05T08:05:15Z
    assert_eq!(edit_time(Some(DateTime(T)), "08:05", DateTime(0)), Some(DateTime(1_709_625_915_000)));
    // no time yet: today at that time (seconds kept from now)
    assert_eq!(edit_time(None, "00:01", DateTime(T)), Some(DateTime(1_709_596_875_000)));
    assert_eq!(edit_time(Some(DateTime(T)), "8 am", DateTime(0)), None);
}

#[test]
fn time_input_keeps_seconds_and_millis_before_the_epoch_too() {
    // 1969-12-31T23:59:58.250Z moved to 01:02 the same day
    let before_epoch = -1_750;
    let day_start = -86_400_000;
    assert_eq!(
        edit_time(Some(DateTime(before_epoch)), "01:02", DateTime(0)),
        Some(DateTime(day_start + 3_600_000 + 2 * 60_000 + 58_250))
    );
    // an instant chrono cannot hold gives nothing
    assert_eq!(edit_time(Some(DateTime(i64::MAX)), "01:02", DateTime(0)), None);
}
