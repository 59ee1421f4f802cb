use tasknet::time::{DateTime, Duration};

#[test]
fn signed_duration_since_subtracts() {
    assert_eq!(DateTime(5_000).signed_duration_since(DateTime(2_000)), Duration { millis: 3_000 });
    assert_eq!(DateTime(2_000).signed_duration_since(DateTime(5_000)), Duration { millis: -3_000 });
    assert_eq!(
        DateTime(i64::MAX).signed_duration_since(DateTime(i64::MIN)).millis,
        i64::MAX as i128 - i64::MIN as i128
    );
}

#[test]
fn whole_units_round_toward_zero() {
    let d = Duration { millis: 8 * 86_400_000 + 3_600_000 + 1_500 };
    assert_eq!(d.num_seconds(), 8 * 86_400 + 3_600 + 1);
    assert_eq!(d.num_minutes(), 8 * 1_440 + 60);
    assert_eq!(d.num_hours(), 8 * 24 + 1);
    assert_eq!(d.num_days(), 8);
    assert_eq!(d.num_weeks(), 1);
    let n = Duration { millis: -1_500 };
    assert_eq!(n.num_seconds(), -1);
    assert_eq!(n.num_minutes(), 0);
    let m = Duration { millis: -90_000 };
    assert_eq!(m.num_minutes(), -1);
    assert_eq!(m.num_hours(), 0);
}
