use dockery::times::{age_seconds, humanize_age, AgeUnit};

// 2023-01-01T00:00:00Z as seconds since the Unix epoch.
const NEW_YEAR_2023: i64 = 1672531200;

#[test]
fn age_counts_elapsed_seconds() {
    let created = b"2023-01-01T00:00:00Z".to_vec();
    assert_eq!(age_seconds(&created, NEW_YEAR_2023 + 100), Some(100));
}

#[test]
fn age_honours_the_timestamp_offset() {
    let created = b"2023-01-01T00:00:00+01:00".to_vec();
    // One hour ahead of UTC: the instant is an hour before NEW_YEAR_2023.
    assert_eq!(age_seconds(&created, NEW_YEAR_2023), Some(3600));
}

#[test]
fn future_timestamps_clamp_to_zero() {
    let created = b"2023-01-01T00:00:00Z".to_vec();
    assert_eq!(age_seconds(&created, NEW_YEAR_2023 - 50), Some(0));
}

#[test]
fn unparsable_timestamp_has_no_age() {
    assert_eq!(age_seconds(&b"yesterday".to_vec(), NEW_YEAR_2023), None);
    assert_eq!(age_seconds(&b"".to_vec(), NEW_YEAR_2023), None);
}

#[test]
fn ages_render_in_the_largest_whole_unit() {
    assert_eq!(humanize_age(0), (0, AgeUnit::Seconds));
    assert_eq!(humanize_age(59), (59, AgeUnit::Seconds));
    assert_eq!(humanize_age(60), (1, AgeUnit::Minutes));
    assert_eq!(humanize_age(3 * 86400 + 7), (3, AgeUnit::Days));
    assert_eq!(humanize_age(2592000), (1, AgeUnit::Months));
    assert_eq!(humanize_age(2 * 31536000 + 5), (2, AgeUnit::Years));
}
