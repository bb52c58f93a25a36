use std::collections::HashSet;
use std::time::{Duration, SystemTime};
use try_rs::naming::{
    parse_u64, relative_time, relative_time_from_secs, resolve_unique_name_with,
    resolve_unique_name_with_versioning, unique_dir_name, unique_dir_name_with,
};

#[test]
fn test_relative_time_just_now() {
    let now = SystemTime::now();
    assert_eq!(relative_time(now), "just now");

    let thirty_secs_ago = now - Duration::from_secs(30);
    assert_eq!(relative_time(thirty_secs_ago), "just now");
}

#[test]
fn test_relative_time_minutes() {
    let now = SystemTime::now();
    let five_mins_ago = now - Duration::from_secs(5 * 60);
    assert_eq!(relative_time(five_mins_ago), "5m ago");

    let thirty_mins_ago = now - Duration::from_secs(30 * 60);
    assert_eq!(relative_time(thirty_mins_ago), "30m ago");
}

#[test]
fn test_relative_time_hours() {
    let now = SystemTime::now();
    let two_hours_ago = now - Duration::from_secs(2 * 3600);
    assert_eq!(relative_time(two_hours_ago), "2h ago");

    let twelve_hours_ago = now - Duration::from_secs(12 * 3600);
    assert_eq!(relative_time(twelve_hours_ago), "12h ago");
}

#[test]
fn test_relative_time_days() {
    let now = SystemTime::now();
    let two_days_ago = now - Duration::from_secs(2 * 24 * 3600);
    assert_eq!(relative_time(two_days_ago), "2d ago");

    let five_days_ago = now - Duration::from_secs(5 * 24 * 3600);
    assert_eq!(relative_time(five_days_ago), "5d ago");
}

#[test]
fn test_relative_time_weeks() {
    let now = SystemTime::now();
    let one_week_ago = now - Duration::from_secs(7 * 24 * 3600);
    assert_eq!(relative_time(one_week_ago), "1w ago");

    let three_weeks_ago = now - Duration::from_secs(21 * 24 * 3600);
    assert_eq!(relative_time(three_weeks_ago), "3w ago");
}

#[test]
fn relative_time_boundaries() {
    assert_eq!(relative_time_from_secs(59), "just now");
    assert_eq!(relative_time_from_secs(60), "1m ago");
    assert_eq!(relative_time_from_secs(3599), "59m ago");
    assert_eq!(relative_time_from_secs(3600), "1h ago");
    assert_eq!(relative_time_from_secs(86399), "23h ago");
    assert_eq!(relative_time_from_secs(86400), "1d ago");
    assert_eq!(relative_time_from_secs(604799), "6d ago");
    assert_eq!(relative_time_from_secs(604800), "1w ago");
    let future = SystemTime::now() + Duration::from_secs(3600);
    assert_eq!(relative_time(future), "just now");
}

#[test]
fn test_scoring_formula() {
    let score_now = 3.0_f64 / (0.0_f64 + 1.0_f64).sqrt();
    assert!((score_now - 3.0).abs() < 0.01);

    let score_1h = 3.0_f64 / (1.0_f64 + 1.0_f64).sqrt();
    assert!((score_1h - 2.12).abs() < 0.01);

    let score_24h = 3.0_f64 / (24.0_f64 + 1.0_f64).sqrt();
    assert!((score_24h - 0.6).abs() < 0.01);

    let score_1w = 3.0_f64 / (168.0_f64 + 1.0_f64).sqrt();
    assert!((score_1w - 0.23).abs() < 0.01);
}

fn taken_set(names: &[&str]) -> HashSet<String> {
    names.iter().map(|s| s.to_string()).collect()
}

#[test]
fn test_unique_dir_name() {
    let mut existing = taken_set(&[]);
    assert_eq!(
        unique_dir_name_with("test", |c: &String| existing.contains(c)),
        Some("test".to_string())
    );
    existing.insert("test".to_string());
    assert_eq!(
        unique_dir_name_with("test", |c: &String| existing.contains(c)),
        Some("test-2".to_string())
    );
    existing.insert("test-2".to_string());
    assert_eq!(
        unique_dir_name_with("test", |c: &String| existing.contains(c)),
        Some("test-3".to_string())
    );
}

#[test]
fn unique_dir_name_on_missing_directory_keeps_base() {
    assert_eq!(
        unique_dir_name("/nonexistent-try-dir-for-tests", "test"),
        Some("test".to_string())
    );
}

#[test]
fn test_resolve_unique_name_with_versioning_no_collision() {
    let try_path = "/nonexistent-try-dir-for-tests";
    let date_prefix = "2026-03-11";

    assert_eq!(
        resolve_unique_name_with_versioning(try_path, date_prefix, "feature"),
        Some("feature".to_string())
    );
    assert_eq!(
        resolve_unique_name_with_versioning(try_path, date_prefix, "feature1"),
        Some("feature1".to_string())
    );
}

#[test]
fn test_resolve_unique_name_with_versioning_numeric_suffix() {
    let date_prefix = "2026-03-11";
    let mut existing = taken_set(&["2026-03-11-feature1"]);
    assert_eq!(
        resolve_unique_name_with(date_prefix, "feature1", |c: &String| existing.contains(c)),
        Some("feature2".to_string())
    );
    existing.insert("2026-03-11-feature2".to_string());
    assert_eq!(
        resolve_unique_name_with(date_prefix, "feature1", |c: &String| existing.contains(c)),
        Some("feature3".to_string())
    );
}

#[test]
fn test_resolve_unique_name_with_versioning_non_numeric() {
    let date_prefix = "2026-03-11";
    let mut existing = taken_set(&["2026-03-11-feature"]);
    assert_eq!(
        resolve_unique_name_with(date_prefix, "feature", |c: &String| existing.contains(c)),
        Some("feature-2".to_string())
    );
    existing.insert("2026-03-11-feature-2".to_string());
    assert_eq!(
        resolve_unique_name_with(date_prefix, "feature", |c: &String| existing.contains(c)),
        Some("feature-3".to_string())
    );
}

#[test]
fn resolve_unique_name_overflowing_digits_restart_at_one() {
    let existing = taken_set(&["d-v99999999999999999999"]);
    assert_eq!(
        resolve_unique_name_with("d", "v99999999999999999999", |c: &String| existing.contains(c)),
        Some("v1".to_string())
    );
}

#[test]
fn parse_u64_matches_std() {
    for s in ["0", "42", "+7", "", "+", "-1", "18446744073709551615", "18446744073709551616", "1a"] {
        assert_eq!(parse_u64(s), s.parse::<u64>().ok(), "{}", s);
    }
}
