use try_rs::tokens::{date_prefix_of, expand_tokens, expand_tokens_with, rand_hex, signed_text};

#[test]
fn expand_tokens_no_tokens() {
    let name = "my-project";
    let result = expand_tokens(name);
    assert_eq!(result, "my-project");
}

#[test]
fn expand_tokens_date_only() {
    let name = "project-{date}";
    let result = expand_tokens(name);
    assert!(result.starts_with("project-"));
    assert!(result.len() > "project-".len());
    let date_part = &result["project-".len()..];
    assert!(date_part.len() == 10);
    assert!(date_part.chars().nth(4) == Some('-'));
    assert!(date_part.chars().nth(7) == Some('-'));
}

#[test]
fn expand_tokens_time_only() {
    let name = "backup-{time}";
    let result = expand_tokens(name);
    assert!(result.starts_with("backup-"));
    let time_part = &result["backup-".len()..];
    assert!(time_part.len() == 8);
    assert!(time_part.chars().nth(2) == Some('-'));
    assert!(time_part.chars().nth(5) == Some('-'));
}

#[test]
fn expand_tokens_ts_only() {
    let name = "snapshot-{ts}";
    let result = expand_tokens(name);
    assert!(result.starts_with("snapshot-"));
    let ts_part = &result["snapshot-".len()..];
    assert!(!ts_part.is_empty());
    assert!(ts_part.chars().all(|c| c.is_ascii_digit()));
}

#[test]
fn expand_tokens_rand_only() {
    let name = "tmp-{rand}";
    let result = expand_tokens(name);
    assert!(result.starts_with("tmp-"));
    let rand_part = &result["tmp-".len()..];
    assert_eq!(rand_part.len(), 6);
    assert!(rand_part.chars().all(|c| c.is_ascii_hexdigit()));
}

#[test]
fn expand_tokens_date_and_time() {
    let name = "{date}-{time}";
    let result = expand_tokens(name);
    assert_eq!(result.len(), 19);
    assert_eq!(&result[10..11], "-");
    assert!(result.chars().nth(4) == Some('-'));
    assert!(result.chars().nth(7) == Some('-'));
    assert!(result.chars().nth(13) == Some('-'));
    assert!(result.chars().nth(16) == Some('-'));
}

#[test]
fn expand_tokens_all_four_tokens() {
    let name = "{date}-{time}-{ts}-{rand}";
    let result = expand_tokens(name);
    assert!(result.len() > 10);
    let dash_count = result[0..10].chars().filter(|c| *c == '-').count();
    assert_eq!(dash_count, 2);
}

#[test]
fn expand_tokens_multiple_date_tokens() {
    let name = "{date}-backup-{date}";
    let result = expand_tokens(name);
    assert!(result.starts_with("20"));
    assert!(result.contains("-backup-20"));
}

#[test]
fn expand_tokens_multiple_rand_tokens() {
    let name = "{rand}-{rand}";
    let result = expand_tokens(name);
    let parts: Vec<&str> = result.split('-').collect();
    assert_eq!(parts.len(), 2);
    assert_eq!(parts[0].len(), 6);
    assert_eq!(parts[1].len(), 6);
}

#[test]
fn expand_tokens_literal_braces_no_match() {
    let name = "my-{unknown}-project";
    let result = expand_tokens(name);
    assert_eq!(result, "my-{unknown}-project");
}

#[test]
fn expand_tokens_case_sensitive() {
    let name = "{DATE}-{TIME}-{TS}-{RAND}";
    let result = expand_tokens(name);
    assert_eq!(result, "{DATE}-{TIME}-{TS}-{RAND}");
}

#[test]
fn expand_tokens_mixed_case_tokens() {
    let name = "{date}-{Time}-{ts}-{Rand}";
    let result = expand_tokens(name);
    assert!(result.contains("{Time}"));
    assert!(result.contains("{Rand}"));
}

#[test]
fn expand_tokens_empty_string() {
    let result = expand_tokens("");
    assert_eq!(result, "");
}

#[test]
fn expand_tokens_only_tokens() {
    let result = expand_tokens("{date}");
    assert_eq!(result.len(), 10);
}

#[test]
fn expand_tokens_complex_name() {
    let name = "project-{date}-v{ts}-{rand}";
    let result = expand_tokens(name);
    assert!(result.starts_with("project-20"));
    assert!(result.contains("-v"));
}

#[test]
fn expand_tokens_preserves_non_tokens() {
    let name = "my-awesome-{date}-project_test";
    let result = expand_tokens(name);
    assert!(result.starts_with("my-awesome-20"));
    assert!(result.ends_with("-project_test"));
}

#[test]
fn expand_tokens_rand_is_hex() {
    for _ in 0..10 {
        let result = expand_tokens("{rand}");
        for ch in result.chars() {
            assert!(ch.is_ascii_hexdigit(), "{} is not valid hex", ch);
        }
    }
}

#[test]
fn expand_tokens_date_format_valid() {
    let result = expand_tokens("{date}");
    let parts: Vec<&str> = result.split('-').collect();
    assert_eq!(parts.len(), 3);
    assert!(parts[0].parse::<u32>().is_ok());
    assert!(parts[1].parse::<u32>().is_ok());
    assert!(parts[2].parse::<u32>().is_ok());
}

#[test]
fn expand_tokens_time_format_valid() {
    let result = expand_tokens("{time}");
    let parts: Vec<&str> = result.split('-').collect();
    assert_eq!(parts.len(), 3);
    let hour: u32 = parts[0].parse().expect("valid hour");
    let minute: u32 = parts[1].parse().expect("valid minute");
    let second: u32 = parts[2].parse().expect("valid second");
    assert!(hour < 24);
    assert!(minute < 60);
    assert!(second < 60);
}

#[test]
fn expand_tokens_ts_is_positive() {
    let result = expand_tokens("{ts}");
    let ts: i64 = result.parse().expect("valid timestamp");
    assert!(ts > 0);
}

#[test]
fn expand_tokens_rand_hex_length() {
    for _ in 0..50 {
        let result = expand_tokens("{rand}");
        assert_eq!(
            result.len(),
            6,
            "rand token should produce exactly 6 hex chars"
        );
    }
}

#[test]
fn expand_tokens_with_given_values() {
    assert_eq!(
        expand_tokens_with("a-{date}-{time}-{ts}-{rand}-{date}", "2025-01-02", "03-04-05", 1700000000, [0x0a, 0xff, 0x00]),
        "a-2025-01-02-03-04-05-1700000000-0aff00-2025-01-02"
    );
    assert_eq!(expand_tokens_with("{ts}", "", "", -5, [0, 0, 0]), "-5");
}

#[test]
fn rand_hex_is_six_lowercase_digits() {
    assert_eq!(rand_hex([0xde, 0xad, 0x01]), "dead01");
    assert_eq!(rand_hex([0, 0, 0]), "000000");
    assert_eq!(signed_text(i64::MIN), "-9223372036854775808");
    assert_eq!(signed_text(42), "42");
}

#[test]
fn test_date_prefix_bonus() {
    assert!(date_prefix_of("2025-08-17-redis-experiment").is_some());
    assert!(date_prefix_of("2025-01-01-test").is_some());
    assert!(date_prefix_of("redis-experiment").is_none());
    assert!(date_prefix_of("2025-08-17").is_none());
    assert!(date_prefix_of("25-08-17-test").is_none());
}

#[test]
fn date_prefix_is_first_ten_characters() {
    assert_eq!(
        date_prefix_of("2025-08-17-test2"),
        Some("2025-08-17".to_string())
    );
}
