use keyframe_indexer::csv_writer::{escape_csv_field, unescape_csv_field};
use keyframe_indexer::metadata_collector::{extract_monitor_id, MetadataCollector};
use keyframe_indexer::text::{levenshtein_distance, millionths_string, parse_millionths_chars};

#[test]
fn test_csv_escaping() {
    assert_eq!(escape_csv_field("simple"), "simple");
    assert_eq!(escape_csv_field("with,comma"), "\"with,comma\"");
    assert_eq!(escape_csv_field("with\"quote"), "\"with\"\"quote\"");

    assert_eq!(unescape_csv_field("simple"), "simple");
    assert_eq!(unescape_csv_field("\"with,comma\""), "with,comma");
    assert_eq!(unescape_csv_field("\"with\"\"quote\""), "with\"quote");
}

#[test]
fn csv_fields_read_back_as_written() {
    for field in ["", "plain", "a,b", "say \"hi\"", "line\nbreak", "\"\"", "\"", "a\"\"b,", "ünï,cödé"] {
        let written = escape_csv_field(field);
        assert_eq!(unescape_csv_field(&written), field);
    }
    assert_eq!(escape_csv_field("\""), "\"\"\"\"");
    assert_eq!(escape_csv_field("line\nbreak"), "\"line\nbreak\"");
    assert_eq!(unescape_csv_field("\"\""), "");
}

#[test]
fn test_levenshtein_distance() {
    assert_eq!(levenshtein_distance("hello", "hello"), 0);
    assert_eq!(levenshtein_distance("hello", "hallo"), 1);
    assert_eq!(levenshtein_distance("hello", ""), 5);
    assert_eq!(levenshtein_distance("", "world"), 5);
}

#[test]
fn levenshtein_counts_characters_not_bytes() {
    assert_eq!(levenshtein_distance("kitten", "sitting"), 3);
    assert_eq!(levenshtein_distance("flaw", "lawn"), 2);
    assert_eq!(levenshtein_distance("über", "uber"), 1);
    assert_eq!(levenshtein_distance("", ""), 0);
    assert_eq!(levenshtein_distance("abc", "cba"), 2);
}

#[test]
fn test_monitor_id_extraction() {
    let collector = MetadataCollector::new().unwrap();

    assert_eq!(collector.extract_monitor_id("segment_monitor1_123456"), 1);
    assert_eq!(collector.extract_monitor_id("segment_monitor2_789012"), 2);
    assert_eq!(collector.extract_monitor_id("segment_123456"), 0);
    assert_eq!(collector.extract_monitor_id("invalid_format"), 0);
}

#[test]
fn monitor_id_edge_cases() {
    assert_eq!(extract_monitor_id("monitor42"), 42);
    assert_eq!(extract_monitor_id("monitor-3_x"), -3);
    assert_eq!(extract_monitor_id("monitor+7"), 7);
    assert_eq!(extract_monitor_id("monitor"), 0);
    assert_eq!(extract_monitor_id("monitorx_monitor5"), 0);
    assert_eq!(extract_monitor_id("a_monitor007_b"), 7);
    assert_eq!(extract_monitor_id("monitor2147483647"), 2147483647);
    assert_eq!(extract_monitor_id("monitor2147483648"), 0);
    assert_eq!(extract_monitor_id("monitor-2147483648"), -2147483648);
    assert_eq!(extract_monitor_id(""), 0);
    assert_eq!(extract_monitor_id("x__monitor9"), 9);
}

#[test]
fn test_cache_management() {
    let mut collector = MetadataCollector::new().unwrap();

    // Test cache duration setting
    let new_duration = std::time::Duration::from_secs(5);
    collector.set_cache_duration(new_duration.as_nanos() as u64);
    assert_eq!(std::time::Duration::from_nanos(collector.cache_duration), new_duration);

    // Test cache clearing
    collector.clear_cache();
    assert!(collector.app_cache.is_none());
}

#[test]
fn remembered_application_is_used_while_fresh() {
    let mut collector = MetadataCollector::new().unwrap();
    assert_eq!(collector.cache_duration, 1_000_000_000);
    assert!(collector.cached_app_info(0).is_none());
    collector.remember_app_info("Editor".to_string(), "main.rs".to_string(), 5_000_000_000);
    assert_eq!(
        collector.cached_app_info(5_999_999_999),
        Some(("Editor".to_string(), "main.rs".to_string()))
    );
    assert!(collector.cached_app_info(6_000_000_000).is_none());
    // A clock that went backwards counts as no time passed.
    assert!(collector.cached_app_info(1).is_some());
    collector.clear_cache();
    assert!(collector.cached_app_info(5_000_000_001).is_none());
}

#[test]
fn millionths_are_written_and_read_as_decimal_fractions() {
    let cases: [(u32, &str); 9] = [
        (0, "0"),
        (5_500_000, "5.5"),
        (6_200_000, "6.2"),
        (7_000_000, "7"),
        (1, "0.000001"),
        (1_000_001, "1.000001"),
        (123_456, "0.123456"),
        (120_000, "0.12"),
        (u32::MAX, "4294.967295"),
    ];
    for (m, text) in cases {
        assert_eq!(millionths_string(m), text);
        assert_eq!(parse_millionths_chars(&text.chars().collect()), Some(m));
    }
    let read = |s: &str| parse_millionths_chars(&s.chars().collect());
    assert_eq!(read("5."), Some(5_000_000));
    assert_eq!(read("+2.50"), Some(2_500_000));
    // Digits behind the sixth place are dropped.
    assert_eq!(read("0.1234567"), Some(123_456));
    assert_eq!(read("0.0000009"), Some(0));
    assert_eq!(read("4294.967296"), None);
    assert_eq!(read("4295"), None);
    assert_eq!(read(""), None);
    assert_eq!(read(".5"), None);
    assert_eq!(read("1.2.3"), None);
    assert_eq!(read("1.x"), None);
    assert_eq!(read("-1"), None);
    assert_eq!(read("1e3"), None);
}
