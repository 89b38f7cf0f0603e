use wallet_sweeper::maintenance::{between_cycles_cleanup, get_memory_usage};

#[test]
fn memory_usage_is_the_second_field() {
    assert_eq!(get_memory_usage("12345 678 90 1 0 2 0\n"), Some(678));
    assert_eq!(get_memory_usage("  1\t+22   3"), Some(22));
    assert_eq!(get_memory_usage("a 007"), Some(7));
    assert_eq!(get_memory_usage("a 0"), Some(0));
}

#[test]
fn memory_usage_needs_two_fields() {
    assert_eq!(get_memory_usage(""), None);
    assert_eq!(get_memory_usage("   "), None);
    assert_eq!(get_memory_usage("12345"), None);
    assert_eq!(get_memory_usage("12345   "), None);
}

#[test]
fn memory_usage_needs_a_number() {
    assert_eq!(get_memory_usage("1 x"), None);
    assert_eq!(get_memory_usage("1 -5"), None);
    assert_eq!(get_memory_usage("1 +"), None);
    assert_eq!(get_memory_usage("1 5x 7"), None);
    assert_eq!(get_memory_usage("1 ٣"), None);
    assert_eq!(get_memory_usage("1 1_000"), None);
}

#[test]
fn memory_usage_agrees_with_the_standard_parser() {
    for line in ["5 18446744073709551615", "5 18446744073709551616", "5 99999999999999999999999", "5\u{2003}42\u{a0}7", "x +0", "1 ++1"] {
        let expected = line.split_whitespace().nth(1).and_then(|f| f.parse::<usize>().ok());
        assert_eq!(get_memory_usage(line), expected, "line {:?}", line);
    }
    assert_eq!(get_memory_usage("5 18446744073709551615"), Some(usize::MAX));
    assert_eq!(get_memory_usage("5\u{2003}42\u{a0}7"), Some(42));
}

#[test]
fn cleanup_reports_resident_memory_in_the_logged_unit() {
    let r = between_cycles_cleanup(Ok(()), Some("100 3145728 5"));
    assert_eq!(r.health_warning, None);
    assert_eq!(r.resident_mb, Some(3));
    let r = between_cycles_cleanup(Ok(()), Some("100 1048575 5"));
    assert_eq!(r.resident_mb, Some(0));
}

#[test]
fn cleanup_warns_of_a_failed_health_query() {
    let r = between_cycles_cleanup(Err("connection closed".to_string()), None);
    assert_eq!(
        r.health_warning,
        Some("Database connection health check failed: connection closed".to_string())
    );
    assert_eq!(r.resident_mb, None);
}

#[test]
fn cleanup_without_a_readable_line_reports_no_memory() {
    assert_eq!(between_cycles_cleanup(Ok(()), Some("garbage")).resident_mb, None);
    assert_eq!(between_cycles_cleanup(Ok(()), None).resident_mb, None);
}
