use analysis_backend::performance::{
    get_performance_profiles, optimize_data_processing, optimize_text_processing,
    record_operation_performance, OperationCounts, PerformanceOptimizer,
};

#[test]
fn test_performance_recording() {
    let mut optimizer = PerformanceOptimizer::new();
    record_operation_performance(&mut optimizer, "test_operation", 100, true, true);
    record_operation_performance(&mut optimizer, "test_operation", 200, false, true);

    let profiles = get_performance_profiles(&optimizer);
    assert!(!profiles.is_empty());

    let profile = profiles.iter().find(|p| p.operation_name == "test_operation").unwrap();
    assert_eq!(profile.counts.total_calls, 2);
    // an average of 150 ms
    assert_eq!(profile.counts.total_duration_ms, 2 * 150);
}

#[test]
fn test_text_optimization() {
    let input = "  Hello   world  \n\n  test  ";
    let optimized = optimize_text_processing(input);
    assert_eq!(optimized, "Hello world test");
}

#[test]
fn test_data_optimization() {
    let input = "1, 2, 3, 4, 5";
    let optimized = optimize_data_processing(input);
    assert_eq!(optimized, "1,2,3,4,5");
}

#[test]
fn test_performance_optimization() {
    // Test text optimization
    let input = "  Hello   world  \n\n  test  ";
    let optimized = optimize_text_processing(input);
    assert_eq!(optimized, "Hello world test");

    // Test data optimization
    let data_input = "1, 2, 3, 4, 5";
    let optimized_data = optimize_data_processing(data_input);
    assert_eq!(optimized_data, "1,2,3,4,5");

    // Test performance recording
    let mut optimizer = PerformanceOptimizer::new();
    record_operation_performance(&mut optimizer, "test_op", 100, true, true);
    let profiles = get_performance_profiles(&optimizer);
    assert!(!profiles.is_empty());

    let profile = profiles.iter().find(|p| p.operation_name == "test_op").unwrap();
    assert_eq!(profile.counts.total_calls, 1);
    assert_eq!(profile.counts.total_duration_ms, 100);
}

#[test]
fn counts_of_operations() {
    let mut optimizer = PerformanceOptimizer::new();
    optimizer.record_operation("a", 500, false, false);
    optimizer.record_operation("b", 7, true, true);
    optimizer.record_operation("a", 2000, true, true);
    optimizer.record_operation("a", u64::MAX, false, true);
    let profiles = optimizer.get_performance_profiles();
    assert_eq!(profiles.len(), 2);
    let a = profiles.iter().find(|p| p.operation_name == "a").unwrap().counts;
    assert_eq!(
        a,
        OperationCounts {
            total_calls: 3,
            total_duration_ms: 2500 + u64::MAX as u128,
            min_duration_ms: 500,
            max_duration_ms: u64::MAX,
            cache_hits: 1,
            errors: 1,
        }
    );
    assert!(a.is_slow() && a.has_low_hit_rate() && a.has_high_error_rate());
    let b = profiles.iter().find(|p| p.operation_name == "b").unwrap().counts;
    assert_eq!(
        b,
        OperationCounts {
            total_calls: 1,
            total_duration_ms: 7,
            min_duration_ms: 7,
            max_duration_ms: 7,
            cache_hits: 1,
            errors: 0
        }
    );
    assert!(!b.is_slow() && !b.has_low_hit_rate() && !b.has_high_error_rate());
}

#[test]
fn the_rules_at_their_bounds() {
    let counts = |total_calls, total_duration_ms, cache_hits, errors| OperationCounts {
        total_calls,
        total_duration_ms,
        min_duration_ms: 0,
        max_duration_ms: 0,
        cache_hits,
        errors,
    };
    assert!(!counts(2, 2000, 1, 0).is_slow());
    assert!(counts(2, 2001, 1, 0).is_slow());
    assert!(!counts(2, 0, 1, 0).has_low_hit_rate());
    assert!(counts(3, 0, 1, 0).has_low_hit_rate());
    assert!(!counts(10, 0, 0, 1).has_high_error_rate());
    assert!(counts(9, 0, 0, 1).has_high_error_rate());
}

#[test]
fn tidying() {
    let optimizer = PerformanceOptimizer::new();
    assert_eq!(optimizer.optimize_text_processing(""), "");
    assert_eq!(optimizer.optimize_text_processing(" \t\n "), "");
    assert_eq!(optimizer.optimize_text_processing("a"), "a");
    assert_eq!(optimizer.optimize_text_processing("a\u{a0}b\r\nc\t\td"), "a b c d");
    assert_eq!(optimizer.optimize_data_processing(""), "");
    assert_eq!(optimizer.optimize_data_processing(",, ,\n\t"), "");
    assert_eq!(optimizer.optimize_data_processing("1,,2 \r3\r\n x "), "1,2,3,x");
    assert_eq!(optimizer.optimize_data_processing("7"), "7");
}
