use analysis_backend::logging::{
    critical, debug, error, get_performance_metrics, get_recent_logs, get_system_health, info,
    record_performance, warn, LogLevel, Logger, MetricsCollector,
};

#[test]
fn test_logging() {
    let mut logger = Logger::new();
    info(&mut logger, "Test info message", "test", "test_function", 1);
    warn(&mut logger, "Test warning message", "test", "test_function", 2);
    error(&mut logger, "Test error message", "test", "test_function", 3);

    let logs = get_recent_logs(&logger, None, 10);
    assert!(!logs.is_empty());
}

#[test]
fn test_performance_monitoring() {
    let mut metrics = MetricsCollector::new();
    record_performance(&mut metrics, "test_operation", 100, true, None);
    record_performance(&mut metrics, "test_operation", 200, false, Some("Test error".to_string()));

    let found = get_performance_metrics(&metrics, Some("test_operation"), 10);
    assert_eq!(found.len(), 2);
}

#[test]
fn test_system_health() {
    let metrics = MetricsCollector::new();
    let health = get_system_health(&metrics);
    assert!(!health.status.is_empty());
    assert_eq!(health.uptime_seconds, 0);
}

#[test]
fn test_logging_and_monitoring() {
    let mut logger = Logger::new();
    let mut metrics = MetricsCollector::new();

    // Test logging
    info(&mut logger, "Test info message", "test", "test_function", 1);
    warn(&mut logger, "Test warning message", "test", "test_function", 2);
    error(&mut logger, "Test error message", "test", "test_function", 3);

    let logs = get_recent_logs(&logger, None, 10);
    assert!(!logs.is_empty());

    // Test performance monitoring
    record_performance(&mut metrics, "test_operation", 100, true, None);
    record_performance(&mut metrics, "test_operation", 200, false, Some("Test error".to_string()));

    let found = get_performance_metrics(&metrics, Some("test_operation"), 10);
    assert_eq!(found.len(), 2);

    // Test system health
    let health = get_system_health(&metrics);
    assert!(!health.status.is_empty());
}

#[test]
fn the_threshold_keeps_lower_levels_out() {
    let mut logger = Logger::new();
    assert!(!debug(&mut logger, "d", "m", "f", 1));
    assert!(info(&mut logger, "i", "m", "f", 2));
    assert!(warn(&mut logger, "w", "m", "f", 3));
    assert!(error(&mut logger, "e", "m", "f", 4));
    assert!(critical(&mut logger, "c", "m", "f", 5));
    assert!(!logger.should_log(&LogLevel::DEBUG));
    assert!(logger.should_log(&LogLevel::INFO));
    assert!(logger.should_log(&LogLevel::CRITICAL));
    let all = logger.get_entries(None, 10);
    let messages: Vec<&str> = all.iter().map(|e| e.message.as_str()).collect();
    assert_eq!(messages, ["c", "e", "w", "i"]);
    assert_eq!(all[0].level, LogLevel::CRITICAL);
    assert_eq!((all[3].module.as_str(), all[3].function.as_str(), all[3].line), ("m", "f", 2));
    assert_eq!((&all[3].user_id, &all[3].request_id, all[3].duration_ms), (&None, &None, None));
}

#[test]
fn entries_are_filtered_by_level_and_limit() {
    let mut logger = Logger::new();
    let levels = [LogLevel::INFO, LogLevel::CRITICAL, LogLevel::WARN, LogLevel::ERROR, LogLevel::INFO];
    for (i, level) in levels.iter().enumerate() {
        assert!(logger.log_at(*level, &format!("m{}", i), "mod", "fun", i as u32, 1000 + i as i64));
    }
    let messages = |entries: Vec<analysis_backend::logging::LogEntry>| -> Vec<String> {
        entries.into_iter().map(|e| e.message).collect()
    };
    assert_eq!(messages(logger.get_entries(None, 3)), ["m4", "m3", "m2"]);
    assert_eq!(messages(logger.get_entries(Some(LogLevel::DEBUG), 10)), Vec::<String>::new());
    assert_eq!(messages(logger.get_entries(Some(LogLevel::INFO), 10)), ["m4", "m0"]);
    assert_eq!(messages(logger.get_entries(Some(LogLevel::WARN), 10)), ["m4", "m2", "m0"]);
    assert_eq!(messages(logger.get_entries(Some(LogLevel::ERROR), 2)), ["m4", "m3"]);
    assert_eq!(messages(logger.get_entries(Some(LogLevel::CRITICAL), 10)), ["m4", "m3", "m2", "m1", "m0"]);
    assert_eq!(logger.get_entries(None, 1)[0].timestamp, 1004);
    logger.clear_entries();
    assert!(logger.get_entries(None, 10).is_empty());
}

#[test]
fn the_log_keeps_its_newest_entries() {
    let mut logger = Logger::new();
    for i in 0..10_003u32 {
        assert!(logger.log_at(LogLevel::ERROR, "x", "m", "f", i, 0));
    }
    let all = logger.get_entries(None, 20_000);
    assert_eq!(all.len(), 10_000);
    assert_eq!(all[0].line, 10_002);
    assert_eq!(all[9_999].line, 3);
}

#[test]
fn health_looks_back_five_minutes() {
    let mut metrics = MetricsCollector::new();
    let start = get_system_health(&metrics);
    assert_eq!(start.status, "healthy");
    assert_eq!((start.recent_requests, start.recent_errors, start.recent_duration_ms), (0, 0, 0));
    // 19 successes and 1 failure: 1 in 20 is not fewer than 1 in 20
    for i in 0..19 {
        metrics.record_metric_at("op", 10, true, None, 1_000 + i, 7);
        assert_eq!(get_system_health(&metrics).status, "healthy");
    }
    metrics.record_metric_at("op", 30, false, Some("boom".to_string()), 2_000, 8);
    let health = metrics.get_system_health();
    assert_eq!(health.status, "degraded");
    assert_eq!(health.uptime_seconds, 8);
    assert_eq!((health.recent_requests, health.recent_errors, health.recent_duration_ms), (20, 1, 220));
    // one more success: 1 in 21
    metrics.record_metric_at("other", 5, true, None, 2_001, 9);
    let health = metrics.get_system_health();
    assert_eq!(health.status, "healthy");
    assert_eq!((health.recent_requests, health.recent_errors, health.recent_duration_ms), (21, 1, 225));
    // five minutes after the failure, it no longer counts; what is exactly
    // five minutes old does not count either
    metrics.record_metric_at("late", 1, false, None, 302_000, 10);
    let health = metrics.get_system_health();
    assert_eq!((health.recent_requests, health.recent_errors, health.recent_duration_ms), (2, 1, 6));
    assert_eq!(health.status, "degraded");
    let found = metrics.get_metrics(Some("op"), 2);
    assert_eq!(found.len(), 2);
    assert_eq!((found[0].duration_ms, found[0].success), (30, false));
    assert_eq!(found[0].error_message, Some("boom".to_string()));
    assert_eq!(found[1].timestamp, 1_018);
    assert_eq!(metrics.get_metrics(None, 100).len(), 22);
    assert_eq!(metrics.get_metrics(Some("none"), 100).len(), 0);
    assert_eq!(metrics.get_metrics(Some("late"), 100)[0].resource_usage.memory_mb, 0);
}

#[test]
fn extreme_times_and_durations() {
    let mut metrics = MetricsCollector::new();
    metrics.record_metric_at("a", u64::MAX, true, None, i64::MIN, 0);
    metrics.record_metric_at("a", u64::MAX, true, None, i64::MIN + 1, 0);
    let health = metrics.get_system_health();
    assert_eq!(health.recent_requests, 2);
    assert_eq!(health.recent_duration_ms, 2 * (u64::MAX as u128));
    metrics.record_metric_at("a", 1, true, None, i64::MAX, u64::MAX);
    let health = metrics.get_system_health();
    assert_eq!((health.recent_requests, health.recent_duration_ms, health.uptime_seconds), (1, 1, u64::MAX));
}
