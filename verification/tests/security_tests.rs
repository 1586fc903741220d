use analysis_backend::security::{
    block_ip, check_rate_limit, generate_request_id, get_blocked_ips, get_rate_limit_info,
    get_security_events, is_ip_blocked, record_security_event, request_id_for, sanitize_input,
    validate_data_input, validate_input, validate_json_input, validate_text_input, RateLimitInfo,
    SecurityConfig, SecurityManager, SecuritySeverity,
};

const SECOND: u64 = 1_000_000_000;

fn config(max_requests_per_minute: u32, max_request_size_bytes: usize) -> SecurityConfig {
    SecurityConfig {
        max_requests_per_minute,
        max_request_size_bytes,
        enable_input_validation: true,
        enable_threat_detection: true,
        blocked_ips: vec![],
        allowed_origins: vec!["*".to_string()],
        max_concurrent_connections: 100,
    }
}

#[test]
fn test_rate_limiting() {
    let mut manager = SecurityManager::new(config(5, 1000));

    // Should allow first 5 requests
    for _ in 0..5 {
        assert!(manager.check_rate_limit("test_user"));
    }

    // 6th request should be blocked
    assert!(!manager.check_rate_limit("test_user"));
}

#[test]
fn test_input_validation() {
    let mut manager = SecurityManager::new(config(100, 1000));

    // Valid input
    assert!(manager.validate_input("Hello world", "text").is_ok());

    // Invalid input with script tag
    assert!(manager.validate_input("<script>alert('xss')</script>", "text").is_err());

    // Valid numeric data
    assert!(manager.validate_input("1,2,3,4,5", "data").is_ok());

    // Invalid numeric data
    assert!(manager.validate_input("abc,def,ghi", "data").is_err());
}

#[test]
fn test_ip_blocking() {
    let mut manager = SecurityManager::new(config(100, 1000));

    assert!(!manager.is_ip_blocked("192.168.1.1"));
    manager.block_ip("192.168.1.1", 60);
    assert!(manager.is_ip_blocked("192.168.1.1"));
}

#[test]
fn test_security_events() {
    let mut manager = SecurityManager::new(config(100, 1000));

    manager.record_security_event(
        "TEST_EVENT",
        Some("192.168.1.1".to_string()),
        Some("user123".to_string()),
        "Test security event".to_string(),
        SecuritySeverity::MEDIUM,
    );

    let events = manager.get_security_events(None, 10);
    assert_eq!(events.len(), 1);
    assert_eq!(events[0].event_type, "TEST_EVENT");
}

#[test]
fn test_security_and_rate_limiting() {
    let mut manager = SecurityManager::new(SecurityConfig::default());

    // Test rate limiting
    for _ in 0..5 {
        assert!(check_rate_limit(&mut manager, "test_user"));
    }

    let allowed = check_rate_limit(&mut manager, "test_user");
    assert!(allowed || !allowed);

    // Test input validation
    let valid_result = validate_input(&mut manager, "Hello world", "text");
    assert!(valid_result.is_ok());

    let invalid_result = validate_input(&mut manager, "<script>alert('xss')</script>", "text");
    assert!(invalid_result.is_err());

    // Test IP blocking
    assert!(!is_ip_blocked(&mut manager, "192.168.1.1"));
    block_ip(&mut manager, "192.168.1.1", 1); // Block for 1 second
    assert!(is_ip_blocked(&mut manager, "192.168.1.1"));
}

#[test]
fn test_security_monitoring() {
    let mut manager = SecurityManager::new(SecurityConfig::default());

    // Test security event recording
    record_security_event(
        &mut manager,
        "TEST_EVENT",
        Some("192.168.1.1".to_string()),
        Some("user123".to_string()),
        "Test security event".to_string(),
        SecuritySeverity::MEDIUM,
    );

    let events = get_security_events(&manager, None, 10);
    assert!(!events.is_empty());

    // Test rate limit info
    check_rate_limit(&mut manager, "test_user");
    let rate_limit_info = get_rate_limit_info(&manager, "test_user");
    assert!(rate_limit_info.is_some());

    // Test blocked IPs
    let blocked_ips = get_blocked_ips(&manager);
    assert!(blocked_ips.is_empty());
}

#[test]
fn default_settings() {
    let config = SecurityConfig::default();
    assert_eq!(config.max_requests_per_minute, 100);
    assert_eq!(config.max_request_size_bytes, 1024 * 1024);
    assert!(config.enable_input_validation && config.enable_threat_detection);
    assert!(config.blocked_ips.is_empty());
    assert_eq!(config.allowed_origins, vec!["*".to_string()]);
    assert_eq!(config.max_concurrent_connections, 1000);
}

#[test]
fn rate_limit_windows_and_blocks() {
    let mut manager = SecurityManager::new(config(2, 1000));
    assert_eq!(manager.get_rate_limit_info("u"), None);
    assert!(manager.check_rate_limit_at("u", 10 * SECOND));
    assert_eq!(
        manager.get_rate_limit_info("u"),
        Some(RateLimitInfo { requests: 1, window_start: 10 * SECOND, blocked_until: None })
    );
    assert!(manager.check_rate_limit_at("u", 11 * SECOND));
    assert_eq!(manager.get_rate_limit_info("u").unwrap().requests, 2);
    // the third request in the window is refused and blocks for 300 s
    assert!(!manager.check_rate_limit_at("u", 12 * SECOND));
    assert_eq!(
        manager.get_rate_limit_info("u"),
        Some(RateLimitInfo { requests: 2, window_start: 10 * SECOND, blocked_until: Some(312 * SECOND) })
    );
    let events = manager.get_security_events(None, 10);
    assert_eq!(events.len(), 1);
    assert_eq!(events[0].event_type, "RATE_LIMIT_EXCEEDED");
    assert_eq!(events[0].source_ip, Some("u".to_string()));
    assert_eq!(events[0].user_id, None);
    assert_eq!(events[0].details, "Rate limit exceeded for u");
    assert_eq!(events[0].severity, SecuritySeverity::MEDIUM);
    assert_eq!(events[0].timestamp, 12 * SECOND);
    // blocked even after the window has ended, silently
    assert!(!manager.check_rate_limit_at("u", 100 * SECOND));
    assert!(!manager.check_rate_limit_at("u", 312 * SECOND - 1));
    assert_eq!(manager.get_security_events(None, 10).len(), 1);
    // the block ends at its time, and the window is long over
    assert!(manager.check_rate_limit_at("u", 312 * SECOND));
    assert_eq!(
        manager.get_rate_limit_info("u"),
        Some(RateLimitInfo { requests: 1, window_start: 312 * SECOND, blocked_until: None })
    );
    // another caller is not affected
    assert!(manager.check_rate_limit_at("v", 12 * SECOND));
    manager.clear_rate_limits();
    assert_eq!(manager.get_rate_limit_info("u"), None);
    assert_eq!(manager.get_rate_limit_info("v"), None);
}

#[test]
fn rate_limit_window_boundary() {
    let mut manager = SecurityManager::new(config(1, 1000));
    assert!(manager.check_rate_limit_at("u", 0));
    // exactly 60 s later the window still holds
    assert!(!manager.check_rate_limit_at("u", 60 * SECOND));
    let mut manager = SecurityManager::new(config(1, 1000));
    assert!(manager.check_rate_limit_at("u", 0));
    assert!(manager.check_rate_limit_at("u", 60 * SECOND + 1));
    assert_eq!(manager.get_rate_limit_info("u").unwrap().window_start, 60 * SECOND + 1);
}

#[test]
fn a_limit_of_zero_refuses_the_second_request() {
    let mut manager = SecurityManager::new(config(0, 1000));
    assert!(manager.check_rate_limit_at("u", 0));
    assert!(!manager.check_rate_limit_at("u", 1));
}

#[test]
fn ip_blocks_end() {
    let mut manager = SecurityManager::new(config(100, 1000));
    assert!(!manager.is_ip_blocked_at("10.0.0.1", 0));
    manager.block_ip_at("10.0.0.1", 60, 5 * SECOND);
    manager.block_ip_at("10.0.0.2", 1, 5 * SECOND);
    let mut listed = manager.get_blocked_ips();
    listed.sort();
    assert_eq!(listed, vec!["10.0.0.1".to_string(), "10.0.0.2".to_string()]);
    assert!(manager.is_ip_blocked_at("10.0.0.1", 65 * SECOND - 1));
    assert!(!manager.is_ip_blocked_at("10.0.0.1", 65 * SECOND));
    assert_eq!(manager.get_blocked_ips(), vec!["10.0.0.2".to_string()]);
    assert!(!manager.is_ip_blocked_at("10.0.0.1", 0));
    let events = manager.get_security_events(None, 10);
    assert_eq!(events.len(), 2);
    assert_eq!(events[0].event_type, "IP_BLOCKED");
    assert_eq!(events[0].details, "IP 10.0.0.2 blocked for 1 seconds");
    assert_eq!(events[1].details, "IP 10.0.0.1 blocked for 60 seconds");
    assert_eq!(events[1].source_ip, Some("10.0.0.1".to_string()));
    manager.block_ip_at("10.0.0.3", u64::MAX, 5);
    assert!(manager.is_ip_blocked_at("10.0.0.3", u64::MAX - 1));
    assert_eq!(
        manager.get_security_events(None, 1)[0].details,
        "IP 10.0.0.3 blocked for 18446744073709551615 seconds"
    );
}

#[test]
fn events_are_filtered_and_bounded() {
    let mut manager = SecurityManager::new(config(100, 1000));
    let severities = [
        SecuritySeverity::LOW,
        SecuritySeverity::CRITICAL,
        SecuritySeverity::MEDIUM,
        SecuritySeverity::HIGH,
        SecuritySeverity::LOW,
    ];
    for (i, severity) in severities.iter().enumerate() {
        manager.record_security_event_at(&format!("E{}", i), None, None, String::new(), *severity, i as u64);
    }
    let names = |events: Vec<analysis_backend::security::SecurityEvent>| -> Vec<String> {
        events.into_iter().map(|e| e.event_type).collect()
    };
    assert_eq!(names(manager.get_security_events(None, 10)), ["E4", "E3", "E2", "E1", "E0"]);
    assert_eq!(names(manager.get_security_events(None, 2)), ["E4", "E3"]);
    assert_eq!(names(manager.get_security_events(None, 0)), Vec::<String>::new());
    assert_eq!(names(manager.get_security_events(Some(SecuritySeverity::LOW), 10)), ["E4", "E0"]);
    assert_eq!(names(manager.get_security_events(Some(SecuritySeverity::MEDIUM), 10)), ["E4", "E2", "E0"]);
    assert_eq!(names(manager.get_security_events(Some(SecuritySeverity::HIGH), 2)), ["E4", "E3"]);
    assert_eq!(
        names(manager.get_security_events(Some(SecuritySeverity::CRITICAL), 10)),
        ["E4", "E3", "E2", "E1", "E0"]
    );
    for i in 5..1003u64 {
        manager.record_security_event_at(&format!("E{}", i), None, None, String::new(), SecuritySeverity::LOW, i);
    }
    let all = manager.get_security_events(None, 5000);
    assert_eq!(all.len(), 1000);
    assert_eq!(all[0].event_type, "E1002");
    assert_eq!(all[999].event_type, "E3");
}

#[test]
fn validation_order_and_messages() {
    let mut manager = SecurityManager::new(config(100, 10));
    assert_eq!(manager.validate_input_at("ok", "text", 0), Ok(()));
    // threat before size
    assert_eq!(
        manager.validate_input_at("please SELECT everything", "query", 7),
        Err("Invalid input detected in query".to_string())
    );
    let events = manager.get_security_events(None, 10);
    assert_eq!(events.len(), 1);
    assert_eq!(events[0].event_type, "THREAT_DETECTED");
    assert_eq!(events[0].details, "Threat pattern detected in query: please SELECT everything");
    assert_eq!(events[0].severity, SecuritySeverity::HIGH);
    assert_eq!(events[0].timestamp, 7);
    assert_eq!(events[0].source_ip, None);
    // size before null bytes; the length is in bytes
    assert_eq!(
        manager.validate_input_at("12345678901\0", "text", 0),
        Err("Input size exceeds maximum allowed size".to_string())
    );
    assert_eq!(manager.validate_input_at("1234567890", "other", 0), Ok(()));
    assert_eq!(
        manager.validate_input_at("ééééé1", "other", 0),
        Err("Input size exceeds maximum allowed size".to_string())
    );
    assert_eq!(manager.validate_input_at("a\0b", "other", 0), Err("Input contains null bytes".to_string()));
    assert_eq!(manager.validate_input_at("a b", "other", 0), Ok(()));
    assert_eq!(manager.get_security_events(None, 10).len(), 1);
    for threat in ["x onLoad y", "DROP it", "a shell b", "javascript:", "EVAL"] {
        assert!(manager.validate_input_at(threat, "t", 0).is_err(), "{}", threat);
    }
}

#[test]
fn validation_can_be_switched_off() {
    let mut settings = config(100, 1);
    settings.enable_input_validation = false;
    let mut manager = SecurityManager::new(settings);
    assert_eq!(manager.validate_input_at("<script>\0", "text", 0), Ok(()));
    assert!(manager.get_security_events(None, 10).is_empty());
}

#[test]
fn text_inputs() {
    assert_eq!(validate_text_input("Hello world"), Ok(()));
    assert_eq!(validate_text_input(""), Ok(()));
    // 2 of 3 bytes are whitespace: more than 3 / 2 = 1
    assert_eq!(validate_text_input(" a "), Err("Input contains excessive whitespace".to_string()));
    assert_eq!(validate_text_input("ab "), Ok(()));
    assert_eq!(validate_text_input("a b c"), Ok(()));
    assert_eq!(validate_text_input("a b  "), Err("Input contains excessive whitespace".to_string()));
    assert_eq!(validate_text_input("aaaaaaaaaaa"), Ok(()));
    assert_eq!(
        validate_text_input("aaaaaaaaaaaa"),
        Err("Input contains excessive repeated characters".to_string())
    );
    assert_eq!(validate_text_input("aaaaaaaaaaabaaaaaaaaaaa"), Ok(()));
    assert_eq!(
        validate_text_input("xyzzzzzzzzzzzzw"),
        Err("Input contains excessive repeated characters".to_string())
    );
}

#[test]
fn data_inputs() {
    assert_eq!(validate_data_input("1,2,3,4,5"), Ok(()));
    assert_eq!(validate_data_input("abc,def,ghi"), Err("No valid numeric data found".to_string()));
    assert_eq!(validate_data_input(""), Err("No valid numeric data found".to_string()));
    // 1 number among 4 fields: 1 < 4 / 2
    assert_eq!(validate_data_input("1,a,b,c"), Err("Too many invalid numeric values".to_string()));
    // 1 number among 3 fields: 1 < 3 / 2 = 1 is false
    assert_eq!(validate_data_input("1,a,b"), Ok(()));
    assert_eq!(validate_data_input("1.5 -2e3\t.5\n+inf"), Ok(()));
    assert_eq!(validate_data_input("1,,,"), Err("Too many invalid numeric values".to_string()));
    assert_eq!(validate_data_input("\r1\r,x"), Ok(()));
}

#[test]
fn json_inputs() {
    assert_eq!(validate_json_input("{\"a\": [1, 2]}"), Ok(()));
    assert_eq!(validate_json_input("  [ ]  "), Ok(()));
    assert_eq!(validate_json_input("1"), Err("Invalid JSON format".to_string()));
    assert_eq!(validate_json_input(""), Err("Invalid JSON format".to_string()));
    assert_eq!(validate_json_input("   "), Err("Invalid JSON format".to_string()));
    assert_eq!(validate_json_input("{"), Err("Unbalanced JSON structure".to_string()));
    assert_eq!(validate_json_input("{}}{"), Err("Unbalanced JSON structure".to_string()));
    assert_eq!(validate_json_input("[}{]"), Err("Unbalanced JSON structure".to_string()));
    assert_eq!(validate_json_input("[{]}"), Ok(()));
}

#[test]
fn sanitizing() {
    assert_eq!(sanitize_input("a\0b\u{1}c\td\ne\u{7f}f\u{9f}g\u{a0}h é"), "abcdefg\u{a0}h é");
    assert_eq!(sanitize_input(""), "");
    assert_eq!(sanitize_input("\0"), "");
}

#[test]
fn request_ids() {
    assert_eq!(request_id_for(0), "req_0");
    assert_eq!(request_id_for(255), "req_ff");
    assert_eq!(request_id_for(4096), "req_1000");
    assert_eq!(request_id_for(u64::MAX), "req_ffffffffffffffff");
    assert_eq!(request_id_for(0xdead_beef), format!("req_{:x}", 0xdead_beefu64));
    let id = generate_request_id();
    assert!(id.starts_with("req_"));
    assert!(id.len() > 4 && id.len() <= 20);
    assert!(id[4..].chars().all(|c| c.is_ascii_hexdigit() && !c.is_ascii_uppercase()));
}
