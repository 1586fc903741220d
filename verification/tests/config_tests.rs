use analysis_backend::config::AppConfig;

#[test]
fn test_default_config() {
    let config = AppConfig::default();
    assert!(config.analysis.max_text_length > 0);
    assert!(config.performance.worker_threads > 0);
    assert!(config.validate_config().is_ok());
}

#[test]
fn test_config_validation() {
    let mut config = AppConfig::default();
    config.analysis.max_text_length = 0;
    assert!(config.validate_config().is_err());
}

#[test]
fn test_environment_detection() {
    let config = AppConfig::default();
    assert!(!config.is_production());
}

#[test]
fn test_configuration_management() {
    // Test default configuration
    let config = AppConfig::default();
    assert!(config.analysis.max_text_length > 0);
    assert!(config.performance.worker_threads > 0);
    assert!(config.validate_config().is_ok());

    // Test configuration validation
    let mut invalid_config = AppConfig::default();
    invalid_config.analysis.max_text_length = 0;
    assert!(invalid_config.validate_config().is_err());

    // Test environment detection
    assert!(!config.is_production()); // Should be development by default
}

#[test]
fn default_values() {
    let config = AppConfig::default();
    assert_eq!(config.analysis.max_text_length, 10000);
    assert_eq!(config.analysis.max_data_points, 10000);
    assert_eq!(config.analysis.sentiment_threshold, 200);
    assert_eq!(config.analysis.language_confidence_threshold, 700);
    assert_eq!(config.analysis.plagiarism_threshold, 800);
    assert_eq!(config.analysis.cache_ttl_seconds, 3600);
    assert_eq!(config.analysis.rate_limit_requests_per_minute, 100);
    assert_eq!(config.analysis.log_level, "info");
    assert_eq!(
        config.analysis.allowed_languages,
        ["en", "es", "fr", "de", "it", "pt", "ru", "zh", "ja", "ko", "ar", "hi", "fa"]
    );
    assert!(config.analysis.custom_stop_words.is_empty() && config.analysis.api_keys.is_empty());
    assert_eq!(config.security.key_rotation_days, 30);
    assert_eq!(config.security.max_key_age_days, 90);
    assert_eq!(config.security.allowed_origins, ["*"]);
    assert_eq!(config.security.max_request_size_bytes, 1024 * 1024);
    assert_eq!(config.performance.max_concurrent_requests, 100);
    assert_eq!(config.performance.memory_limit_mb, 512);
    assert_eq!(config.performance.timeout_seconds, 30);
    assert!(!config.performance.enable_profiling);
    assert_eq!(config.performance.cache_size_mb, 100);
    assert_eq!(config.environment, "development");
}

#[test]
fn every_fault_is_listed_in_order() {
    let mut config = AppConfig::default();
    config.analysis.max_text_length = 0;
    config.analysis.max_data_points = 0;
    config.performance.worker_threads = 0;
    config.performance.memory_limit_mb = 0;
    assert_eq!(
        config.validate_config(),
        Err(vec![
            "max_text_length must be greater than 0".to_string(),
            "max_data_points must be greater than 0".to_string(),
            "worker_threads must be greater than 0".to_string(),
            "memory_limit_mb must be greater than 0".to_string(),
        ])
    );
    config.analysis.max_data_points = 1;
    config.performance.worker_threads = 1;
    assert_eq!(
        config.validate_config(),
        Err(vec![
            "max_text_length must be greater than 0".to_string(),
            "memory_limit_mb must be greater than 0".to_string(),
        ])
    );
    config.environment = "production".to_string();
    assert!(config.is_production());
    config.environment = "Production".to_string();
    assert!(!config.is_production());
}
