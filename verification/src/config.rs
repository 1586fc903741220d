//! The settings of a service, their defaults, and the rules they must meet.
//!
//! Thresholds that are fractions are held in thousandths.

use crate::text::{copy_pairs, copy_strings, pair_views, same_text, string_views};
use vstd::prelude::*;

verus! {

/// `num_cpus::get`: the number of processors that the process may use, which
/// is at least one.
pub assume_specification[ num_cpus::get ]() -> (count: usize)
    ensures
        count >= 1,
;

/// Settings of the analysis.
#[derive(Debug)]
pub struct AnalysisConfig {
    pub max_text_length: usize,
    pub max_data_points: usize,
    /// In thousandths.
    pub sentiment_threshold: u32,
    /// In thousandths.
    pub language_confidence_threshold: u32,
    /// In thousandths.
    pub plagiarism_threshold: u32,
    pub cache_enabled: bool,
    pub cache_ttl_seconds: u64,
    pub rate_limit_requests_per_minute: u32,
    pub enable_logging: bool,
    pub log_level: String,
    pub performance_monitoring: bool,
    pub security_enabled: bool,
    pub allowed_languages: Vec<String>,
    pub custom_stop_words: Vec<String>,
    pub api_keys: Vec<(String, String)>,
}

/// Settings of the guards.
#[derive(Debug)]
pub struct SecurityConfig {
    pub encryption_enabled: bool,
    pub key_rotation_days: u32,
    pub max_key_age_days: u32,
    pub allowed_origins: Vec<String>,
    pub rate_limit_enabled: bool,
    pub max_request_size_bytes: usize,
}

/// Settings of the machine's use.
#[derive(Clone, Copy, Debug, PartialEq, Eq, Structural)]
pub struct PerformanceConfig {
    pub max_concurrent_requests: usize,
    pub worker_threads: usize,
    pub memory_limit_mb: usize,
    pub timeout_seconds: u64,
    pub enable_profiling: bool,
    pub cache_size_mb: usize,
}

/// All settings of a service.
#[derive(Debug)]
pub struct AppConfig {
    pub analysis: AnalysisConfig,
    pub security: SecurityConfig,
    pub performance: PerformanceConfig,
    pub environment: String,
    pub version: String,
}

/// The settings of the analysis with their texts as sequences of
/// characters.
pub struct AnalysisConfigView {
    pub max_text_length: usize,
    pub max_data_points: usize,
    pub sentiment_threshold: u32,
    pub language_confidence_threshold: u32,
    pub plagiarism_threshold: u32,
    pub cache_enabled: bool,
    pub cache_ttl_seconds: u64,
    pub rate_limit_requests_per_minute: u32,
    pub enable_logging: bool,
    pub log_level: Seq<char>,
    pub performance_monitoring: bool,
    pub security_enabled: bool,
    pub allowed_languages: Seq<Seq<char>>,
    pub custom_stop_words: Seq<Seq<char>>,
    pub api_keys: Seq<(Seq<char>, Seq<char>)>,
}

impl View for AnalysisConfig {
    type V = AnalysisConfigView;

    open spec fn view(&self) -> AnalysisConfigView {
        AnalysisConfigView {
            max_text_length: self.max_text_length,
            max_data_points: self.max_data_points,
            sentiment_threshold: self.sentiment_threshold,
            language_confidence_threshold: self.language_confidence_threshold,
            plagiarism_threshold: self.plagiarism_threshold,
            cache_enabled: self.cache_enabled,
            cache_ttl_seconds: self.cache_ttl_seconds,
            rate_limit_requests_per_minute: self.rate_limit_requests_per_minute,
            enable_logging: self.enable_logging,
            log_level: self.log_level@,
            performance_monitoring: self.performance_monitoring,
            security_enabled: self.security_enabled,
            allowed_languages: string_views(self.allowed_languages@),
            custom_stop_words: string_views(self.custom_stop_words@),
            api_keys: pair_views(self.api_keys@),
        }
    }
}

impl Clone for AnalysisConfig {
    fn clone(&self) -> (copy: Self)
        ensures
            copy@ == self@,
    {
        AnalysisConfig {
            max_text_length: self.max_text_length,
            max_data_points: self.max_data_points,
            sentiment_threshold: self.sentiment_threshold,
            language_confidence_threshold: self.language_confidence_threshold,
            plagiarism_threshold: self.plagiarism_threshold,
            cache_enabled: self.cache_enabled,
            cache_ttl_seconds: self.cache_ttl_seconds,
            rate_limit_requests_per_minute: self.rate_limit_requests_per_minute,
            enable_logging: self.enable_logging,
            log_level: self.log_level.clone(),
            performance_monitoring: self.performance_monitoring,
            security_enabled: self.security_enabled,
            allowed_languages: copy_strings(&self.allowed_languages),
            custom_stop_words: copy_strings(&self.custom_stop_words),
            api_keys: copy_pairs(&self.api_keys),
        }
    }
}

/// The settings of the guards with their texts as sequences of characters.
pub struct SecurityConfigView {
    pub encryption_enabled: bool,
    pub key_rotation_days: u32,
    pub max_key_age_days: u32,
    pub allowed_origins: Seq<Seq<char>>,
    pub rate_limit_enabled: bool,
    pub max_request_size_bytes: usize,
}

impl View for SecurityConfig {
    type V = SecurityConfigView;

    open spec fn view(&self) -> SecurityConfigView {
        SecurityConfigView {
            encryption_enabled: self.encryption_enabled,
            key_rotation_days: self.key_rotation_days,
            max_key_age_days: self.max_key_age_days,
            allowed_origins: string_views(self.allowed_origins@),
            rate_limit_enabled: self.rate_limit_enabled,
            max_request_size_bytes: self.max_request_size_bytes,
        }
    }
}

impl Clone for SecurityConfig {
    fn clone(&self) -> (copy: Self)
        ensures
            copy@ == self@,
    {
        SecurityConfig {
            encryption_enabled: self.encryption_enabled,
            key_rotation_days: self.key_rotation_days,
            max_key_age_days: self.max_key_age_days,
            allowed_origins: copy_strings(&self.allowed_origins),
            rate_limit_enabled: self.rate_limit_enabled,
            max_request_size_bytes: self.max_request_size_bytes,
        }
    }
}

/// All settings with their texts as sequences of characters.
pub struct AppConfigView {
    pub analysis: AnalysisConfigView,
    pub security: SecurityConfigView,
    pub performance: PerformanceConfig,
    pub environment: Seq<char>,
    pub version: Seq<char>,
}

impl View for AppConfig {
    type V = AppConfigView;

    open spec fn view(&self) -> AppConfigView {
        AppConfigView {
            analysis: self.analysis@,
            security: self.security@,
            performance: self.performance,
            environment: self.environment@,
            version: self.version@,
        }
    }
}

impl Clone for AppConfig {
    fn clone(&self) -> (copy: Self)
        ensures
            copy@ == self@,
    {
        AppConfig {
            analysis: self.analysis.clone(),
            security: self.security.clone(),
            performance: self.performance,
            environment: self.environment.clone(),
            version: self.version.clone(),
        }
    }
}

/// The languages that the default settings allow.
pub open spec fn default_languages() -> Seq<Seq<char>> {
    seq![
        "en"@,
        "es"@,
        "fr"@,
        "de"@,
        "it"@,
        "pt"@,
        "ru"@,
        "zh"@,
        "ja"@,
        "ko"@,
        "ar"@,
        "hi"@,
        "fa"@,
    ]
}

/// The faults of a set of settings, in the order in which they are looked
/// for: a limit of zero on the length of texts, on the number of data
/// points, on the worker threads, or on the memory.
pub open spec fn config_faults(config: &AppConfig) -> Seq<Seq<char>> {
    let none = Seq::<Seq<char>>::empty();
    let text = if config.analysis.max_text_length == 0 {
        none.push("max_text_length must be greater than 0"@)
    } else {
        none
    };
    let data = if config.analysis.max_data_points == 0 {
        text.push("max_data_points must be greater than 0"@)
    } else {
        text
    };
    let threads = if config.performance.worker_threads == 0 {
        data.push("worker_threads must be greater than 0"@)
    } else {
        data
    };
    if config.performance.memory_limit_mb == 0 {
        threads.push("memory_limit_mb must be greater than 0"@)
    } else {
        threads
    }
}

impl Default for AppConfig {
    /// The settings of a development service on this machine, with one
    /// worker thread for each processor.
    fn default() -> (config: Self)
        ensures
            config.analysis.max_text_length == 10000,
            config.analysis.max_data_points == 10000,
            config.analysis.sentiment_threshold == 200,
            config.analysis.language_confidence_threshold == 700,
            config.analysis.plagiarism_threshold == 800,
            config.analysis.cache_enabled,
            config.analysis.cache_ttl_seconds == 3600,
            config.analysis.rate_limit_requests_per_minute == 100,
            config.analysis.enable_logging,
            config.analysis.log_level@ == "info"@,
            config.analysis.performance_monitoring,
            config.analysis.security_enabled,
            string_views(config.analysis.allowed_languages@) == default_languages(),
            config.analysis.custom_stop_words@.len() == 0,
            config.analysis.api_keys@.len() == 0,
            config.security.encryption_enabled,
            config.security.key_rotation_days == 30,
            config.security.max_key_age_days == 90,
            string_views(config.security.allowed_origins@) == seq!["*"@],
            config.security.rate_limit_enabled,
            config.security.max_request_size_bytes == 1024 * 1024,
            config.performance.max_concurrent_requests == 100,
            config.performance.worker_threads >= 1,
            config.performance.memory_limit_mb == 512,
            config.performance.timeout_seconds == 30,
            !config.performance.enable_profiling,
            config.performance.cache_size_mb == 100,
            config.environment@ == "development"@,
            config.version@ == "0.1.0"@,
            config_faults(&config).len() == 0,
    {
        let mut languages: Vec<String> = Vec::new();
        languages.push("en".to_owned());
        languages.push("es".to_owned());
        languages.push("fr".to_owned());
        languages.push("de".to_owned());
        languages.push("it".to_owned());
        languages.push("pt".to_owned());
        languages.push("ru".to_owned());
        languages.push("zh".to_owned());
        languages.push("ja".to_owned());
        languages.push("ko".to_owned());
        languages.push("ar".to_owned());
        languages.push("hi".to_owned());
        languages.push("fa".to_owned());
        assert(string_views(languages@) =~= default_languages());
        let mut origins: Vec<String> = Vec::new();
        origins.push("*".to_owned());
        assert(string_views(origins@) =~= seq!["*"@]);
        AppConfig {
            analysis: AnalysisConfig {
                max_text_length: 10000,
                max_data_points: 10000,
                sentiment_threshold: 200,
                language_confidence_threshold: 700,
                plagiarism_threshold: 800,
                cache_enabled: true,
                cache_ttl_seconds: 3600,
                rate_limit_requests_per_minute: 100,
                enable_logging: true,
                log_level: "info".to_owned(),
                performance_monitoring: true,
                security_enabled: true,
                allowed_languages: languages,
                custom_stop_words: Vec::new(),
                api_keys: Vec::new(),
            },
            security: SecurityConfig {
                encryption_enabled: true,
                key_rotation_days: 30,
                max_key_age_days: 90,
                allowed_origins: origins,
                rate_limit_enabled: true,
                max_request_size_bytes: 1024 * 1024,
            },
            performance: PerformanceConfig {
                max_concurrent_requests: 100,
                worker_threads: num_cpus::get(),
                memory_limit_mb: 512,
                timeout_seconds: 30,
                enable_profiling: false,
                cache_size_mb: 100,
            },
            environment: "development".to_owned(),
            version: "0.1.0".to_owned(),
        }
    }
}

impl AppConfig {
    /// A copy of the settings.
    pub fn get(&self) -> (config: AppConfig)
        ensures
            config@ == self@,
    {
        self.clone()
    }

    /// Puts other settings in the place of these.
    pub fn update(&mut self, updates: AppConfig)
        ensures
            *final(self) == updates,
    {
        *self = updates;
    }

    /// A copy of the settings of the analysis.
    pub fn get_analysis_config(&self) -> (config: AnalysisConfig)
        ensures
            config@ == self.analysis@,
    {
        self.analysis.clone()
    }

    /// A copy of the settings of the guards.
    pub fn get_security_config(&self) -> (config: SecurityConfig)
        ensures
            config@ == self.security@,
    {
        self.security.clone()
    }

    /// The settings of the machine's use.
    pub fn get_performance_config(&self) -> (config: PerformanceConfig)
        ensures
            config == self.performance,
    {
        self.performance
    }

    /// Whether the settings are those of a production service.
    pub fn is_production(&self) -> (production: bool)
        ensures
            production == (self.environment@ == "production"@),
    {
        same_text(self.environment.as_str(), "production")
    }

    /// Holds the settings to the rules. The error lists every fault, in the
    /// order of `config_faults`.
    pub fn validate_config(&self) -> (verdict: Result<(), Vec<String>>)
        ensures
            match verdict {
                Ok(_) => config_faults(self).len() == 0,
                Err(errors) => string_views(errors@) == config_faults(self) && errors@.len() > 0,
            },
    {
        let mut errors: Vec<String> = Vec::new();
        assert(string_views(errors@) =~= Seq::<Seq<char>>::empty());
        if self.analysis.max_text_length == 0 {
            let ghost before = string_views(errors@);
            errors.push("max_text_length must be greater than 0".to_owned());
            assert(string_views(errors@) =~= before.push("max_text_length must be greater than 0"@));
        }
        if self.analysis.max_data_points == 0 {
            let ghost before = string_views(errors@);
            errors.push("max_data_points must be greater than 0".to_owned());
            assert(string_views(errors@) =~= before.push("max_data_points must be greater than 0"@));
        }
        if self.performance.worker_threads == 0 {
            let ghost before = string_views(errors@);
            errors.push("worker_threads must be greater than 0".to_owned());
            assert(string_views(errors@) =~= before.push("worker_threads must be greater than 0"@));
        }
        if self.performance.memory_limit_mb == 0 {
            let ghost before = string_views(errors@);
            errors.push("memory_limit_mb must be greater than 0".to_owned());
            assert(string_views(errors@) =~= before.push("memory_limit_mb must be greater than 0"@));
        }
        if errors.len() == 0 {
            Ok(())
        } else {
            Err(errors)
        }
    }
}

} // verus!
