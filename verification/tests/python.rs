use std::path::PathBuf;

use imgdl::config;
use imgdl::config::NamingStrategy;
use imgdl::python::{
    check_urls, core_result_to_python, directory_error, naming_strategy, python_config_to_core,
    worker_threads, Config, DownloadResult, Timeout,
};
use imgdl::time::Duration;
use imgdl::types;
use imgdl::types::{DownloadError, DownloadOutcome};

fn secs(n: u64) -> Timeout {
    Timeout::Span(Duration::from_secs(n))
}

fn with(
    connect_timeout: Timeout,
    request_timeout: Timeout,
    batch_timeout: Option<Timeout>,
    strategy: &str,
) -> Result<Config, String> {
    Config::new(
        524_288,
        1,
        300,
        200,
        100,
        3,
        100,
        connect_timeout,
        request_timeout,
        batch_timeout,
        strategy.to_string(),
        false,
        false,
        0,
    )
}

fn defaults() -> Result<Config, String> {
    with(secs(10), secs(30), None, "url_based")
}

#[test]
fn test_default_config() {
    let config = defaults().unwrap();

    assert_eq!(config.buffer_size, 524_288);
    assert_eq!(config.connections_per_host, 1);
    assert_eq!(config.dns_cache_ttl_secs, 300);
    assert_eq!(config.max_concurrent, 200);
    assert_eq!(config.max_concurrent_per_host, 100);
    assert_eq!(config.max_retries, 3);
    assert_eq!(config.retry_base_delay_ms, 100);
    assert_eq!(config.connect_timeout, secs(10));
    assert_eq!(config.request_timeout, secs(30));
    assert_eq!(config.batch_timeout, None);
    assert_eq!(config.naming_strategy, "url_based");
    assert!(!config.write_metadata);
    assert!(!config.write_summary);
    assert_eq!(config.runtime_threads, 0);
}

fn explicit(strategy: &str) -> Config {
    Config::new(
        1_048_576,
        4,
        600,
        50,
        25,
        5,
        200,
        secs(5),
        secs(60),
        Some(secs(120)),
        strategy.to_string(),
        true,
        true,
        4,
    )
    .unwrap()
}

#[test]
fn test_config_with_explicit_values() {
    let config = explicit("content_hash");

    assert_eq!(config.buffer_size, 1_048_576);
    assert_eq!(config.connections_per_host, 4);
    assert_eq!(config.dns_cache_ttl_secs, 600);
    assert_eq!(config.max_concurrent, 50);
    assert_eq!(config.max_concurrent_per_host, 25);
    assert_eq!(config.max_retries, 5);
    assert_eq!(config.retry_base_delay_ms, 200);
    assert_eq!(config.connect_timeout, secs(5));
    assert_eq!(config.request_timeout, secs(60));
    assert_eq!(config.batch_timeout, Some(secs(120)));
    assert_eq!(config.naming_strategy, "content_hash");
    assert!(config.write_metadata);
    assert!(config.write_summary);
    assert_eq!(config.runtime_threads, 4);
}

#[test]
fn test_valid_naming_strategies() {
    for strategy in &["content_hash", "url_based", "sequential", "file_header"] {
        let result = with(secs(10), secs(30), None, strategy);
        assert!(result.is_ok(), "Strategy '{strategy}' should be valid");
    }
}

#[test]
fn test_invalid_naming_strategy() {
    let result = with(secs(10), secs(30), None, "invalid");
    assert!(result.is_err());
    assert_eq!(
        result.unwrap_err(),
        "Invalid naming_strategy 'invalid'. Valid options: content_hash, url_based, sequential, file_header"
    );
}

#[test]
fn test_empty_naming_strategy() {
    assert!(with(secs(10), secs(30), None, "").is_err());
}

#[test]
fn test_negative_connect_timeout_rejected() {
    let result = with(Timeout::Negative, secs(30), None, "url_based");
    assert!(result.is_err());
    assert_eq!(result.unwrap_err(), "connect_timeout_secs must be non-negative");
}

#[test]
fn test_negative_request_timeout_rejected() {
    let result = with(secs(10), Timeout::Negative, None, "url_based");
    assert!(result.is_err());
    assert_eq!(result.unwrap_err(), "request_timeout_secs must be non-negative");
}

#[test]
fn test_negative_batch_timeout_rejected() {
    let result = with(secs(10), secs(30), Some(Timeout::Negative), "url_based");
    assert!(result.is_err());
    assert_eq!(result.unwrap_err(), "batch_timeout_secs must be non-negative");
}

#[test]
fn the_first_fault_is_reported() {
    let result = with(Timeout::Negative, Timeout::Negative, Some(Timeout::Negative), "x");
    assert!(result.unwrap_err().starts_with("Invalid naming_strategy"));
    let result = with(secs(1), Timeout::Negative, Some(Timeout::Negative), "sequential");
    assert_eq!(result.unwrap_err(), "request_timeout_secs must be non-negative");
}

#[test]
fn test_python_config_to_core_all_fields() {
    let core = python_config_to_core(&explicit("sequential"));

    assert_eq!(core.stream_window_size, 1_048_576);
    assert_eq!(core.connections_per_host, 4);
    assert_eq!(core.dns_cache_ttl, Duration::from_secs(600));
    assert_eq!(core.max_concurrent_global, 50);
    assert_eq!(core.max_concurrent_per_host, 25);
    assert_eq!(core.max_retries, 5);
    assert_eq!(core.retry_base_delay, Duration::from_millis(200));
    assert_eq!(core.connect_timeout, Duration::from_secs(5));
    assert_eq!(core.request_timeout, Duration::from_secs(60));
    assert_eq!(core.batch_timeout, Some(Duration::from_secs(120)));
    assert_eq!(core.naming_strategy, NamingStrategy::Sequential);
    assert!(core.write_metadata);
    assert!(core.write_summary);
}

#[test]
fn test_conversion_duration_fields() {
    let core = python_config_to_core(&defaults().unwrap());

    assert_eq!(core.dns_cache_ttl, Duration::from_secs(300));
    assert_eq!(core.connect_timeout, Duration::from_secs(10));
    assert_eq!(core.retry_base_delay, Duration::from_millis(100));
    assert_eq!(core.batch_timeout, None);
}

#[test]
fn test_conversion_batch_timeout_some() {
    let config = with(secs(10), secs(30), Some(secs(60)), "url_based").unwrap();
    let core = python_config_to_core(&config);
    assert_eq!(core.batch_timeout, Some(Duration::from_secs(60)));
}

#[test]
fn test_conversion_naming_strategies() {
    let cases = vec![
        ("content_hash", NamingStrategy::ContentHash),
        ("url_based", NamingStrategy::UrlBased),
        ("sequential", NamingStrategy::Sequential),
        ("file_header", NamingStrategy::FileHeader),
    ];

    for (strategy_str, expected) in cases {
        let config = with(secs(10), secs(30), None, strategy_str).unwrap();
        let core = python_config_to_core(&config);
        assert_eq!(core.naming_strategy, expected);
        assert_eq!(naming_strategy(strategy_str), Some(expected));
    }
    assert_eq!(naming_strategy("UrlBased"), None);
}

#[test]
fn test_conversion_preserves_core_defaults_for_unmapped_fields() {
    let core = python_config_to_core(&defaults().unwrap());
    let defaults = config::Config::default();

    assert_eq!(core.user_agent, defaults.user_agent);
    assert_eq!(core.max_redirects, defaults.max_redirects);
}

#[test]
fn the_defaults_are_those_of_the_downloader() {
    let core = python_config_to_core(&Config::with_defaults());
    let defaults = config::Config::default();
    assert_eq!(format!("{core:?}"), format!("{defaults:?}"));
}

#[test]
fn only_spans_of_time_can_be_converted() {
    assert!(defaults().unwrap().convertible());
    let endless = with(Timeout::Unrepresentable, secs(30), None, "url_based").unwrap();
    assert!(!endless.convertible());
    let endless = with(secs(1), secs(30), Some(Timeout::Unrepresentable), "url_based").unwrap();
    assert!(!endless.convertible());
    let mut unnamed = defaults().unwrap();
    unnamed.naming_strategy = "other".to_string();
    assert!(!unnamed.convertible());
}

fn make_success_core_result() -> types::DownloadResult {
    types::DownloadResult {
        url: "https://example.com/image.jpg".to_string(),
        outcome: DownloadOutcome::Success {
            path: PathBuf::from("/tmp/image.jpg"),
            size_bytes: 12345,
            content_hash: Some("abc123def456".to_string()),
            elapsed: Duration::from_millis(150),
        },
    }
}

fn make_failure_core_result() -> types::DownloadResult {
    types::DownloadResult {
        url: "https://example.com/missing.jpg".to_string(),
        outcome: DownloadOutcome::Failure {
            error: DownloadError::HttpStatus {
                code: 404,
                message: "Not Found".to_string(),
                retry_after: None,
            },
            elapsed: Duration::from_millis(50),
            retries_attempted: 2,
        },
    }
}

fn converted_success() -> DownloadResult {
    core_result_to_python(make_success_core_result())
}

fn converted_failure() -> DownloadResult {
    core_result_to_python(make_failure_core_result())
}

#[test]
fn test_convert_success_outcome() {
    let result = converted_success();
    assert!(result.success);
    assert_eq!(result.url, "https://example.com/image.jpg");
    assert_eq!(result.path, Some("/tmp/image.jpg".to_string()));
    assert_eq!(result.error, None);
    assert_eq!(result.size_bytes, Some(12345));
    assert_eq!(result.content_hash, Some("abc123def456".to_string()));
    assert_eq!(result.retries_attempted, Some(0));
    assert!(result.elapsed.unwrap().as_nanos() > 0);
}

#[test]
fn test_convert_failure_outcome() {
    let result = converted_failure();
    assert!(!result.success);
    assert_eq!(result.url, "https://example.com/missing.jpg");
    assert_eq!(result.path, None);
    assert!(result.error.as_ref().unwrap().contains("404"));
    assert_eq!(result.size_bytes, None);
    assert_eq!(result.content_hash, None);
    assert_eq!(result.retries_attempted, Some(2));
    assert!(result.elapsed.unwrap().as_nanos() > 0);
}

#[test]
fn test_repr_success() {
    let repr = converted_success().__repr__();
    assert!(repr.contains("success=True"));
    assert!(repr.contains("path='/tmp/image.jpg'"));
    assert!(repr.contains("https://example.com/image.jpg"));
    assert_eq!(
        repr,
        "DownloadResult(url='https://example.com/image.jpg', success=True, path='/tmp/image.jpg')"
    );
}

#[test]
fn test_repr_failure() {
    let repr = converted_failure().__repr__();
    assert!(repr.contains("success=False"));
    assert!(repr.contains("error="));
    assert!(repr.contains("https://example.com/missing.jpg"));
    assert_eq!(
        repr,
        "DownloadResult(url='https://example.com/missing.jpg', success=False, error='HTTP error 404: Not Found')"
    );
}

#[test]
fn test_empty_urls_rejected() {
    assert_eq!(
        check_urls(&[]),
        Err("urls list cannot be empty".to_string())
    );
    assert_eq!(check_urls(&["x".to_string()]), Ok(()));
}

#[test]
fn threads_are_counted_only_where_asked_for() {
    assert_eq!(worker_threads(0), None);
    assert_eq!(worker_threads(2), Some(2));
}

#[test]
fn an_unusable_directory_is_told_apart_from_other_failures() {
    let unwritten = |message: &str| types::DownloadResult {
        url: "u".to_string(),
        outcome: DownloadOutcome::Failure {
            error: DownloadError::WriteError(message.to_string()),
            elapsed: Duration::zero(),
            retries_attempted: 0,
        },
    };
    assert_eq!(directory_error(&[]), None);
    assert_eq!(directory_error(&[make_failure_core_result()]), None);
    assert_eq!(
        directory_error(&[unwritten("one"), unwritten("two")]),
        Some("one".to_string())
    );
    assert_eq!(directory_error(&[unwritten("one")]), Some("one".to_string()));
    assert_eq!(directory_error(&[unwritten("one"), make_success_core_result()]), None);
    // One file that could not be written says nothing of the directory.
    assert_eq!(directory_error(&[make_failure_core_result(), unwritten("one")]), None);
    assert_eq!(directory_error(&[unwritten("one"), make_failure_core_result()]), None);
}
