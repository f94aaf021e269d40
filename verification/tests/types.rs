use std::path::PathBuf;

use imgdl::config::{Config, NamingStrategy};
use imgdl::time::Duration;
use imgdl::types::{DownloadError, DownloadOutcome, DownloadResult};

#[test]
fn test_download_error_display_all_variants() {
    let cases = vec![
        (
            DownloadError::HttpStatus {
                code: 404,
                message: "Not Found".into(),
                retry_after: None,
            },
            "HTTP error 404: Not Found",
        ),
        (DownloadError::Timeout, "request timed out"),
        (
            DownloadError::ConnectionFailed("reset".into()),
            "connection failed: reset",
        ),
        (
            DownloadError::TlsError("bad cert".into()),
            "TLS error: bad cert",
        ),
        (
            DownloadError::WriteError("permission denied".into()),
            "write error: permission denied",
        ),
        (
            DownloadError::ValidationFailed("empty response body".into()),
            "validation failed: empty response body",
        ),
        (
            DownloadError::DnsResolutionFailed("NXDOMAIN".into()),
            "DNS resolution failed: NXDOMAIN",
        ),
        (
            DownloadError::TooManyRedirects("exceeded 5 hops".into()),
            "too many redirects: exceeded 5 hops",
        ),
    ];
    for (error, expected_substring) in cases {
        let display = error.to_string();
        assert!(
            display.contains(expected_substring),
            "Expected '{display}' to contain '{expected_substring}'"
        );
        assert_eq!(display, expected_substring);
    }
}

#[test]
fn test_result_types_implement_debug_clone_serialize() {
    let result = DownloadResult {
        url: "https://example.com/img.jpg".to_string(),
        outcome: DownloadOutcome::Success {
            path: PathBuf::from("/tmp/img.jpg"),
            size_bytes: 1024,
            content_hash: None,
            elapsed: Duration::from_millis(100),
        },
    };
    let cloned = result.clone();
    let debug = format!("{cloned:?}");
    assert!(!debug.is_empty());
}

#[test]
fn results_can_be_cloned_and_shown() {
    let result = DownloadResult {
        url: "https://example.com/img.jpg".to_string(),
        outcome: DownloadOutcome::Success {
            path: PathBuf::from("/tmp/img.jpg"),
            size_bytes: 1024,
            content_hash: Some("abc123".to_string()),
            elapsed: Duration::from_millis(100),
        },
    };
    let cloned = result.clone();
    assert!(!format!("{cloned:?}").is_empty());
    assert_eq!(cloned.url, result.url);
    match cloned.outcome {
        DownloadOutcome::Success {
            path,
            size_bytes,
            content_hash,
            elapsed,
        } => {
            assert_eq!(path, PathBuf::from("/tmp/img.jpg"));
            assert_eq!(size_bytes, 1024);
            assert_eq!(content_hash, Some("abc123".to_string()));
            assert_eq!(elapsed, Duration::from_millis(100));
        }
        DownloadOutcome::Failure { .. } => panic!("expected Success"),
    }
    let failure = DownloadOutcome::Failure {
        error: DownloadError::HttpStatus {
            code: 503,
            message: "busy".to_string(),
            retry_after: Some(Duration::from_secs(7)),
        },
        elapsed: Duration::zero(),
        retries_attempted: 2,
    };
    match failure.clone() {
        DownloadOutcome::Failure {
            error,
            retries_attempted,
            ..
        } => {
            assert_eq!(error.to_string(), "HTTP error 503: busy");
            assert_eq!(retries_attempted, 2);
        }
        DownloadOutcome::Success { .. } => panic!("expected Failure"),
    }
}

#[test]
fn test_config_default_values() {
    let config = Config::default();
    assert_eq!(config.stream_window_size, 524_288);
    assert_eq!(config.connections_per_host, 1);
    assert_eq!(config.dns_cache_ttl, Duration::from_secs(300));
    assert_eq!(config.user_agent, "imgdl/0.1");
    assert_eq!(config.max_redirects, 5);
    assert_eq!(config.max_concurrent_global, 200);
    assert_eq!(config.max_concurrent_per_host, 100);
    assert_eq!(config.max_retries, 3);
    assert_eq!(config.retry_base_delay, Duration::from_millis(100));
    assert_eq!(config.connect_timeout, Duration::from_secs(10));
    assert_eq!(config.request_timeout, Duration::from_secs(30));
    assert!(config.batch_timeout.is_none());
    assert_eq!(config.naming_strategy, NamingStrategy::UrlBased);
    assert!(!config.write_metadata);
    assert!(!config.write_summary);
}

#[test]
fn test_config_fields_are_publicly_modifiable() {
    let config = Config {
        max_retries: 5,
        connections_per_host: 4,
        batch_timeout: Some(Duration::from_secs(60)),
        ..Default::default()
    };
    assert_eq!(config.max_retries, 5);
    assert_eq!(config.connections_per_host, 4);
    assert_eq!(config.batch_timeout, Some(Duration::from_secs(60)));
}

#[test]
fn test_config_implements_clone_debug_serialize() {
    let config = Config::default();
    let cloned = config.clone();
    let debug_str = format!("{cloned:?}");
    assert!(!debug_str.is_empty());
    assert!(debug_str.contains("stream_window_size"));
}

#[test]
fn config_can_be_cloned_and_shown() {
    let config = Config {
        user_agent: "other/2".to_string(),
        ..Default::default()
    };
    let cloned = config.clone();
    assert!(!format!("{cloned:?}").is_empty());
    assert_eq!(cloned.user_agent, "other/2");
    assert_eq!(cloned.stream_window_size, config.stream_window_size);
    assert_eq!(cloned.retry_base_delay, config.retry_base_delay);
}

#[test]
fn test_naming_strategy_default_is_url_based() {
    assert_eq!(NamingStrategy::default(), NamingStrategy::UrlBased);
}

#[test]
fn test_naming_strategy_implements_required_traits() {
    let strategy = NamingStrategy::ContentHash;
    let cloned = strategy.clone();
    let debug_str = format!("{cloned:?}");
    assert!(!debug_str.is_empty());
    assert_eq!(cloned, strategy);
    assert_eq!(strategy, NamingStrategy::ContentHash);
    assert_ne!(strategy, NamingStrategy::Sequential);
}

#[test]
fn spans_of_time_convert_between_units() {
    let span = Duration::new(3, 5_000_007);
    assert_eq!(span.as_secs(), 3);
    assert_eq!(span.subsec_nanos(), 5_000_007);
    assert_eq!(span.as_millis(), 3005);
    assert_eq!(span.as_nanos(), 3_005_000_007);
    assert_eq!(Duration::from_millis(2500).as_nanos(), 2_500_000_000);
    assert_eq!(Duration::from_secs(u64::MAX).as_secs(), u64::MAX);
    assert_eq!(Duration::zero(), Duration::from_secs(0));
    assert_eq!(Duration::from_millis(1000), Duration::from_secs(1));
}
