use std::path::PathBuf;

use imgdl::config::Config;
use imgdl::output::summary::{extract_host, summarize_batch, total_size, BatchSummary};
use imgdl::time::Duration;
use imgdl::types::{DownloadError, DownloadOutcome, DownloadResult};

fn success(url: &str, size_bytes: u64, millis: u64) -> DownloadResult {
    DownloadResult {
        url: url.to_string(),
        outcome: DownloadOutcome::Success {
            path: PathBuf::from("/tmp/img.jpg"),
            size_bytes,
            content_hash: None,
            elapsed: Duration::from_millis(millis),
        },
    }
}

fn make_results() -> Vec<DownloadResult> {
    vec![
        success("https://cdn.example.com/img1.jpg", 1024, 100),
        success("https://cdn.example.com/img2.jpg", 2048, 200),
        DownloadResult {
            url: "https://other.example.com/img3.jpg".to_string(),
            outcome: DownloadOutcome::Failure {
                error: DownloadError::Timeout,
                elapsed: Duration::from_millis(300),
                retries_attempted: 3,
            },
        },
    ]
}

fn summary() -> BatchSummary {
    summarize_batch(
        &Config::default(),
        &make_results(),
        3,
        3,
        Duration::from_secs(1),
    )
}

#[test]
fn summary_contains_expected_fields() {
    let value = summary();
    assert_eq!(value.config.max_retries, 3);
    assert_eq!(value.total_urls, 3);
    assert_eq!(value.unique_urls, 3);
    assert_eq!(value.successful, 2);
    assert_eq!(value.failed, 1);
    assert_eq!(value.total_elapsed, Duration::from_secs(1));
}

#[test]
fn summary_per_host_stats_correct() {
    let value = summary();
    assert_eq!(value.per_host_stats.len(), 2);

    let (name, cdn) = &value.per_host_stats[0];
    assert_eq!(name, "cdn.example.com");
    assert_eq!(cdn.requests, 2);
    assert_eq!(cdn.successful, 2);
    assert_eq!(cdn.failed, 0);
    assert_eq!(cdn.total_bytes, 3072);
    assert_eq!(
        cdn.elapsed,
        vec![Duration::from_millis(100), Duration::from_millis(200)]
    );

    let (name, other) = &value.per_host_stats[1];
    assert_eq!(name, "other.example.com");
    assert_eq!(other.requests, 1);
    assert_eq!(other.successful, 0);
    assert_eq!(other.failed, 1);
    assert_eq!(other.total_bytes, 0);
}

#[test]
fn summary_total_bytes_correct() {
    assert_eq!(summary().total_bytes, 1024 + 2048);
    assert_eq!(total_size(&make_results()), Some(3072));
}

#[test]
fn hosts_add_up_to_the_batch() {
    let value = summary();
    let requests: usize = value.per_host_stats.iter().map(|(_, s)| s.requests).sum();
    let bytes: u64 = value.per_host_stats.iter().map(|(_, s)| s.total_bytes).sum();
    assert_eq!(requests, value.results.len());
    assert_eq!(bytes, value.total_bytes);
    assert_eq!(value.successful + value.failed, value.results.len());
}

#[test]
fn results_are_summed_up_one_by_one() {
    let value = summary();
    assert_eq!(value.results.len(), 3);
    assert_eq!(value.results[0].url, "https://cdn.example.com/img1.jpg");
    assert!(value.results[0].success);
    assert_eq!(value.results[0].size_bytes, Some(1024));
    assert_eq!(value.results[0].error, None);
    assert!(!value.results[2].success);
    assert_eq!(value.results[2].size_bytes, None);
    assert_eq!(value.results[2].error.as_deref(), Some("request timed out"));
    assert_eq!(value.results[2].elapsed, Duration::from_millis(300));
}

#[test]
fn sizes_that_do_not_fit_are_noticed() {
    let results = vec![success("a", u64::MAX, 1), success("b", 1, 1)];
    assert_eq!(total_size(&results), None);
    assert_eq!(total_size(&results[..1]), Some(u64::MAX));
    assert_eq!(total_size(&[]), Some(0));
}

#[test]
fn hosts_are_found_between_slashes_and_colon() {
    assert_eq!(extract_host("https://cdn.example.com/img.jpg"), "cdn.example.com");
    assert_eq!(extract_host("http://localhost:8080/x"), "localhost");
    assert_eq!(extract_host("http://localhost"), "localhost");
    assert_eq!(extract_host("not-a-url"), "unknown");
    assert_eq!(extract_host(""), "unknown");
    assert_eq!(extract_host("a/"), "unknown");
    assert_eq!(extract_host("//host"), "host");
    assert_eq!(extract_host("http://"), "unknown");
    assert_eq!(extract_host("http:///path"), "unknown");
    assert_eq!(extract_host("http://:80/path"), "unknown");
    assert_eq!(extract_host("http://user@/"), "unknown");
    assert_eq!(extract_host("http://user:pw@host/"), "host");
    assert_eq!(extract_host("http://user:p@w@host:8080/a@b"), "host");
    assert_eq!(extract_host("http://[::1]:8080/x"), "[::1]");
    assert_eq!(extract_host("http://user@[2001:db8::1]"), "[2001:db8::1]");
    assert_eq!(extract_host("http://host?u=a:b@c"), "host");
    assert_eq!(extract_host("http://host#top"), "host");
    assert_eq!(extract_host("http://a//b"), "a");
}
