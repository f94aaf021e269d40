use std::path::PathBuf;

use imgdl::batch::{count_outcomes, failed_download, plan_tasks, start_batch, Batch, BatchStart};
use imgdl::config::Config;
use imgdl::orchestrator::Downloader;
use imgdl::time::Duration;
use imgdl::types::{DownloadError, DownloadOutcome, DownloadResult};

fn success(url: &str, size_bytes: u64) -> DownloadResult {
    DownloadResult {
        url: url.to_string(),
        outcome: DownloadOutcome::Success {
            path: PathBuf::from("/tmp/file"),
            size_bytes,
            content_hash: None,
            elapsed: Duration::from_millis(1),
        },
    }
}

fn batch(urls: &[&str], timeout: Option<Duration>) -> Batch {
    match Batch::new(urls, Ok(()), timeout) {
        Ok(batch) => batch,
        Err(_) => panic!("expected a batch"),
    }
}

#[test]
fn new_creates_valid_instance() {
    let dl: Downloader<u8, u8> = Downloader::new(Config::default());
    assert!(!dl.pool.plain_mode());
    let plain: Downloader<u8, u8> = Downloader::new_plain(Config::default());
    assert!(plain.pool.plain_mode());
    assert_eq!(plain.config.max_redirects, 5);
}

#[test]
fn empty_urls_returns_empty_vec() {
    let dl: Downloader<u8, u8> = Downloader::new_plain(Config::default());
    match dl.download_batch(&[]) {
        BatchStart::Finished(results) => assert!(results.is_empty()),
        BatchStart::CreateDirectory => panic!("expected nothing to do"),
    }
    assert!(matches!(start_batch(&["http://a/"]), BatchStart::CreateDirectory));
}

#[test]
fn a_directory_that_cannot_be_created_fails_every_url() {
    let created = Err("permission denied".to_string());
    match Batch::new(&["http://a/", "http://b/", "http://a/"], created, None) {
        Ok(_) => panic!("expected results"),
        Err(results) => {
            assert_eq!(results.len(), 3);
            assert_eq!(results[0].url, "http://a/");
            assert_eq!(results[1].url, "http://b/");
            for result in &results {
                match &result.outcome {
                    DownloadOutcome::Failure {
                        error,
                        elapsed,
                        retries_attempted,
                    } => {
                        assert_eq!(
                            error.to_string(),
                            "write error: failed to create output directory: permission denied"
                        );
                        assert_eq!(*elapsed, Duration::zero());
                        assert_eq!(*retries_attempted, 0);
                    }
                    other => panic!("expected Failure, got {other:?}"),
                }
            }
        }
    }
}

#[test]
fn deduplicates_urls() {
    let url = "http://a/dup.jpg";
    let mut batch = batch(&[url, url, url], None);
    assert_eq!(batch.tasks().len(), 1);
    assert_eq!(batch.tasks()[0].url, url);
    batch.record(success(url, 4));
    let results = batch.finish(Duration::from_secs(1));
    assert_eq!(results.len(), 3);
    for r in &results {
        assert!(matches!(r.outcome, DownloadOutcome::Success { size_bytes: 4, .. }));
    }
}

#[test]
fn dedup_sequential_naming_uses_first_index() {
    let tasks = plan_tasks(&["http://a/a.jpg", "http://a/b.jpg", "http://a/a.jpg", "http://a/c"]);
    let plan: Vec<(&str, usize)> = tasks
        .iter()
        .map(|task| (task.url.as_str(), task.first_index))
        .collect();
    assert_eq!(
        plan,
        vec![("http://a/a.jpg", 0), ("http://a/b.jpg", 1), ("http://a/c", 3)]
    );
}

#[test]
fn returns_results_in_input_order() {
    let mut batch = batch(&["http://a/slow.jpg", "http://a/fast.jpg"], None);
    batch.record(success("http://a/fast.jpg", 1));
    batch.record(success("http://a/slow.jpg", 2));
    let results = batch.finish(Duration::from_secs(1));
    assert_eq!(results.len(), 2);
    assert!(results[0].url.contains("slow.jpg"));
    assert!(results[1].url.contains("fast.jpg"));
}

#[test]
fn isolates_errors() {
    let mut batch = batch(&["http://a/good", "http://a/bad"], None);
    batch.record(success("http://a/good", 3));
    batch.record(failed_download(
        "http://a/bad".to_string(),
        DownloadError::TlsError("bad".to_string()),
        Duration::from_millis(5),
        1,
    ));
    let results = batch.finish(Duration::from_secs(1));
    assert!(matches!(results[0].outcome, DownloadOutcome::Success { .. }));
    assert!(matches!(
        results[1].outcome,
        DownloadOutcome::Failure {
            retries_attempted: 1,
            ..
        }
    ));
    assert_eq!(count_outcomes(&results), (1, 1));
}

#[test]
fn respects_batch_timeout() {
    let batch = batch(&["http://a/slow.jpg"], Some(Duration::from_millis(200)));
    let results = batch.finish(Duration::from_millis(201));
    assert_eq!(results.len(), 1);
    match &results[0].outcome {
        DownloadOutcome::Failure { error, elapsed, .. } => {
            assert!(
                matches!(error, DownloadError::Timeout),
                "expected Timeout error, got {error:?}"
            );
            assert_eq!(*elapsed, Duration::from_millis(201));
        }
        other => panic!("expected Failure, got {other:?}"),
    }
}

#[test]
fn a_download_that_broke_down_is_reported() {
    let batch = batch(&["http://a/x"], None);
    match &batch.finish(Duration::zero())[0].outcome {
        DownloadOutcome::Failure { error, .. } => {
            assert_eq!(error.to_string(), "connection failed: task panicked")
        }
        other => panic!("expected Failure, got {other:?}"),
    }
}

#[test]
fn outcomes_are_counted() {
    assert_eq!(count_outcomes(&[]), (0, 0));
    assert_eq!(count_outcomes(&[success("a", 1), success("b", 2)]), (2, 0));
}
