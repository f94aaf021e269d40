use imgdl::retry::{backoff_at, compute_backoff, is_retryable, Retry, RetryStep};
use imgdl::time::Duration;
use imgdl::types::DownloadError;

fn status(code: u16, retry_after: Option<Duration>) -> DownloadError {
    DownloadError::HttpStatus {
        code,
        message: "status".into(),
        retry_after,
    }
}

/// Runs an operation until it has ended: its result, the retries reported, the waits and
/// the number of calls.
fn run(
    max_retries: u32,
    base_delay: Duration,
    outcome: impl Fn(u32) -> Result<&'static str, DownloadError>,
) -> (Result<&'static str, DownloadError>, u32, Vec<Duration>, u32) {
    let mut retry = Retry::new(max_retries, base_delay);
    let mut waits = Vec::new();
    let mut calls = 0;
    loop {
        let result = outcome(calls);
        calls += 1;
        match retry.step(result) {
            RetryStep::Finished(last, retries) => return (last, retries, waits, calls),
            RetryStep::Wait(delay) => waits.push(delay),
        }
    }
}

fn fails_before(n: u32, error: DownloadError) -> impl Fn(u32) -> Result<&'static str, DownloadError> {
    move |call| if call < n { Err(error.clone()) } else { Ok("ok") }
}

#[test]
fn returns_immediately_on_success() {
    let (result, retries, _, calls) = run(3, Duration::from_millis(10), |_| Ok("ok"));
    assert!(result.is_ok());
    assert_eq!(retries, 0);
    assert_eq!(calls, 1);
}

#[test]
fn retries_on_429() {
    let (result, retries, _, calls) =
        run(3, Duration::from_millis(10), fails_before(2, status(429, None)));
    assert!(result.is_ok());
    assert_eq!(retries, 2);
    assert_eq!(calls, 3);
}

#[test]
fn retries_on_503() {
    let (result, retries, _, calls) =
        run(3, Duration::from_millis(10), fails_before(1, status(503, None)));
    assert!(result.is_ok());
    assert_eq!(retries, 1);
    assert_eq!(calls, 2);
}

#[test]
fn retries_on_timeout() {
    let (result, retries, _, _) =
        run(3, Duration::from_millis(10), fails_before(1, DownloadError::Timeout));
    assert!(result.is_ok());
    assert_eq!(retries, 1);
}

#[test]
fn retries_on_connection_failed() {
    let error = DownloadError::ConnectionFailed("reset".into());
    let (result, retries, _, _) = run(3, Duration::from_millis(10), fails_before(1, error));
    assert!(result.is_ok());
    assert_eq!(retries, 1);
}

#[test]
fn does_not_retry_on_404() {
    let (result, retries, _, calls) =
        run(3, Duration::from_millis(10), fails_before(9, status(404, None)));
    assert!(result.is_err());
    assert_eq!(retries, 0);
    assert_eq!(calls, 1);
}

#[test]
fn does_not_retry_on_tls_error() {
    let error = DownloadError::TlsError("bad cert".into());
    let (result, retries, _, calls) = run(3, Duration::from_millis(10), fails_before(9, error));
    assert!(result.is_err());
    assert_eq!(retries, 0);
    assert_eq!(calls, 1);
}

#[test]
fn does_not_retry_on_dns_failed() {
    let error = DownloadError::DnsResolutionFailed("NXDOMAIN".into());
    let (result, retries, _, calls) = run(3, Duration::from_millis(10), fails_before(9, error));
    assert!(result.is_err());
    assert_eq!(retries, 0);
    assert_eq!(calls, 1);
}

#[test]
fn respects_retry_after_header() {
    let error = status(429, Some(Duration::from_millis(50)));
    let (result, _, waits, _) = run(3, Duration::from_millis(10), fails_before(1, error));
    assert!(result.is_ok());
    assert_eq!(waits, vec![Duration::from_millis(50)]);
}

#[test]
fn backoff_increases_exponentially() {
    let (_, _, waits, calls) =
        run(3, Duration::from_millis(20), fails_before(9, DownloadError::Timeout));
    assert_eq!(calls, 4); // 1 initial + 3 retries
    assert!(waits[1].as_nanos() > waits[0].as_nanos());
    assert!(waits[2].as_nanos() > waits[1].as_nanos());
    for (i, base) in [20u128, 40, 80].iter().enumerate() {
        assert!(waits[i].as_millis() >= *base);
        assert!(2 * waits[i].as_millis() < 3 * base);
    }
}

#[test]
fn returns_last_error_after_exhausting_retries() {
    let (result, retries, _, calls) =
        run(2, Duration::from_millis(10), fails_before(9, DownloadError::Timeout));
    assert!(matches!(result, Err(DownloadError::Timeout)));
    assert_eq!(retries, 2);
    assert_eq!(calls, 3); // 1 initial + 2 retries
}

#[test]
fn retries_attempted_count_is_correct() {
    let (result, retries, _, calls) =
        run(2, Duration::from_millis(10), fails_before(9, status(503, None)));
    assert!(result.is_err());
    assert_eq!(retries, 2, "should report 2 retries attempted");
    assert_eq!(calls, 3, "should call operation 3 times total");
}

#[test]
fn no_retries_means_one_attempt() {
    let (result, retries, waits, calls) =
        run(0, Duration::from_millis(10), fails_before(9, DownloadError::Timeout));
    assert!(result.is_err());
    assert_eq!(retries, 0);
    assert!(waits.is_empty());
    assert_eq!(calls, 1);
}

#[test]
fn only_overload_timeouts_and_connections_are_retryable() {
    assert!(is_retryable(&status(429, None)));
    assert!(is_retryable(&status(503, None)));
    assert!(!is_retryable(&status(500, None)));
    assert!(is_retryable(&DownloadError::Timeout));
    assert!(is_retryable(&DownloadError::ConnectionFailed(String::new())));
    assert!(!is_retryable(&DownloadError::TlsError(String::new())));
    assert!(!is_retryable(&DownloadError::WriteError(String::new())));
    assert!(!is_retryable(&DownloadError::ValidationFailed(String::new())));
    assert!(!is_retryable(&DownloadError::DnsResolutionFailed(String::new())));
    assert!(!is_retryable(&DownloadError::TooManyRedirects(String::new())));
}

#[test]
fn backoff_has_exact_values_for_a_given_clock() {
    let base = Duration::from_millis(100);
    assert_eq!(backoff_at(0, base, None, 0), Duration::from_millis(100));
    assert_eq!(backoff_at(3, base, None, 0), Duration::from_millis(803));
    // 6364136223846793005 % 50 == 5
    assert_eq!(backoff_at(0, base, None, 1), Duration::from_millis(105));
    assert_eq!(
        backoff_at(5, base, Some(Duration::from_secs(9)), 1),
        Duration::from_secs(9)
    );
    assert_eq!(backoff_at(7, Duration::zero(), None, 123), Duration::zero());
    assert_eq!(backoff_at(0, Duration::from_millis(1), None, 9), Duration::from_millis(1));
    // The delay never grows past the largest number of milliseconds.
    assert_eq!(
        backoff_at(200, Duration::from_millis(1), None, 0).as_millis() >= u64::MAX as u128,
        true
    );
}

#[test]
fn backoff_by_the_wall_clock_stays_in_range() {
    let delay = compute_backoff(2, Duration::from_millis(1000), None);
    assert!(delay.as_millis() >= 4000);
    assert!(delay.as_millis() < 6000);
    assert_eq!(
        compute_backoff(2, Duration::from_millis(1000), Some(Duration::from_secs(1))),
        Duration::from_secs(1)
    );
}
