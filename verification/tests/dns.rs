use imgdl::dns::{Address, DnsCache, Resolution};
use imgdl::time::Duration;
use imgdl::types::DownloadError;

fn localhost(port: u16) -> Vec<Address> {
    vec![
        Address::V4 {
            bits: 0x7F00_0001,
            port,
        },
        Address::V6 {
            wide_bits: 1,
            port,
            flow_info: 0,
            scope_id: 0,
        },
    ]
}

fn at(millis: u64) -> Duration {
    Duration::from_millis(millis)
}

fn known(step: Resolution) -> Result<Vec<Address>, DownloadError> {
    match step {
        Resolution::Known(result) => result,
        Resolution::LookUp(name) => panic!("expected a known host, got a lookup of {name}"),
    }
}

#[test]
fn resolve_returns_addresses_for_valid_hostname() {
    let mut cache = DnsCache::new(Duration::from_secs(60));
    match cache.resolve("localhost", 80, at(0)) {
        Resolution::LookUp(name) => assert_eq!(name, "localhost:80"),
        Resolution::Known(_) => panic!("nothing is known yet"),
    }
    let addrs = cache.record("localhost", Ok(localhost(80)), at(1)).unwrap();
    assert!(!addrs.is_empty(), "Expected at least one address");
    assert_eq!(addrs, localhost(80));
}

#[test]
fn resolve_returns_cached_result_on_second_call() {
    let mut cache = DnsCache::new(Duration::from_secs(300));
    let first = cache.record("localhost", Ok(localhost(80)), at(0)).unwrap();
    let second = known(cache.resolve("localhost", 80, at(299_999))).unwrap();
    assert_eq!(first, second, "Cached result should match first result");
}

#[test]
fn resolve_re_resolves_after_ttl_expires() {
    let mut cache = DnsCache::new(Duration::from_millis(1));
    cache.record("localhost", Ok(localhost(80)), at(5)).unwrap();
    assert!(matches!(cache.resolve("localhost", 80, at(5)), Resolution::Known(_)));
    assert!(matches!(cache.resolve("localhost", 80, at(6)), Resolution::LookUp(_)));
    assert!(matches!(cache.resolve("localhost", 80, at(15)), Resolution::LookUp(_)));
    cache.record("localhost", Ok(localhost(80)), at(15)).unwrap();
    assert!(matches!(cache.resolve("localhost", 80, at(15)), Resolution::Known(_)));
}

#[test]
fn resolve_caches_dns_failures_with_shorter_ttl() {
    let mut cache = DnsCache::new(Duration::from_secs(300));
    let host = "this-host-definitely-does-not-exist.invalid";
    let first = cache.record(host, Err("no such host".to_string()), at(0));
    assert!(first.is_err(), "Expected DNS failure");
    let second = known(cache.resolve(host, 80, at(29_999)));
    assert!(second.is_err(), "Expected cached DNS failure");
    assert!(matches!(cache.resolve(host, 80, at(30_000)), Resolution::LookUp(_)));
}

#[test]
fn resolve_returns_dns_resolution_failed_for_bad_hostname() {
    let mut cache = DnsCache::new(Duration::from_secs(60));
    let result = cache.record("nonexistent.invalid", Err("no such host".to_string()), at(0));
    match result.unwrap_err() {
        DownloadError::DnsResolutionFailed(message) => assert_eq!(message, "no such host"),
        other => panic!("Expected DnsResolutionFailed, got {other:?}"),
    }
    match known(cache.resolve("nonexistent.invalid", 80, at(1))).unwrap_err() {
        DownloadError::DnsResolutionFailed(message) => assert_eq!(message, "no such host"),
        other => panic!("Expected DnsResolutionFailed, got {other:?}"),
    }
}

#[test]
fn resolve_works_for_different_hosts_independently() {
    let mut cache = DnsCache::new(Duration::from_secs(60));
    cache.record("a", Ok(localhost(80)), at(0)).unwrap();
    cache.record("b", Err("no".to_string()), at(0)).unwrap_err();
    assert_eq!(known(cache.resolve("a", 80, at(1))).unwrap(), localhost(80));
    assert!(known(cache.resolve("b", 80, at(1))).is_err());
    assert!(matches!(cache.resolve("c", 443, at(1)), Resolution::LookUp(_)));
    // What is known of a host does not depend on the port.
    assert_eq!(known(cache.resolve("a", 443, at(1))).unwrap(), localhost(80));
}
