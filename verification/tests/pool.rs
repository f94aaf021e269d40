use imgdl::config::Config;
use imgdl::host_pool::{
    ConnectionSender, H2Status, NegotiatedProtocol, OpenedConnection, PoolHandle,
    PoolHandleSender, Probe,
};
use imgdl::pool::{notify_wait_timeout, AcquireStep, ConnectionPool, MAX_ACQUIRE_ATTEMPTS};
use imgdl::time::Duration;
use imgdl::types::DownloadError;

type Pool = ConnectionPool<&'static str, String>;

fn test_pool_with_limit(connections_per_host: usize) -> Pool {
    ConnectionPool::new(Config {
        connections_per_host,
        ..Default::default()
    })
}

fn test_pool() -> Pool {
    ConnectionPool::new(Config::default())
}

fn probe(liveness: H2Status, readiness: H2Status) -> Probe {
    Probe {
        liveness,
        readiness,
    }
}

fn ready() -> Probe {
    probe(H2Status::Ready, H2Status::Ready)
}

/// One probe for each connection of a host.
fn probes(pool: &Pool, host: &str, port: u16, each: Probe) -> Vec<Probe> {
    match pool.host_pool(host, port) {
        Some(hp) => hp.connections.iter().map(|_| each).collect(),
        None => Vec::new(),
    }
}

fn acquire(pool: &mut Pool, host: &str, port: u16) -> AcquireStep<&'static str, String> {
    let probes = probes(pool, host, port, ready());
    pool.acquire(host, port, 0, &probes)
}

fn acquired(step: AcquireStep<&'static str, String>) -> PoolHandle<&'static str, String> {
    match step {
        AcquireStep::Acquired(handle) => handle,
        other => panic!("expected a connection, got {other:?}"),
    }
}

fn open_h2(pool: &mut Pool, host: &str, port: u16, sender: &'static str) -> usize {
    let busy = probes(pool, host, port, probe(H2Status::AtCapacity, H2Status::AtCapacity));
    let is_first = match pool.acquire(host, port, 0, &busy) {
        AcquireStep::Open { is_first } => is_first,
        other => panic!("expected to open a connection, got {other:?}"),
    };
    let (result, notify) =
        pool.open_and_insert(host, port, is_first, Ok(OpenedConnection::H2(sender)));
    assert!(!notify);
    let handle = result.unwrap();
    assert!(matches!(handle.sender, PoolHandleSender::H2(shared) if shared == sender));
    handle.connection_id
}

/// Opens an HTTP/1.1 connection, which is checked out from the start.
fn open_h1(pool: &mut Pool, host: &str, port: u16, sender: &str) -> PoolHandle<&'static str, String> {
    let is_first = match acquire(pool, host, port) {
        AcquireStep::Open { is_first } => is_first,
        other => panic!("expected to open a connection, got {other:?}"),
    };
    let (result, notify) = pool.open_and_insert(
        host,
        port,
        is_first,
        Ok(OpenedConnection::H1(sender.to_string())),
    );
    assert!(!notify);
    result.unwrap()
}

fn h1_sender(handle: PoolHandle<&'static str, String>) -> String {
    match handle.sender {
        PoolHandleSender::H1(sender) => sender,
        PoolHandleSender::H2(_) => panic!("expected H1"),
    }
}

/// Opens an HTTP/1.1 connection and leaves it idle.
fn insert_h1(pool: &mut Pool, host: &str, port: u16, sender: &str) -> usize {
    let handle = open_h1(pool, host, port, sender);
    let id = handle.connection_id;
    assert!(pool.return_h1_connection(host, port, id, h1_sender(handle)));
    id
}

#[test]
fn pool_starts_empty() {
    let pool = test_pool();
    assert!(pool.host_pool("test.local", 443).is_none());
    assert!(!pool.plain_mode());
    let plain: Pool = ConnectionPool::new_plain(Config::default());
    assert!(plain.plain_mode());
}

#[test]
fn acquire_returns_injected_h2_connection() {
    let mut pool = test_pool();
    let conn_id = open_h2(&mut pool, "test.local", 443, "h2");
    let handle = acquired(acquire(&mut pool, "test.local", 443));
    assert_eq!(handle.connection_id, conn_id);
    assert!(matches!(handle.sender, PoolHandleSender::H2(_)));
}

#[test]
fn acquire_reuses_h2_connection() {
    let mut pool = test_pool();
    open_h2(&mut pool, "test.local", 443, "h2");
    let handle1 = acquired(acquire(&mut pool, "test.local", 443));
    let handle2 = acquired(acquire(&mut pool, "test.local", 443));
    // Both should reference the same underlying connection
    assert_eq!(handle1.connection_id, handle2.connection_id);
}

#[test]
fn h1_checkout_is_exclusive() {
    let mut pool = test_pool();
    insert_h1(&mut pool, "test.local", 80, "h1");
    let handle = acquired(acquire(&mut pool, "test.local", 80));
    assert!(matches!(handle.sender, PoolHandleSender::H1(_)));

    // Connection should be checked out (None) in pool
    let hp = pool.host_pool("test.local", 80).unwrap();
    assert_eq!(hp.connections.len(), 1);
    if let ConnectionSender::H1(ref opt) = hp.connections[0].sender {
        assert!(opt.is_none(), "H1 sender should be checked out");
    } else {
        panic!("expected H1 connection");
    }
}

#[test]
fn h1_return_makes_connection_reusable() {
    let mut pool = test_pool();
    let conn_id = insert_h1(&mut pool, "test.local", 80, "h1");

    // Check out
    let handle = acquired(acquire(&mut pool, "test.local", 80));
    let sender = h1_sender(handle);
    assert_eq!(sender, "h1");

    // Return
    pool.return_h1_connection("test.local", 80, conn_id, sender);

    // Re-acquire should succeed with same connection
    let handle2 = acquired(acquire(&mut pool, "test.local", 80));
    assert_eq!(handle2.connection_id, conn_id);
}

#[test]
fn h1_waits_when_all_checked_out() {
    let mut pool = test_pool();
    let conn_id = insert_h1(&mut pool, "test.local", 80, "h1");
    let handle = acquired(acquire(&mut pool, "test.local", 80));

    match acquire(&mut pool, "test.local", 80) {
        AcquireStep::Wait(span) => {
            assert_eq!(span, Duration::from_millis(250));
            assert_eq!(span, notify_wait_timeout());
        }
        other => panic!("expected to wait, got {other:?}"),
    }

    // Return connection - should wake waiter
    assert!(pool.return_h1_connection("test.local", 80, conn_id, h1_sender(handle)));
    let handle2 = acquired(acquire(&mut pool, "test.local", 80));
    assert_eq!(handle2.connection_id, conn_id);
}

#[test]
fn remove_dead_connection_cleans_pool() {
    let mut pool = test_pool();
    let conn_id = open_h2(&mut pool, "test.local", 443, "h2");
    pool.remove_dead_connection("test.local", 443, conn_id);
    let hp = pool.host_pool("test.local", 443).unwrap();
    assert!(hp.connections.is_empty());
}

#[test]
fn remove_dead_connection_notifies_waiters() {
    let mut pool = test_pool();
    let conn_id = open_h2(&mut pool, "test.local", 443, "h2");
    let handle = acquired(acquire(&mut pool, "test.local", 443));
    assert_eq!(handle.connection_id, conn_id);

    assert!(pool.remove_dead_connection("test.local", 443, conn_id));

    let hp = pool.host_pool("test.local", 443).unwrap();
    assert!(hp.connections.is_empty());
    assert!(!pool.remove_dead_connection("unknown.local", 443, conn_id));
}

#[test]
fn pool_config_stores_custom_window_size() {
    let config = Config {
        stream_window_size: 1_048_576,
        ..Default::default()
    };
    let pool: Pool = ConnectionPool::new(config);
    assert_eq!(pool.config().stream_window_size, 1_048_576);
}

#[test]
fn pool_config_stores_connections_per_host() {
    let pool = test_pool_with_limit(4);
    assert_eq!(pool.config().connections_per_host, 4);
}

#[test]
fn h2_dead_connection_detected_and_removed() {
    let mut pool = test_pool();
    open_h2(&mut pool, "dead.local", 443, "h2");
    let dead = probes(&pool, "dead.local", 443, probe(H2Status::Dead, H2Status::Dead));
    let is_first = match pool.acquire("dead.local", 443, 0, &dead) {
        AcquireStep::Open { is_first } => is_first,
        other => panic!("expected to open a connection, got {other:?}"),
    };
    assert!(!is_first);
    assert!(pool.host_pool("dead.local", 443).unwrap().connections.is_empty());

    let error = DownloadError::DnsResolutionFailed("no such host".to_string());
    let (result, notify) = pool.open_and_insert("dead.local", 443, is_first, Err(error));
    assert!(matches!(result, Err(DownloadError::DnsResolutionFailed(_))));
    assert!(!notify);

    // Host pool should be cleaned up
    assert!(pool.host_pool("dead.local", 443).is_none());
}

#[test]
fn acquire_respects_connections_per_host_limit() {
    let mut pool = test_pool_with_limit(2);
    let _h1 = open_h1(&mut pool, "test.local", 80, "one");
    let _h2 = open_h1(&mut pool, "test.local", 80, "two");

    // Pool is now at limit with all checked out.
    assert!(matches!(acquire(&mut pool, "test.local", 80), AcquireStep::Wait(_)));
    let hp = pool.host_pool("test.local", 80).unwrap();
    assert_eq!(hp.connections.len(), 2);
    assert_eq!(hp.opening_count, 0);
    assert_eq!(hp.total_count(), 2);
    assert_ne!(hp.connections[0].id, hp.connections[1].id);
}

#[test]
fn one_connection_is_allowed_even_where_the_limit_is_zero() {
    let mut pool = test_pool_with_limit(0);
    let _handle = open_h1(&mut pool, "test.local", 80, "one");
    assert!(matches!(acquire(&mut pool, "test.local", 80), AcquireStep::Wait(_)));
}

#[test]
fn connections_being_opened_count() {
    let mut pool = test_pool();
    assert!(matches!(
        acquire(&mut pool, "test.local", 443),
        AcquireStep::Open { is_first: true }
    ));
    assert!(matches!(acquire(&mut pool, "test.local", 443), AcquireStep::Wait(_)));
    let hp = pool.host_pool("test.local", 443).unwrap();
    assert_eq!(hp.opening_count, 1);
    assert_eq!(hp.protocol, NegotiatedProtocol::Http2);
}

#[test]
fn notify_h2_complete_wakes_waiters() {
    let mut pool = test_pool();
    open_h2(&mut pool, "test.local", 443, "h2");
    assert!(pool.notify_h2_complete("test.local", 443));
    assert!(!pool.notify_h2_complete("unknown.local", 443));
}

#[test]
fn hosts_and_ports_are_kept_apart() {
    let mut pool = test_pool();
    open_h2(&mut pool, "a.local", 443, "a");
    open_h2(&mut pool, "b.local", 443, "b");
    open_h2(&mut pool, "a.local", 8443, "c");
    let handle = acquired(acquire(&mut pool, "b.local", 443));
    assert!(matches!(handle.sender, PoolHandleSender::H2("b")));
    let handle = acquired(acquire(&mut pool, "a.local", 8443));
    assert!(matches!(handle.sender, PoolHandleSender::H2("c")));
}

#[test]
fn dead_connections_are_dropped_and_the_first_ready_one_is_shared() {
    let mut pool = test_pool_with_limit(4);
    let a = open_h2(&mut pool, "test.local", 443, "a");
    let b = open_h2(&mut pool, "test.local", 443, "b");
    let c = open_h2(&mut pool, "test.local", 443, "c");
    assert!(a < b && b < c);
    let mixed = vec![
        probe(H2Status::Dead, H2Status::Dead),
        probe(H2Status::AtCapacity, H2Status::AtCapacity),
        ready(),
    ];
    let handle = acquired(pool.acquire("test.local", 443, 0, &mixed));
    assert_eq!(handle.connection_id, c);
    assert!(matches!(handle.sender, PoolHandleSender::H2("c")));
    let ids: Vec<usize> = pool
        .host_pool("test.local", 443)
        .unwrap()
        .connections
        .iter()
        .map(|conn| conn.id)
        .collect();
    assert_eq!(ids, vec![b, c]);
}

#[test]
fn acquire_gives_up_after_32_attempts() {
    let mut pool = test_pool();
    let _handle = open_h1(&mut pool, "test.local", 80, "one");
    let all = probes(&pool, "test.local", 80, ready());
    assert!(matches!(
        pool.acquire("test.local", 80, MAX_ACQUIRE_ATTEMPTS - 1, &all),
        AcquireStep::Wait(_)
    ));
    match pool.acquire("test.local", 80, MAX_ACQUIRE_ATTEMPTS, &all) {
        AcquireStep::GiveUp(e) => assert_eq!(
            e.to_string(),
            "connection failed: pool acquire timeout for test.local:80 after 32 attempts"
        ),
        other => panic!("expected to give up, got {other:?}"),
    }
}

#[test]
fn a_failed_opening_wakes_those_who_wait_for_the_others() {
    let mut pool = test_pool_with_limit(2);
    let _first = open_h1(&mut pool, "test.local", 80, "one");
    assert!(matches!(
        acquire(&mut pool, "test.local", 80),
        AcquireStep::Open { is_first: false }
    ));
    let (result, notify) =
        pool.open_and_insert("test.local", 80, false, Err(DownloadError::Timeout));
    assert!(matches!(result, Err(DownloadError::Timeout)));
    assert!(notify);
    assert_eq!(pool.host_pool("test.local", 80).unwrap().opening_count, 0);
}

#[test]
fn a_connection_to_a_forgotten_host_is_an_error() {
    let mut pool = test_pool();
    let (result, notify) =
        pool.open_and_insert("test.local", 80, true, Ok(OpenedConnection::H2("late")));
    assert!(!notify);
    match result {
        Err(e) => assert_eq!(
            e.to_string(),
            "connection failed: pool entry for test.local:80 disappeared during connection"
        ),
        Ok(_) => panic!("expected an error"),
    }
}

#[test]
fn finished_connections_are_returned_or_removed() {
    let mut pool = test_pool_with_limit(2);
    let one = open_h1(&mut pool, "test.local", 80, "one");
    let two = open_h1(&mut pool, "test.local", 80, "two");
    let (id_one, id_two) = (one.connection_id, two.connection_id);
    assert!(pool.finish_connection("test.local", 80, id_one, one.sender, true));
    assert!(pool.finish_connection("test.local", 80, id_two, two.sender, false));
    let hp = pool.host_pool("test.local", 80).unwrap();
    assert_eq!(hp.connections.len(), 1);
    assert_eq!(hp.connections[0].id, id_one);
    assert!(matches!(&hp.connections[0].sender, ConnectionSender::H1(Some(s)) if s == "one"));

    let id = open_h2(&mut pool, "test.local", 443, "h2");
    assert!(pool.finish_connection("test.local", 443, id, PoolHandleSender::H2("h2"), true));
    let hp = pool.host_pool("test.local", 443).unwrap();
    assert_eq!(hp.connections.len(), 1);
    assert_eq!(hp.connections[0].id, id);
    assert!(pool.finish_connection("test.local", 443, id, PoolHandleSender::H2("h2"), false));
    assert!(pool.host_pool("test.local", 443).unwrap().connections.is_empty());
}

#[test]
fn a_failed_first_opening_leaves_no_trace() {
    let mut pool = test_pool();
    assert!(matches!(
        acquire(&mut pool, "test.local", 443),
        AcquireStep::Open { is_first: true }
    ));
    let (result, notify) =
        pool.open_and_insert("test.local", 443, true, Err(DownloadError::Timeout));
    assert!(matches!(result, Err(DownloadError::Timeout)));
    assert!(!notify);
    assert!(pool.host_pool("test.local", 443).is_none());
    // The next request starts anew.
    assert!(matches!(
        acquire(&mut pool, "test.local", 443),
        AcquireStep::Open { is_first: true }
    ));
}

#[test]
fn ids_of_removed_connections_are_not_given_again() {
    let mut pool = test_pool();
    let first = open_h2(&mut pool, "test.local", 443, "a");
    pool.remove_dead_connection("test.local", 443, first);
    let second = open_h2(&mut pool, "test.local", 443, "b");
    assert_ne!(first, second);
}
