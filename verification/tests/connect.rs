use imgdl::config::Config;
use imgdl::connect::{
    alpn_protocols, http2_settings, negotiated_protocol, Dial, DialFailure, HandshakeFault,
    OpenStep, Opening,
};
use imgdl::dns::Address;
use imgdl::host_pool::NegotiatedProtocol;
use imgdl::time::Duration;
use imgdl::types::DownloadError;

fn address(n: u32) -> Address {
    Address::V4 { bits: n, port: 80 }
}

#[test]
fn addresses_are_tried_in_turn() {
    let mut dial = Dial::new(vec![address(1), address(2)]);
    assert_eq!(dial.next(), Some(address(1)));
    dial.failed(DialFailure::Refused("refused".to_string()));
    assert_eq!(dial.next(), Some(address(2)));
    dial.failed(DialFailure::TimedOut);
    assert_eq!(dial.next(), None);
    assert!(matches!(dial.error(), DownloadError::Timeout));
}

#[test]
fn the_last_failure_is_reported() {
    let mut dial = Dial::new(vec![address(1)]);
    dial.failed(DialFailure::Refused("Connection refused".to_string()));
    assert_eq!(dial.error().to_string(), "connection failed: Connection refused");
    assert_eq!(
        Dial::new(Vec::new()).error().to_string(),
        "connection failed: no addresses to connect to"
    );
}

#[test]
fn test_alpn_protocols_prefer_h2() {
    let protocols = alpn_protocols();
    assert_eq!(protocols.len(), 2);
    assert_eq!(protocols[0], b"h2");
    assert_eq!(protocols[1], b"http/1.1");
}

#[test]
fn http2_is_spoken_only_where_the_server_chose_it() {
    assert_eq!(negotiated_protocol(Some(b"h2")), NegotiatedProtocol::Http2);
    assert_eq!(negotiated_protocol(Some(b"http/1.1")), NegotiatedProtocol::Http1);
    assert_eq!(negotiated_protocol(Some(b"h3")), NegotiatedProtocol::Http1);
    assert_eq!(negotiated_protocol(Some(b"")), NegotiatedProtocol::Http1);
    assert_eq!(negotiated_protocol(None), NegotiatedProtocol::Http1);
}

#[test]
fn handshake_faults_say_what_failed() {
    let cases = vec![
        (
            HandshakeFault::ServerName("e".to_string()),
            "TLS error: invalid server name: e",
        ),
        (HandshakeFault::Tls("e".to_string()), "TLS error: e"),
        (
            HandshakeFault::Http1("e".to_string()),
            "connection failed: HTTP/1.1 handshake: e",
        ),
        (
            HandshakeFault::Http2("e".to_string()),
            "connection failed: HTTP/2 handshake: e",
        ),
    ];
    for (fault, text) in cases {
        assert_eq!(fault.into_error().to_string(), text);
    }
}

#[test]
fn http2_settings_follow_the_configuration() {
    let config = Config {
        stream_window_size: 1_048_576,
        ..Default::default()
    };
    let settings = http2_settings(&config);
    assert_eq!(settings.initial_stream_window_size, 1_048_576);
    assert!(settings.adaptive_window);
    assert_eq!(settings.keep_alive_interval, Duration::from_secs(10));
    assert_eq!(settings.keep_alive_timeout, Duration::from_secs(20));
}

#[test]
fn plain_connections_are_not_secured() {
    let (mut opening, step) = Opening::start(true);
    assert!(matches!(step, OpenStep::Resolve));
    let step = opening.on_resolved(Ok(vec![address(1), address(2)]));
    assert!(matches!(step, OpenStep::Connect(a) if a == address(1)));
    let step = opening.on_connected(Err(DialFailure::Refused("refused".to_string())));
    assert!(matches!(step, OpenStep::Connect(a) if a == address(2)));
    let step = opening.on_connected(Ok(()));
    assert!(matches!(step, OpenStep::Handshake(NegotiatedProtocol::Http1)));
}

#[test]
fn other_connections_are_secured_first() {
    let (mut opening, _) = Opening::start(false);
    opening.on_resolved(Ok(vec![address(1)]));
    assert!(matches!(opening.on_connected(Ok(())), OpenStep::Secure));
    assert!(matches!(
        opening.on_secured(Ok(Some(b"h2".to_vec()))),
        OpenStep::Handshake(NegotiatedProtocol::Http2)
    ));
    assert!(matches!(
        opening.on_secured(Ok(None)),
        OpenStep::Handshake(NegotiatedProtocol::Http1)
    ));
    match opening.on_secured(Err(HandshakeFault::Tls("expired".to_string()))) {
        OpenStep::Failed(e) => assert_eq!(e.to_string(), "TLS error: expired"),
        other => panic!("expected a failure, got {other:?}"),
    }
}

#[test]
fn openings_fail_with_the_last_cause() {
    let (mut opening, _) = Opening::start(false);
    let unknown = DownloadError::DnsResolutionFailed("no such host".to_string());
    match opening.on_resolved(Err(unknown)) {
        OpenStep::Failed(e) => {
            assert_eq!(e.to_string(), "DNS resolution failed: no such host")
        }
        other => panic!("expected a failure, got {other:?}"),
    }
    match opening.on_resolved(Ok(Vec::new())) {
        OpenStep::Failed(e) => {
            assert_eq!(e.to_string(), "connection failed: no addresses to connect to")
        }
        other => panic!("expected a failure, got {other:?}"),
    }
    opening.on_resolved(Ok(vec![address(1)]));
    match opening.on_connected(Err(DialFailure::TimedOut)) {
        OpenStep::Failed(e) => assert!(matches!(e, DownloadError::Timeout)),
        other => panic!("expected a failure, got {other:?}"),
    }
    // One that was refused after another took too long is reported as refused.
    opening.on_resolved(Ok(vec![address(1), address(2)]));
    assert!(matches!(
        opening.on_connected(Err(DialFailure::TimedOut)),
        OpenStep::Connect(next) if next == address(2)
    ));
    match opening.on_connected(Err(DialFailure::Refused("refused".to_string()))) {
        OpenStep::Failed(e) => assert_eq!(e.to_string(), "connection failed: refused"),
        other => panic!("expected a failure, got {other:?}"),
    }
}
