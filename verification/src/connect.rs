//! How a connection to a host is opened.

use vstd::prelude::*;

use crate::config::Config;
use crate::dns::Address;
use crate::host_pool::NegotiatedProtocol;
use crate::text;
use crate::time::Duration;
use crate::types::{DownloadError, ErrorView};

verus! {

/// Why an address could not be connected to.
#[derive(Debug)]
pub enum DialFailure {
    /// The attempt failed, with the message of the cause.
    Refused(String),
    /// The attempt took longer than the connect timeout.
    TimedOut,
}

/// The error that a failed attempt is reported as.
pub open spec fn failure_error(failure: DialFailure) -> ErrorView {
    match failure {
        DialFailure::Refused(message) => ErrorView::ConnectionFailed(message@),
        DialFailure::TimedOut => ErrorView::Timeout,
    }
}

/// The addresses of a host, tried one after the other until one can be connected to.
#[derive(Debug)]
pub struct Dial {
    addresses: Vec<Address>,
    tried: usize,
    last_failure: Option<DialFailure>,
}

/// The addresses, how many of them were tried, and the error that the last one gave.
pub struct DialView {
    pub addresses: Seq<Address>,
    pub tried: nat,
    pub last_error: Option<ErrorView>,
}

impl View for Dial {
    type V = DialView;

    closed spec fn view(&self) -> DialView {
        DialView {
            addresses: self.addresses@,
            tried: self.tried as nat,
            last_error: match self.last_failure {
                Some(failure) => Some(failure_error(failure)),
                None => None,
            },
        }
    }
}

/// Addresses of which none was tried yet.
pub open spec fn fresh_dial(addresses: Seq<Address>) -> DialView {
    DialView { addresses, tried: 0, last_error: None }
}

/// The next address to try, as long as there is one.
pub open spec fn next_address(dial: DialView) -> Option<Address> {
    if dial.tried < dial.addresses.len() {
        Some(dial.addresses[dial.tried as int])
    } else {
        None
    }
}

/// The addresses after the next one has failed.
pub open spec fn after_failure(dial: DialView, error: ErrorView) -> DialView {
    DialView { tried: dial.tried + 1, last_error: Some(error), ..dial }
}

/// The error that is reported once no address is left: a timeout where the last attempt
/// took too long.
pub open spec fn dial_error(dial: DialView) -> ErrorView {
    match dial.last_error {
        Some(error) => error,
        None => ErrorView::ConnectionFailed("no addresses to connect to"@),
    }
}

impl Dial {
    /// Nothing tried yet.
    pub fn new(addresses: Vec<Address>) -> (dial: Dial)
        ensures
            dial@ == fresh_dial(addresses@),
    {
        Dial { addresses, tried: 0, last_failure: None }
    }

    /// The next address to try, as long as there is one.
    pub fn next(&self) -> (address: Option<Address>)
        ensures
            address == next_address(self@),
    {
        if self.tried < self.addresses.len() {
            Some(self.addresses[self.tried])
        } else {
            None
        }
    }

    /// Records that the next address failed.
    pub fn failed(&mut self, failure: DialFailure)
        requires
            next_address(old(self)@) is Some,
        ensures
            final(self)@ == after_failure(old(self)@, failure_error(failure)),
    {
        assert(self.addresses@.len() == self.addresses.len());
        self.tried = self.tried + 1;
        self.last_failure = Some(failure);
    }

    /// The error that is reported once no address is left.
    pub fn error(&self) -> (error: DownloadError)
        ensures
            error@ == dial_error(self@),
    {
        match &self.last_failure {
            Some(DialFailure::Refused(message)) => DownloadError::ConnectionFailed(message.clone()),
            Some(DialFailure::TimedOut) => DownloadError::Timeout,
            None => DownloadError::ConnectionFailed("no addresses to connect to".to_string()),
        }
    }
}

/// The addresses after so many failures.
pub open spec fn after_failures(dial: DialView, failures: Seq<DialFailure>) -> DialView
    decreases failures.len(),
{
    if failures.len() == 0 {
        dial
    } else {
        after_failure(
            after_failures(dial, failures.drop_last()),
            failure_error(failures.last()),
        )
    }
}

/// The addresses are tried in order, each once, and where all of them fail the last
/// failure is the one that is reported: a timeout where that attempt took too long.
pub proof fn addresses_are_tried_in_order(addresses: Seq<Address>, failures: Seq<DialFailure>)
    requires
        failures.len() <= addresses.len(),
    ensures
        ({
            let start = DialView { addresses, tried: 0, last_error: None };
            let after = after_failures(start, failures);
            &&& after.addresses == addresses
            &&& after.tried == failures.len()
            &&& failures.len() < addresses.len() ==> next_address(after) == Some(
                addresses[failures.len() as int],
            )
            &&& failures.len() == addresses.len() ==> next_address(after) is None
            &&& failures.len() == 0 ==> dial_error(after) == ErrorView::ConnectionFailed(
                "no addresses to connect to"@,
            )
            &&& failures.len() > 0 ==> dial_error(after) == match failures.last() {
                DialFailure::Refused(message) => ErrorView::ConnectionFailed(message@),
                DialFailure::TimedOut => ErrorView::Timeout,
            }
        }),
    decreases failures.len(),
{
    if failures.len() > 0 {
        addresses_are_tried_in_order(addresses, failures.drop_last());
    }
}

/// The protocols offered to a server, the preferred one first: `h2` and `http/1.1`.
pub fn alpn_protocols() -> (protocols: Vec<Vec<u8>>)
    ensures
        protocols@.len() == 2,
        protocols@[0]@ == seq![104u8, 50],
        protocols@[1]@ == seq![104u8, 116, 116, 112, 47, 49, 46, 49],
{
    let h2: Vec<u8> = vec![104, 50];
    let http1: Vec<u8> = vec![104, 116, 116, 112, 47, 49, 46, 49];
    let mut protocols: Vec<Vec<u8>> = Vec::new();
    protocols.push(h2);
    protocols.push(http1);
    assert(protocols@[0]@ =~= seq![104u8, 50]);
    assert(protocols@[1]@ =~= seq![104u8, 116, 116, 112, 47, 49, 46, 49]);
    protocols
}

/// The protocol that is spoken, where `alpn` is what the server chose of those offered:
/// HTTP/2 where it chose `h2`, and HTTP/1.1 in any other case.
pub fn negotiated_protocol(alpn: Option<&[u8]>) -> (protocol: NegotiatedProtocol)
    ensures
        protocol == protocol_for(
            match alpn {
                Some(name) => Some(name@),
                None => None,
            },
        ),
{
    match alpn {
        Some(name) => {
            let chosen = name.len() == 2 && name[0] == 104 && name[1] == 50;
            assert(chosen ==> name@ =~= seq![104u8, 50]);
            if chosen {
                NegotiatedProtocol::Http2
            } else {
                NegotiatedProtocol::Http1
            }
        },
        None => NegotiatedProtocol::Http1,
    }
}

/// What can go wrong once the host is connected to, with the message of the cause.
#[derive(Debug)]
pub enum HandshakeFault {
    ServerName(String),
    Tls(String),
    Http1(String),
    Http2(String),
}

/// The error that a fault is reported as.
pub open spec fn handshake_error(fault: HandshakeFault) -> ErrorView {
    match fault {
        HandshakeFault::ServerName(e) => ErrorView::TlsError("invalid server name: "@ + e@),
        HandshakeFault::Tls(e) => ErrorView::TlsError(e@),
        HandshakeFault::Http1(e) => ErrorView::ConnectionFailed("HTTP/1.1 handshake: "@ + e@),
        HandshakeFault::Http2(e) => ErrorView::ConnectionFailed("HTTP/2 handshake: "@ + e@),
    }
}

impl HandshakeFault {
    /// The error that the fault is reported as.
    pub fn into_error(self) -> (error: DownloadError)
        ensures
            error@ == handshake_error(self),
    {
        match self {
            HandshakeFault::ServerName(e) => DownloadError::TlsError(
                text::join("invalid server name: ", e.as_str()),
            ),
            HandshakeFault::Tls(e) => DownloadError::TlsError(e),
            HandshakeFault::Http1(e) => DownloadError::ConnectionFailed(
                text::join("HTTP/1.1 handshake: ", e.as_str()),
            ),
            HandshakeFault::Http2(e) => DownloadError::ConnectionFailed(
                text::join("HTTP/2 handshake: ", e.as_str()),
            ),
        }
    }
}

/// What is to be done next to open a connection.
#[derive(Debug)]
pub enum OpenStep {
    /// Look up the addresses of the host.
    Resolve,
    /// Connect to this address.
    Connect(Address),
    /// Make a TLS handshake over the connection, offering the protocols.
    Secure,
    /// Make the handshake of this protocol, which ends the opening.
    Handshake(NegotiatedProtocol),
    /// Nothing: the connection cannot be opened.
    Failed(DownloadError),
}

/// What is to be done next, with texts as rows of characters.
pub enum OpenView {
    Resolve,
    Connect(Address),
    Secure,
    Handshake(NegotiatedProtocol),
    Failed(ErrorView),
}

impl View for OpenStep {
    type V = OpenView;

    open spec fn view(&self) -> OpenView {
        match *self {
            OpenStep::Resolve => OpenView::Resolve,
            OpenStep::Connect(address) => OpenView::Connect(address),
            OpenStep::Secure => OpenView::Secure,
            OpenStep::Handshake(protocol) => OpenView::Handshake(protocol),
            OpenStep::Failed(error) => OpenView::Failed(error@),
        }
    }
}

/// The opening of a connection: its host is resolved, one of the addresses connected to,
/// and the connection secured unless it is to be plain.
#[derive(Debug)]
pub struct Opening {
    plain_mode: bool,
    dial: Dial,
}

/// An opening: whether it is plain, and the addresses.
pub struct OpeningView {
    pub plain_mode: bool,
    pub dial: DialView,
}

impl View for Opening {
    type V = OpeningView;

    closed spec fn view(&self) -> OpeningView {
        OpeningView { plain_mode: self.plain_mode, dial: self.dial@ }
    }
}

/// What is done with the next address: it is connected to, or there is none left.
pub open spec fn dial_step(dial: DialView) -> OpenView {
    match next_address(dial) {
        Some(address) => OpenView::Connect(address),
        None => OpenView::Failed(dial_error(dial)),
    }
}

/// The protocol that is spoken where the server chose `alpn`.
pub open spec fn protocol_for(alpn: Option<Seq<u8>>) -> NegotiatedProtocol {
    if alpn == Some(seq![104u8, 50]) {
        NegotiatedProtocol::Http2
    } else {
        NegotiatedProtocol::Http1
    }
}

/// What is done once an address is connected to.
pub open spec fn connected_step(plain_mode: bool) -> OpenView {
    if plain_mode {
        OpenView::Handshake(NegotiatedProtocol::Http1)
    } else {
        OpenView::Secure
    }
}

/// What is done once the connection is secured, or cannot be.
pub open spec fn secured_step(secured: Result<Option<Vec<u8>>, HandshakeFault>) -> OpenView {
    match secured {
        Ok(Some(alpn)) => OpenView::Handshake(protocol_for(Some(alpn@))),
        Ok(None) => OpenView::Handshake(protocol_for(None)),
        Err(fault) => OpenView::Failed(handshake_error(fault)),
    }
}

impl Opening {
    /// Starts the opening of a connection.
    pub fn start(plain_mode: bool) -> (started: (Opening, OpenStep))
        ensures
            started.0@ == (OpeningView {
                plain_mode,
                dial: fresh_dial(Seq::empty()),
            }),
            started.1@ == OpenView::Resolve,
    {
        let dial = Dial::new(Vec::new());
        assert(dial@.addresses =~= Seq::empty());
        (Opening { plain_mode, dial }, OpenStep::Resolve)
    }

    /// Goes on with the addresses that the host was resolved to.
    pub fn on_resolved(&mut self, resolved: Result<Vec<Address>, DownloadError>) -> (step: OpenStep)
        ensures
            final(self)@.plain_mode == old(self)@.plain_mode,
            match resolved {
                Err(error) => {
                    &&& step@ == OpenView::Failed(error@)
                    &&& final(self)@ == old(self)@
                },
                Ok(addresses) => {
                    let dial = fresh_dial(addresses@);
                    &&& step@ == dial_step(dial)
                    &&& final(self)@.dial == dial
                },
            },
    {
        match resolved {
            Err(error) => OpenStep::Failed(error),
            Ok(addresses) => {
                self.dial = Dial::new(addresses);
                self.dial_next()
            },
        }
    }

    fn dial_next(&self) -> (step: OpenStep)
        ensures
            step@ == dial_step(self@.dial),
    {
        match self.dial.next() {
            Some(address) => OpenStep::Connect(address),
            None => OpenStep::Failed(self.dial.error()),
        }
    }

    /// Goes on after the next address was connected to, or was not: a plain connection is
    /// ready for HTTP/1.1, any other is secured first.
    pub fn on_connected(&mut self, connected: Result<(), DialFailure>) -> (step: OpenStep)
        requires
            next_address(old(self)@.dial) is Some,
        ensures
            final(self)@.plain_mode == old(self)@.plain_mode,
            match connected {
                Ok(()) => {
                    &&& step@ == connected_step(old(self)@.plain_mode)
                    &&& final(self)@ == old(self)@
                },
                Err(failure) => {
                    let dial = after_failure(old(self)@.dial, failure_error(failure));
                    &&& step@ == dial_step(dial)
                    &&& final(self)@.dial == dial
                },
            },
    {
        match connected {
            Ok(()) => if self.plain_mode {
                OpenStep::Handshake(NegotiatedProtocol::Http1)
            } else {
                OpenStep::Secure
            },
            Err(failure) => {
                self.dial.failed(failure);
                self.dial_next()
            },
        }
    }

    /// Goes on after the connection was secured, with the protocol that the server chose,
    /// or was not.
    pub fn on_secured(&self, secured: Result<Option<Vec<u8>>, HandshakeFault>) -> (step: OpenStep)
        ensures
            step@ == secured_step(secured),
    {
        match secured {
            Ok(Some(alpn)) => OpenStep::Handshake(negotiated_protocol(Some(alpn.as_slice()))),
            Ok(None) => OpenStep::Handshake(negotiated_protocol(None)),
            Err(fault) => OpenStep::Failed(fault.into_error()),
        }
    }
}

/// How an HTTP/2 connection is set up.
#[derive(Debug)]
pub struct Http2Settings {
    pub initial_stream_window_size: u32,
    pub adaptive_window: bool,
    pub keep_alive_interval: Duration,
    pub keep_alive_timeout: Duration,
}

/// Whether `settings` set an HTTP/2 connection up with this window.
pub open spec fn sets_up(settings: Http2Settings, window_size: u32) -> bool {
    &&& settings.initial_stream_window_size == window_size
    &&& settings.adaptive_window
    &&& settings.keep_alive_interval@ == 10_000_000_000
    &&& settings.keep_alive_timeout@ == 20_000_000_000
}

/// How an HTTP/2 connection is set up: the window comes from the configuration, and the
/// connection is kept alive with a ping every 10 seconds that is answered within 20.
pub fn http2_settings(config: &Config) -> (settings: Http2Settings)
    ensures
        sets_up(settings, config.stream_window_size),
{
    Http2Settings {
        initial_stream_window_size: config.stream_window_size,
        adaptive_window: true,
        keep_alive_interval: Duration::from_secs(10),
        keep_alive_timeout: Duration::from_secs(20),
    }
}

/// HTTP/2 is spoken exactly where the server chose the two bytes of `h2`.
pub proof fn http2_is_spoken_where_it_was_chosen(alpn: Option<Seq<u8>>)
    ensures
        protocol_for(alpn) == NegotiatedProtocol::Http2 <==> (alpn matches Some(name) && name.len()
            == 2 && name[0] == 0x68 && name[1] == 0x32),
{
    if let Some(name) = alpn {
        if name.len() == 2 && name[0] == 0x68 && name[1] == 0x32 {
            assert(name =~= seq![104u8, 50]);
        }
    }
}

/// An opening goes on with the next address in line as long as there is one, and otherwise
/// ends with the last failure.
pub proof fn openings_try_the_next_address(dial: DialView, failure: DialFailure)
    ensures
        ({
            let after = after_failure(dial, failure_error(failure));
            &&& after.addresses == dial.addresses
            &&& after.tried == dial.tried + 1
            &&& dial.tried + 1 < dial.addresses.len() ==> dial_step(after) == OpenView::Connect(
                dial.addresses[dial.tried as int + 1],
            )
            &&& dial.tried + 1 >= dial.addresses.len() ==> dial_step(after) == OpenView::Failed(
                match failure {
                    DialFailure::Refused(message) => ErrorView::ConnectionFailed(message@),
                    DialFailure::TimedOut => ErrorView::Timeout,
                },
            )
        }),
{
}

/// What goes wrong with the server's name or with TLS is a TLS error, and what goes wrong
/// with the handshake of HTTP is a failed connection. The message ends with that of the
/// cause.
pub proof fn handshake_faults_are_told_apart(fault: HandshakeFault)
    ensures
        match fault {
            HandshakeFault::ServerName(e) => handshake_error(fault) matches ErrorView::TlsError(
                message,
            ) && message.len() > e@.len() && message.skip(message.len() - e@.len()) == e@,
            HandshakeFault::Tls(e) => handshake_error(fault) == ErrorView::TlsError(e@),
            HandshakeFault::Http1(e) => handshake_error(fault) matches ErrorView::ConnectionFailed(
                message,
            ) && message.len() > e@.len() && message.skip(message.len() - e@.len()) == e@,
            HandshakeFault::Http2(e) => handshake_error(fault) matches ErrorView::ConnectionFailed(
                message,
            ) && message.len() > e@.len() && message.skip(message.len() - e@.len()) == e@,
        },
{
    reveal_strlit("invalid server name: ");
    reveal_strlit("HTTP/1.1 handshake: ");
    reveal_strlit("HTTP/2 handshake: ");
    match fault {
        HandshakeFault::ServerName(e) => {
            let message = handshake_error(fault)->TlsError_0;
            assert(message.skip(message.len() - e@.len()) =~= e@);
        },
        HandshakeFault::Tls(_) => {},
        HandshakeFault::Http1(e) => {
            let message = handshake_error(fault)->ConnectionFailed_0;
            assert(message.skip(message.len() - e@.len()) =~= e@);
        },
        HandshakeFault::Http2(e) => {
            let message = handshake_error(fault)->ConnectionFailed_0;
            assert(message.skip(message.len() - e@.len()) =~= e@);
        },
    }
}

/// A plain connection speaks HTTP/1.1 as soon as it is there. Any other is secured first,
/// and then speaks what the server chose: HTTP/2 for the two bytes of `h2`, HTTP/1.1 for
/// anything else or nothing. What cannot be secured fails.
pub proof fn connections_are_secured_unless_plain(
    secured: Result<Option<Vec<u8>>, HandshakeFault>,
)
    ensures
        connected_step(true) == OpenView::Handshake(NegotiatedProtocol::Http1),
        connected_step(false) == OpenView::Secure,
        secured matches Ok(Some(name)) && name@.len() == 2 && name@[0] == 0x68 && name@[1] == 0x32
            ==> secured_step(secured) == OpenView::Handshake(NegotiatedProtocol::Http2),
        secured matches Ok(Some(name)) && !(name@.len() == 2 && name@[0] == 0x68 && name@[1]
            == 0x32) ==> secured_step(secured) == OpenView::Handshake(NegotiatedProtocol::Http1),
        secured matches Ok(None) ==> secured_step(secured) == OpenView::Handshake(
            NegotiatedProtocol::Http1,
        ),
        secured matches Err(fault) ==> secured_step(secured) == OpenView::Failed(
            handshake_error(fault),
        ),
{
    if let Ok(Some(name)) = secured {
        http2_is_spoken_where_it_was_chosen(Some(name@));
    }
    http2_is_spoken_where_it_was_chosen(None);
}

/// HTTP/2 connections are set up with the window that is asked for, adapt it, and are kept
/// alive with a ping every 10 seconds that is to be answered within 20.
pub proof fn http2_connections_are_kept_alive(settings: Http2Settings, window_size: u32)
    requires
        sets_up(settings, window_size),
    ensures
        settings.initial_stream_window_size == window_size,
        settings.adaptive_window,
        settings.keep_alive_interval@ == 10_000_000_000,
        settings.keep_alive_timeout@ == 20_000_000_000,
{
}

/// The first address of a host is tried first. A host without an address is a failed
/// connection.
pub proof fn openings_begin_with_the_first_address(addresses: Seq<Address>)
    ensures
        addresses.len() > 0 ==> dial_step(fresh_dial(addresses)) == OpenView::Connect(addresses[0]),
        addresses.len() == 0 ==> (dial_step(fresh_dial(addresses)) matches OpenView::Failed(error)
            && error is ConnectionFailed),
        fresh_dial(addresses).addresses == addresses,
        fresh_dial(addresses).tried == 0,
{
}

} // verus!
