//! One request and the redirects that it leads through.
//!
//! An `Exchange` decides what to send and what each reply means. Sending, draining and
//! reading bodies is done around it.

use bytes::Bytes;
use http::{HeaderMap, HeaderValue};

use vstd::prelude::*;
use vstd::string::{StrSliceExecFns, StringExecFns};

use crate::headers;
use crate::text;
use crate::time::Duration;
use crate::types::{DownloadError, ErrorView};
use crate::uri;
use crate::uri::{Uri, UriView};

verus! {

/// Data returned from a successful HTTP request execution.
#[derive(Debug)]
pub struct ResponseData {
    pub bytes: Bytes,
    pub headers: HeaderMap<HeaderValue>,
    pub elapsed: Duration,
}

/// Subset of Config relevant to a single request execution.
#[derive(Debug)]
pub struct RequestConfig {
    pub user_agent: String,
    pub request_timeout: Duration,
    pub max_redirects: u8,
}

impl Clone for RequestConfig {
    fn clone(&self) -> (copy: Self)
        ensures
            copy == *self,
    {
        RequestConfig {
            user_agent: self.user_agent.clone(),
            request_timeout: self.request_timeout,
            max_redirects: self.max_redirects,
        }
    }
}

/// A redirect that leads to another host, for which a connection of its own is needed.
#[derive(Debug)]
pub struct CrossHostRedirect {
    pub new_uri: Uri,
    pub redirects_remaining: u8,
}

/// Successful transport result, or a cross-host redirect signal.
#[derive(Debug)]
pub enum TransportResult {
    Response(ResponseData),
    Redirect(CrossHostRedirect),
}

/// What is sent: a GET request for `path` with these headers and no body.
#[derive(Debug)]
pub struct RequestHead {
    pub path: String,
    pub headers: Vec<(String, String)>,
}

/// A row of named texts, with its texts as rows of characters.
pub open spec fn text_pairs(pairs: Seq<(String, String)>) -> Seq<(Seq<char>, Seq<char>)> {
    pairs.map_values(|pair: (String, String)| (pair.0@, pair.1@))
}

/// What can go wrong while a request is made, with the message of the cause.
#[derive(Debug)]
pub enum RequestFault {
    Build(String),
    NotReady(String),
    Send(String),
    ErrorBody(String),
    ResponseBody(String),
}

/// The error that a fault is reported as.
pub open spec fn fault_error(fault: RequestFault) -> ErrorView {
    ErrorView::ConnectionFailed(
        match fault {
            RequestFault::Build(e) => "failed to build request: "@ + e@,
            RequestFault::NotReady(e) => "sender not ready: "@ + e@,
            RequestFault::Send(e) => "send failed: "@ + e@,
            RequestFault::ErrorBody(e) => "failed to read error body: "@ + e@,
            RequestFault::ResponseBody(e) => "failed to read response body: "@ + e@,
        },
    )
}

impl RequestFault {
    /// The error that the fault is reported as.
    pub fn into_error(self) -> (error: DownloadError)
        ensures
            error@ == fault_error(self),
    {
        let message = match self {
            RequestFault::Build(e) => text::join("failed to build request: ", e.as_str()),
            RequestFault::NotReady(e) => text::join("sender not ready: ", e.as_str()),
            RequestFault::Send(e) => text::join("send failed: ", e.as_str()),
            RequestFault::ErrorBody(e) => text::join("failed to read error body: ", e.as_str()),
            RequestFault::ResponseBody(e) => text::join(
                "failed to read response body: ",
                e.as_str(),
            ),
        };
        DownloadError::ConnectionFailed(message)
    }
}

/// The status codes that lead elsewhere.
pub open spec fn is_redirect(status: u16) -> bool {
    status == 301 || status == 302 || status == 307 || status == 308
}

/// The status codes that carry the resource.
pub open spec fn is_success(status: u16) -> bool {
    200 <= status < 300
}

/// What the head of a response calls for.
#[derive(Debug)]
pub enum HeadStep {
    /// Give up.
    Fail(DownloadError),
    /// Drain the body, then follow the redirect to this location.
    Drain(String),
    /// Read the body, which tells what went wrong.
    ReadError,
    /// Read the body, which is the resource.
    ReadResource,
}

/// What the head of a response calls for, with texts as rows of characters.
pub enum HeadView {
    Fail(ErrorView),
    Drain(Seq<char>),
    ReadError,
    ReadResource,
}

impl View for HeadStep {
    type V = HeadView;

    open spec fn view(&self) -> HeadView {
        match *self {
            HeadStep::Fail(e) => HeadView::Fail(e@),
            HeadStep::Drain(location) => HeadView::Drain(location@),
            HeadStep::ReadError => HeadView::ReadError,
            HeadStep::ReadResource => HeadView::ReadResource,
        }
    }
}

/// Where a drained redirect leads.
#[derive(Debug)]
pub enum RedirectStep {
    /// Nowhere.
    Fail(DownloadError),
    /// To another host.
    Leave(CrossHostRedirect),
    /// To another path of the same host: send the next request.
    Again,
}

/// A request, its target and the redirects followed so far.
#[derive(Debug)]
pub struct Exchange {
    url: Uri,
    host: String,
    user_agent: String,
    max_redirects: u8,
    redirects: u8,
}

/// An exchange, with its texts as rows of characters.
pub struct ExchangeView {
    pub url: UriView,
    pub host: Seq<char>,
    pub user_agent: Seq<char>,
    pub max_redirects: nat,
    pub redirects: nat,
}

impl View for Exchange {
    type V = ExchangeView;

    closed spec fn view(&self) -> ExchangeView {
        ExchangeView {
            url: self.url@,
            host: self.host@,
            user_agent: self.user_agent@,
            max_redirects: self.max_redirects as nat,
            redirects: self.redirects as nat,
        }
    }
}

/// What a response with this status and `location` header calls for, after
/// `redirects` redirects of at most `max_redirects`.
pub open spec fn head_step(
    redirects: nat,
    max_redirects: nat,
    status: u16,
    location: Option<Seq<u8>>,
) -> HeadView {
    if is_redirect(status) {
        if redirects >= max_redirects {
            HeadView::Fail(
                ErrorView::TooManyRedirects(
                    "exceeded "@ + text::decimal_digits(max_redirects) + " redirects"@,
                ),
            )
        } else {
            match location {
                None => HeadView::Fail(
                    ErrorView::ConnectionFailed("redirect response missing Location header"@),
                ),
                Some(value) => match headers::value_text(value) {
                    None => HeadView::Fail(
                        ErrorView::ConnectionFailed(
                            "invalid Location header: failed to convert header to a str"@,
                        ),
                    ),
                    Some(location) => HeadView::Drain(location),
                },
            }
        }
    } else if is_success(status) {
        HeadView::ReadResource
    } else {
        HeadView::ReadError
    }
}

/// A request for `url` on a connection to `host`, with nothing followed yet.
pub open spec fn started(url: UriView, host: Seq<char>, config: RequestConfig) -> ExchangeView {
    ExchangeView {
        url,
        host,
        user_agent: config.user_agent@,
        max_redirects: config.max_redirects as nat,
        redirects: 0,
    }
}

/// The exchange after a response: a redirect that is to be followed is counted.
pub open spec fn counted(exchange: ExchangeView, step: HeadView) -> ExchangeView {
    ExchangeView {
        redirects: if step is Drain {
            exchange.redirects + 1
        } else {
            exchange.redirects
        },
        ..exchange
    }
}

/// The path that is requested: that of the target, or the root where it names none.
pub open spec fn requested_path(exchange: ExchangeView) -> Seq<char> {
    match exchange.url.path_and_query {
        Some(path) => path,
        None => "/"@,
    }
}

/// The headers that are sent.
pub open spec fn sent_headers(exchange: ExchangeView) -> Seq<(Seq<char>, Seq<char>)> {
    seq![
        ("Host"@, exchange.host),
        ("User-Agent"@, exchange.user_agent),
        ("Accept"@, "image/*"@),
    ]
}

impl Exchange {
    #[verifier::type_invariant]
    spec fn within_limit(self) -> bool {
        self.redirects <= self.max_redirects
    }

    /// A request for `url` on a connection to `host`.
    pub fn new(url: &Uri, host: &str, config: &RequestConfig) -> (exchange: Exchange)
        ensures
            exchange@ == started(url@, host@, *config),
    {
        Exchange {
            url: url.clone(),
            host: host.to_string(),
            user_agent: config.user_agent.clone(),
            max_redirects: config.max_redirects,
            redirects: 0,
        }
    }

    /// The request to send next.
    pub fn request(&self) -> (head: RequestHead)
        ensures
            head.path@ == requested_path(self@),
            text_pairs(head.headers@) == sent_headers(self@),
    {
        let path = match &self.url.path_and_query {
            Some(path) => path.clone(),
            None => "/".to_string(),
        };
        let mut headers: Vec<(String, String)> = Vec::new();
        headers.push(("Host".to_string(), self.host.clone()));
        headers.push(("User-Agent".to_string(), self.user_agent.clone()));
        headers.push(("Accept".to_string(), "image/*".to_string()));
        assert(text_pairs(headers@) =~= sent_headers(self@));
        RequestHead { path, headers }
    }

    /// What a response with this status and `location` header calls for. A redirect that
    /// is to be followed is counted.
    pub fn on_status(&mut self, status: u16, location: Option<&[u8]>) -> (step: HeadStep)
        ensures
            step@ == head_step(
                old(self)@.redirects,
                old(self)@.max_redirects,
                status,
                match location {
                    Some(value) => Some(value@),
                    None => None,
                },
            ),
            final(self)@ == counted(old(self)@, step@),
            final(self)@.redirects <= final(self)@.max_redirects,
    {
        proof {
            use_type_invariant(&*self);
        }
        if status == 301 || status == 302 || status == 307 || status == 308 {
            if self.redirects >= self.max_redirects {
                let mut message = "exceeded ".to_string();
                text::push_decimal(&mut message, self.max_redirects as u128);
                message.append(" redirects");
                return HeadStep::Fail(DownloadError::TooManyRedirects(message));
            }
            let value = match location {
                Some(value) => value,
                None => {
                    return HeadStep::Fail(
                        DownloadError::ConnectionFailed(
                            "redirect response missing Location header".to_string(),
                        ),
                    );
                },
            };
            match headers::header_text(value) {
                Some(location) => {
                    self.redirects = self.redirects + 1;
                    HeadStep::Drain(location)
                },
                None => HeadStep::Fail(
                    DownloadError::ConnectionFailed(
                        "invalid Location header: failed to convert header to a str".to_string(),
                    ),
                ),
            }
        } else if 200 <= status && status < 300 {
            HeadStep::ReadResource
        } else {
            HeadStep::ReadError
        }
    }

    /// What a response with this status and these headers calls for.
    pub fn on_head(&mut self, status: u16, headers: &HeaderMap<HeaderValue>) -> (step: HeadStep)
        ensures
            step@ == head_step(
                old(self)@.redirects,
                old(self)@.max_redirects,
                status,
                headers::first_of(headers::header_values(*headers), "location"@),
            ),
            final(self)@ == counted(old(self)@, step@),
    {
        proof {
            reveal_strlit("location");
            assert(text::lower_text("location"@) =~= "location"@);
        }
        match headers::first_value(headers, "location") {
            Some(value) => self.on_status(status, Some(value.as_slice())),
            None => self.on_status(status, None),
        }
    }

    /// Follows a redirect to `target`, which the location was resolved to.
    pub fn on_resolved(&mut self, target: Result<Uri, DownloadError>) -> (step: RedirectStep)
        ensures
            step@ == redirect_step(old(self)@, resolved(target)),
            final(self)@ == followed(old(self)@, resolved(target)),
    {
        proof {
            use_type_invariant(&*self);
            reveal_strlit("");
            assert(""@ =~= Seq::<char>::empty());
        }
        let target = match target {
            Ok(target) => target,
            Err(e) => {
                return RedirectStep::Fail(e);
            },
        };
        let same_host = match &target.host {
            Some(host) => text::equal_ignoring_case(host.as_str(), self.host.as_str()),
            None => text::equal_ignoring_case("", self.host.as_str()),
        };
        if !same_host {
            return RedirectStep::Leave(
                CrossHostRedirect {
                    new_uri: target,
                    redirects_remaining: self.max_redirects - self.redirects,
                },
            );
        }
        self.url = target;
        RedirectStep::Again
    }

    /// Follows a redirect to `location`, once the body of its response is drained.
    pub fn on_drained(&mut self, location: &str) -> (step: RedirectStep)
        ensures
            ({
                let target = uri::redirect_target(
                    old(self)@.url,
                    location@,
                    uri::parsed_uri(location@),
                    uri::parsed_path(location@),
                );
                &&& step@ == redirect_step(old(self)@, target)
                &&& final(self)@ == followed(old(self)@, target)
            }),
    {
        let target = uri::resolve_redirect(&self.url, location);
        self.on_resolved(target)
    }
}

/// Where a drained redirect leads, with texts as rows of characters.
pub enum RedirectView {
    Fail(ErrorView),
    Leave { new_uri: UriView, redirects_remaining: nat },
    Again,
}

impl View for RedirectStep {
    type V = RedirectView;

    open spec fn view(&self) -> RedirectView {
        match *self {
            RedirectStep::Fail(e) => RedirectView::Fail(e@),
            RedirectStep::Leave(redirect) => RedirectView::Leave {
                new_uri: redirect.new_uri@,
                redirects_remaining: redirect.redirects_remaining as nat,
            },
            RedirectStep::Again => RedirectView::Again,
        }
    }
}

/// The target of a redirect, or its error, with texts as rows of characters.
pub open spec fn resolved(target: Result<Uri, DownloadError>) -> Result<UriView, ErrorView> {
    match target {
        Ok(target) => Ok(target@),
        Err(e) => Err(e@),
    }
}

/// Whether a URI leads to `host`. A URI without a host leads to the host without a name.
pub open spec fn leads_to_host(target: UriView, host: Seq<char>) -> bool {
    text::lower_text(
        match target.host {
            Some(name) => name,
            None => Seq::empty(),
        },
    ) == text::lower_text(host)
}

/// Where a redirect to `target` leads: away, where the host is another one, with as many
/// redirects left as have not been followed.
pub open spec fn redirect_step(
    exchange: ExchangeView,
    target: Result<UriView, ErrorView>,
) -> RedirectView {
    match target {
        Err(e) => RedirectView::Fail(e),
        Ok(target) => if leads_to_host(target, exchange.host) {
            RedirectView::Again
        } else {
            RedirectView::Leave {
                new_uri: target,
                redirects_remaining: (exchange.max_redirects - exchange.redirects) as nat,
            }
        },
    }
}

/// The exchange after a redirect to `target`: it goes on there where the host is the same.
pub open spec fn followed(
    exchange: ExchangeView,
    target: Result<UriView, ErrorView>,
) -> ExchangeView {
    match target {
        Err(_) => exchange,
        Ok(target) => if leads_to_host(target, exchange.host) {
            ExchangeView { url: target, ..exchange }
        } else {
            exchange
        },
    }
}

/// The text that bytes stand for, with what is not UTF-8 replaced.
pub uninterp spec fn lossy_utf8(bytes: Seq<u8>) -> Seq<char>;

/// `String::from_utf8_lossy` of the standard library: bytes that are UTF-8 throughout
/// give the text that they encode. How other bytes are replaced is left to that library.
#[verifier::external_body]
fn lossy_text(bytes: &[u8]) -> (s: String)
    ensures
        s@ == lossy_utf8(bytes@),
        vstd::utf8::valid_utf8(bytes@) ==> s@ == vstd::utf8::decode_utf8(bytes@),
{
    String::from_utf8_lossy(bytes).into_owned()
}

/// The longest message taken from the body of an error response, in characters.
pub const MAX_MESSAGE_CHARS: usize = 200;

/// At most the first 200 characters.
pub open spec fn message_of(body: Seq<char>) -> Seq<char> {
    if body.len() <= MAX_MESSAGE_CHARS {
        body
    } else {
        body.take(MAX_MESSAGE_CHARS as int)
    }
}

/// The error for a response with this status and the text of this body.
pub fn status_error(code: u16, body: &str, retry_after: Option<Duration>) -> (error: DownloadError)
    ensures
        error@ == (ErrorView::HttpStatus { code, message: message_of(body@), retry_after }),
{
    let length = body.unicode_len();
    let message = if length <= MAX_MESSAGE_CHARS {
        body.to_string()
    } else {
        body.substring_char(0, MAX_MESSAGE_CHARS).to_string()
    };
    assert(message@ =~= message_of(body@));
    DownloadError::HttpStatus { code, message, retry_after }
}

/// The whole seconds that a `retry-after` header names: nothing where there is no such
/// header or its value is not such a number.
pub open spec fn retry_after_seconds(value: Option<Seq<u8>>) -> Option<nat> {
    match value {
        Some(value) => match headers::value_text(value) {
            Some(text) => text::parsed_decimal(text, u64::MAX as nat),
            None => None,
        },
        None => None,
    }
}

/// Whether `wait` is the wait of so many whole seconds.
pub open spec fn is_wait_of(wait: Option<Duration>, seconds: Option<nat>) -> bool {
    match seconds {
        Some(n) => wait is Some && wait.unwrap()@ == n * 1_000_000_000,
        None => wait is None,
    }
}

/// Reads the value of a `retry-after` header.
pub fn retry_after_value(value: Option<&[u8]>) -> (wait: Option<Duration>)
    ensures
        is_wait_of(
            wait,
            retry_after_seconds(
                match value {
                    Some(v) => Some(v@),
                    None => None,
                },
            ),
        ),
{
    match value {
        Some(value) => match headers::header_text(value) {
            Some(text) => match text::parse_decimal(text.as_str(), u64::MAX) {
                Some(seconds) => Some(Duration::from_secs(seconds)),
                None => None,
            },
            None => None,
        },
        None => None,
    }
}

/// Parse Retry-After header value (integer seconds only).
pub fn parse_retry_after(headers: &HeaderMap<HeaderValue>) -> (wait: Option<Duration>)
    ensures
        is_wait_of(
            wait,
            retry_after_seconds(
                headers::first_of(headers::header_values(*headers), "retry-after"@),
            ),
        ),
{
    proof {
        reveal_strlit("retry-after");
        assert(text::lower_text("retry-after"@) =~= "retry-after"@);
    }
    match headers::first_value(headers, "retry-after") {
        Some(value) => retry_after_value(Some(value.as_slice())),
        None => retry_after_value(None),
    }
}

/// The status of a response to one of too many requests, which may say when to come back.
pub const TOO_MANY_REQUESTS: u16 = 429;

/// The whole seconds after which a response asks for the request to be made again: those
/// of its `retry-after` header, where its status is 429.
pub open spec fn wait_asked_for(status: u16, retry_after: Option<Seq<u8>>) -> Option<nat> {
    if status == TOO_MANY_REQUESTS {
        retry_after_seconds(retry_after)
    } else {
        None
    }
}

/// Whether `error` tells of a response with this status, `retry-after` header and text.
pub open spec fn tells_of_response(
    error: ErrorView,
    status: u16,
    retry_after: Option<Seq<u8>>,
    body: Seq<char>,
) -> bool {
    &&& error matches ErrorView::HttpStatus { code, message, retry_after: wait }
    &&& code == status
    &&& message == message_of(body)
    &&& is_wait_of(wait, wait_asked_for(status, retry_after))
}

/// The error for a response that is neither a redirect nor a success, once its body is
/// read.
pub fn on_error_body(
    status: u16,
    headers: &HeaderMap<HeaderValue>,
    body: Result<Bytes, String>,
) -> (error: DownloadError)
    ensures
        match body {
            Err(e) => error@ == fault_error(RequestFault::ErrorBody(e)),
            Ok(bytes) => tells_of_response(
                error@,
                status,
                headers::first_of(headers::header_values(*headers), "retry-after"@),
                lossy_utf8(headers::bytes_contents(bytes)),
            ),
        },
{
    match body {
        Err(e) => RequestFault::ErrorBody(e).into_error(),
        Ok(bytes) => {
            let text = lossy_text(headers::bytes_slice(&bytes));
            let retry_after = if status == TOO_MANY_REQUESTS {
                parse_retry_after(headers)
            } else {
                None
            };
            status_error(status, text.as_str(), retry_after)
        },
    }
}

/// The result of a successful response, once its body is read. The time it took is not
/// known yet.
pub fn on_resource_body(headers: HeaderMap<HeaderValue>, body: Result<Bytes, String>) -> (result:
    Result<TransportResult, DownloadError>)
    ensures
        match body {
            Err(e) => result matches Err(error) && error@ == fault_error(
                RequestFault::ResponseBody(e),
            ),
            Ok(bytes) => result matches Ok(TransportResult::Response(data)) && data.bytes == bytes
                && data.headers == headers && data.elapsed@ == 0,
        },
{
    match body {
        Err(e) => Err(RequestFault::ResponseBody(e).into_error()),
        Ok(bytes) => Ok(
            TransportResult::Response(ResponseData { bytes, headers, elapsed: Duration::zero() }),
        ),
    }
}

/// Whether `result` is the result of a request that took `elapsed`, where `outcome` is missing
/// if the request did not come to an end in its time.
pub open spec fn is_result_of(
    result: Result<TransportResult, DownloadError>,
    outcome: Option<Result<TransportResult, DownloadError>>,
    elapsed: Duration,
) -> bool {
    match outcome {
        None => result == Err::<TransportResult, DownloadError>(DownloadError::Timeout),
        Some(Ok(TransportResult::Response(data))) => result == Ok::<TransportResult, DownloadError>(
            TransportResult::Response(ResponseData { elapsed, ..data }),
        ),
        Some(other) => result == other,
    }
}

/// The result of a request that took `elapsed`, where `outcome` is missing if the request
/// did not come to an end in its time.
pub fn finish_request(
    outcome: Option<Result<TransportResult, DownloadError>>,
    elapsed: Duration,
) -> (result: Result<TransportResult, DownloadError>)
    ensures
        is_result_of(result, outcome, elapsed),
{
    match outcome {
        None => Err(DownloadError::Timeout),
        Some(Ok(TransportResult::Response(data))) => Ok(
            TransportResult::Response(
                ResponseData { bytes: data.bytes, headers: data.headers, elapsed },
            ),
        ),
        Some(other) => other,
    }
}

/// How many redirects are followed on one connection, where `replies` are the statuses
/// and `location` headers of the responses that come in.
pub open spec fn redirects_followed(
    replies: Seq<(u16, Option<Seq<u8>>)>,
    redirects: nat,
    max_redirects: nat,
) -> nat
    decreases replies.len(),
{
    if replies.len() > 0 && head_step(redirects, max_redirects, replies[0].0, replies[0].1) is Drain {
        1 + redirects_followed(replies.drop_first(), redirects + 1, max_redirects)
    } else {
        0
    }
}

/// No more redirects are followed than allowed, whatever the server sends.
pub proof fn redirects_are_bounded(
    replies: Seq<(u16, Option<Seq<u8>>)>,
    redirects: nat,
    max_redirects: nat,
)
    requires
        redirects <= max_redirects,
    ensures
        redirects + redirects_followed(replies, redirects, max_redirects) <= max_redirects,
    decreases replies.len(),
{
    if replies.len() > 0 && head_step(redirects, max_redirects, replies[0].0, replies[0].1) is Drain {
        redirects_are_bounded(replies.drop_first(), redirects + 1, max_redirects);
    }
}

/// A redirect to another host does not start the count anew: the redirects followed
/// before it and those followed after it, with what it leaves, are together no more than
/// allowed at first.
pub proof fn redirect_limit_spans_hosts(
    exchange: ExchangeView,
    target: Result<UriView, ErrorView>,
    replies: Seq<(u16, Option<Seq<u8>>)>,
)
    requires
        exchange.redirects <= exchange.max_redirects,
    ensures
        redirect_step(exchange, target) matches RedirectView::Leave { redirects_remaining, .. }
            ==> exchange.redirects + redirects_followed(replies, 0, redirects_remaining)
            <= exchange.max_redirects,
{
    if let RedirectView::Leave { redirects_remaining, .. } = redirect_step(exchange, target) {
        redirects_are_bounded(replies, 0, redirects_remaining);
    }
}

/// A request names the host of its connection, whatever it was redirected to, and says who
/// asks and that an image is wanted. Nothing else is sent. The path is that of the target,
/// with its query, or the root where the target names none.
pub proof fn requests_say_what_is_wanted(exchange: ExchangeView)
    ensures
        sent_headers(exchange).len() == 3,
        sent_headers(exchange)[0] == (seq!['H', 'o', 's', 't'], exchange.host),
        sent_headers(exchange)[1] == (
            seq!['U', 's', 'e', 'r', '-', 'A', 'g', 'e', 'n', 't'],
            exchange.user_agent,
        ),
        sent_headers(exchange)[2] == (
            seq!['A', 'c', 'c', 'e', 'p', 't'],
            seq!['i', 'm', 'a', 'g', 'e', '/', '*'],
        ),
        exchange.url.path_and_query matches Some(path) ==> requested_path(exchange) == path,
        exchange.url.path_and_query is None ==> requested_path(exchange) == seq!['/'],
{
    reveal_strlit("Host");
    reveal_strlit("User-Agent");
    reveal_strlit("Accept");
    reveal_strlit("image/*");
    reveal_strlit("/");
    assert("Host"@ =~= seq!['H', 'o', 's', 't']);
    assert("User-Agent"@ =~= seq!['U', 's', 'e', 'r', '-', 'A', 'g', 'e', 'n', 't']);
    assert("Accept"@ =~= seq!['A', 'c', 'c', 'e', 'p', 't']);
    assert("image/*"@ =~= seq!['i', 'm', 'a', 'g', 'e', '/', '*']);
    assert("/"@ =~= seq!['/']);
}

/// The body of a response is the resource exactly when its status is one of 200 to 299. It
/// tells what went wrong for every other status but 301, 302, 307 and 308, which lead
/// elsewhere and have no body that counts.
pub proof fn statuses_tell_bodies_apart(
    redirects: nat,
    max_redirects: nat,
    status: u16,
    location: Option<Seq<u8>>,
)
    ensures
        ({
            let step = head_step(redirects, max_redirects, status, location);
            let elsewhere = status == 301 || status == 302 || status == 307 || status == 308;
            &&& step is ReadResource <==> 200 <= status <= 299
            &&& step is ReadError <==> !(200 <= status <= 299) && !elsewhere
            &&& step is Drain || step is Fail <==> elsewhere
        }),
{
}

/// A redirect is followed exactly when fewer were followed than allowed and it names a
/// location that is text, which is where it leads. Each one followed is counted, so that
/// after `max_redirects` of them the next fails. Nothing else changes.
pub proof fn redirects_are_followed_while_allowed(
    exchange: ExchangeView,
    status: u16,
    location: Option<Seq<u8>>,
)
    requires
        status == 301 || status == 302 || status == 307 || status == 308,
    ensures
        ({
            let step = head_step(exchange.redirects, exchange.max_redirects, status, location);
            let after = counted(exchange, step);
            &&& exchange.redirects >= exchange.max_redirects ==> (step matches HeadView::Fail(error)
                && error is TooManyRedirects)
            &&& exchange.redirects < exchange.max_redirects && location is None ==> (step
                matches HeadView::Fail(error) && error is ConnectionFailed)
            &&& exchange.redirects < exchange.max_redirects && location is Some ==> {
                let value = location.unwrap();
                if forall|i: int|
                    0 <= i < value.len() ==> 32 <= #[trigger] value[i] <= 126 || value[i] == 9 {
                    step matches HeadView::Drain(text) && headers::spells(value, text)
                } else {
                    step matches HeadView::Fail(error) && error is ConnectionFailed
                }
            }
            &&& step is Drain ==> after.redirects == exchange.redirects + 1
            &&& step is Fail ==> after.redirects == exchange.redirects
            &&& after.url == exchange.url && after.host == exchange.host && after.user_agent
                == exchange.user_agent && after.max_redirects == exchange.max_redirects
        }),
{
    if let Some(value) = location {
        headers::visible_values_are_text(value);
        if let Some(text) = headers::value_text(value) {
            assert forall|i: int| 0 <= i < value.len() implies #[trigger] value[i] as int
                == text[i] as int by {
                assert(text[i] as int == value[i] as int);
            }
        }
    }
}

/// A redirect stays on its connection exactly when it leads to the host of the connection:
/// a name of the same length with the same characters, but for the case of ASCII letters.
/// It then goes on with the target. To any other host it leaves with the target as it is
/// and the redirects that are left, and the exchange is what it was.
pub proof fn redirects_to_other_hosts_leave(exchange: ExchangeView, target: UriView)
    requires
        exchange.redirects <= exchange.max_redirects,
    ensures
        ({
            let name = match target.host {
                Some(name) => name,
                None => Seq::empty(),
            };
            let same = name.len() == exchange.host.len() && forall|i: int|
                #![trigger name[i]]
                #![trigger exchange.host[i]]
                0 <= i < name.len() ==> {
                    ||| name[i] == exchange.host[i]
                    ||| 65 <= name[i] as int <= 90 && exchange.host[i] as int == name[i] as int + 32
                    ||| 65 <= exchange.host[i] as int <= 90 && name[i] as int
                        == exchange.host[i] as int + 32
                };
            let step = redirect_step(exchange, Ok(target));
            let after = followed(exchange, Ok(target));
            if same {
                step is Again && after == (ExchangeView { url: target, ..exchange })
            } else {
                &&& step matches RedirectView::Leave { new_uri, redirects_remaining }
                &&& new_uri == target
                &&& redirects_remaining + exchange.redirects == exchange.max_redirects
                &&& after == exchange
            }
        }),
{
    let name = match target.host {
        Some(name) => name,
        None => Seq::empty(),
    };
    text::same_but_for_case(name, exchange.host);
}

/// A location that leads nowhere fails with its own error and leaves the exchange alone.
pub proof fn unresolved_redirects_fail(exchange: ExchangeView, error: ErrorView)
    ensures
        redirect_step(exchange, Err(error)) == RedirectView::Fail(error),
        followed(exchange, Err(error)) == exchange,
{
}

/// The message of an error response is its text, cut to 200 characters.
pub proof fn messages_are_cut_to_length(body: Seq<char>)
    ensures
        body.len() <= 200 ==> message_of(body) == body,
        body.len() > 200 ==> message_of(body).len() == 200 && forall|i: int|
            0 <= i < 200 ==> #[trigger] message_of(body)[i] == body[i],
{
}

/// A response asks for a wait exactly when its status is 429 and its `retry-after` header is
/// a number of whole seconds, and then for that many.
pub proof fn waits_are_asked_for_in_seconds(status: u16, seconds: nat, value: Seq<u8>, at: int)
    ensures
        headers::spells(value, text::decimal_digits(seconds)) && seconds <= u64::MAX
            ==> wait_asked_for(429, Some(value)) == Some(seconds),
        headers::spells(value, text::decimal_digits(seconds)) && seconds > u64::MAX
            ==> wait_asked_for(429, Some(value)) is None,
        0 <= at < value.len() && !(48 <= value[at] <= 57) && (at > 0 || value[at] != 43)
            ==> wait_asked_for(429, Some(value)) is None,
        status != 429 ==> wait_asked_for(status, Some(value)) is None,
        wait_asked_for(status, None) is None,
{
    if headers::spells(value, text::decimal_digits(seconds)) {
        headers::spelled_numbers_are_text(value, seconds);
        if seconds <= u64::MAX {
            text::decimal_round_trip(seconds, u64::MAX as nat);
        } else {
            text::decimal_value_of_digits(seconds);
            assert(text::is_digit(text::decimal_digits(seconds)[0]));
        }
    }
    if 0 <= at < value.len() && !(48 <= value[at] <= 57) && (at > 0 || value[at] != 43) {
        headers::visible_values_are_text(value);
        if let Some(text) = headers::value_text(value) {
            assert(text[at] as int == value[at] as int);
            text::only_numbers_are_read(text, u64::MAX as nat);
        }
    }
}

/// Whatever goes wrong while a request is made is a failed connection, whose message ends
/// with that of its cause.
pub proof fn faults_are_failed_connections(fault: RequestFault)
    ensures
        ({
            let cause = match fault {
                RequestFault::Build(e) => e@,
                RequestFault::NotReady(e) => e@,
                RequestFault::Send(e) => e@,
                RequestFault::ErrorBody(e) => e@,
                RequestFault::ResponseBody(e) => e@,
            };
            &&& fault_error(fault) matches ErrorView::ConnectionFailed(message)
            &&& message.len() > cause.len()
            &&& message.skip(message.len() - cause.len()) == cause
        }),
{
    reveal_strlit("failed to build request: ");
    reveal_strlit("sender not ready: ");
    reveal_strlit("send failed: ");
    reveal_strlit("failed to read error body: ");
    reveal_strlit("failed to read response body: ");
    let message = fault_error(fault)->ConnectionFailed_0;
    let cause = match fault {
        RequestFault::Build(e) => e@,
        RequestFault::NotReady(e) => e@,
        RequestFault::Send(e) => e@,
        RequestFault::ErrorBody(e) => e@,
        RequestFault::ResponseBody(e) => e@,
    };
    assert(message.skip(message.len() - cause.len()) =~= cause);
}

/// The error for a response tells of its own status and of at most the first 200 characters
/// of its text. It names a wait exactly where the status is 429 and the server named whole
/// seconds.
pub proof fn errors_tell_of_their_response(
    error: ErrorView,
    status: u16,
    value: Seq<u8>,
    seconds: nat,
    body: Seq<char>,
)
    requires
        tells_of_response(error, status, Some(value), body),
        headers::spells(value, text::decimal_digits(seconds)),
        seconds <= u64::MAX,
    ensures
        error matches ErrorView::HttpStatus { code, message, retry_after } && {
            &&& code == status
            &&& body.len() <= 200 ==> message == body
            &&& body.len() > 200 ==> message == body.take(200)
            &&& status == 429 ==> retry_after is Some && retry_after.unwrap()@ == seconds
                * 1_000_000_000
            &&& status != 429 ==> retry_after is None
        },
{
    waits_are_asked_for_in_seconds(status, seconds, value, -1);
}

/// A request starts with its own target, host and settings, and with no redirect followed.
pub proof fn requests_start_afresh(url: UriView, host: Seq<char>, config: RequestConfig)
    ensures
        started(url, host, config).url == url,
        started(url, host, config).host == host,
        started(url, host, config).user_agent == config.user_agent@,
        started(url, host, config).max_redirects == config.max_redirects,
        started(url, host, config).redirects == 0,
{
}

/// A request that did not come to an end in its time is a timeout. Any other has the outcome
/// that it had, and a response is marked with the time that it took.
pub proof fn late_requests_time_out(
    result: Result<TransportResult, DownloadError>,
    outcome: Option<Result<TransportResult, DownloadError>>,
    elapsed: Duration,
)
    requires
        is_result_of(result, outcome, elapsed),
    ensures
        outcome is None ==> (result matches Err(error) && error == DownloadError::Timeout),
        outcome matches Some(Err(error)) ==> result == Err::<TransportResult, DownloadError>(error),
        outcome matches Some(Ok(TransportResult::Redirect(redirect))) ==> result == Ok::<
            TransportResult,
            DownloadError,
        >(TransportResult::Redirect(redirect)),
        outcome matches Some(Ok(TransportResult::Response(data))) ==> (result matches Ok(
            TransportResult::Response(given),
        ) && given.bytes == data.bytes && given.headers == data.headers && given.elapsed
            == elapsed),
{
}

/// What keeps a redirect from being followed is told in these words.
pub proof fn redirect_failures_name_their_reason(
    redirects: nat,
    max_redirects: nat,
    status: u16,
    value: Seq<u8>,
)
    requires
        status == 301 || status == 302 || status == 307 || status == 308,
    ensures
        redirects >= max_redirects ==> head_step(redirects, max_redirects, status, Some(value))
            == HeadView::Fail(
            ErrorView::TooManyRedirects(
                "exceeded "@ + text::decimal_digits(max_redirects) + " redirects"@,
            ),
        ),
        redirects < max_redirects ==> head_step(redirects, max_redirects, status, None)
            == HeadView::Fail(
            ErrorView::ConnectionFailed("redirect response missing Location header"@),
        ),
        redirects < max_redirects && headers::value_text(value) is None ==> head_step(
            redirects,
            max_redirects,
            status,
            Some(value),
        ) == HeadView::Fail(
            ErrorView::ConnectionFailed(
                "invalid Location header: failed to convert header to a str"@,
            ),
        ),
{
}

} // verus!
