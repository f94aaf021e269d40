//! What a download ends in.

use std::path::PathBuf;

use vstd::prelude::*;
use vstd::string::StringExecFns;

use crate::text;
use crate::time::Duration;

verus! {

/// `std::path::PathBuf` of the standard library: a path. What it holds is known only
/// through how it is joined and shown.
#[verifier::external_type_specification]
#[verifier::external_body]
pub struct ExPathBuf(PathBuf);

/// `PathBuf::clone` of the standard library: the copy is the same path.
pub assume_specification[ <PathBuf as Clone>::clone ](path: &PathBuf) -> (copy: PathBuf)
    ensures
        copy == *path,
;

/// The path of the file with this name in a directory.
pub uninterp spec fn joined(directory: PathBuf, name: Seq<char>) -> PathBuf;

/// `Path::join` of the standard library: the path that the directory and the name make.
/// How the two are put together is left to that library.
#[verifier::external_body]
pub(crate) fn join_path(directory: &PathBuf, name: &str) -> (path: PathBuf)
    ensures
        path == joined(*directory, name@),
{
    directory.join(name)
}

/// The text that a path is shown as.
pub uninterp spec fn displayed(path: PathBuf) -> Seq<char>;

/// `Path::display` of the standard library, as text: what the path is shown as. How a path
/// that is not Unicode is shown is left to that library.
#[verifier::external_body]
pub(crate) fn display_path(path: &PathBuf) -> (s: String)
    ensures
        s@ == displayed(*path),
{
    path.display().to_string()
}

/// All possible failure modes for a download.
#[derive(Debug)]
pub enum DownloadError {
    /// Non-success HTTP status after exhausting retries for transient codes.
    HttpStatus {
        code: u16,
        message: String,
        /// Parsed Retry-After value (integer seconds) from 429 responses.
        retry_after: Option<Duration>,
    },
    /// Request or connect timeout.
    Timeout,
    /// TCP or HTTP/2 handshake failure.
    ConnectionFailed(String),
    /// TLS handshake or certificate error.
    TlsError(String),
    /// Filesystem write failure.
    WriteError(String),
    /// Content-length mismatch, zero-byte response, or truncation.
    ValidationFailed(String),
    /// Hostname resolution failure.
    DnsResolutionFailed(String),
    /// Exceeded max redirect hops.
    TooManyRedirects(String),
}

/// A download error, with its messages as rows of characters.
pub enum ErrorView {
    HttpStatus { code: u16, message: Seq<char>, retry_after: Option<Duration> },
    Timeout,
    ConnectionFailed(Seq<char>),
    TlsError(Seq<char>),
    WriteError(Seq<char>),
    ValidationFailed(Seq<char>),
    DnsResolutionFailed(Seq<char>),
    TooManyRedirects(Seq<char>),
}

impl View for DownloadError {
    type V = ErrorView;

    open spec fn view(&self) -> ErrorView {
        match *self {
            DownloadError::HttpStatus { code, message, retry_after } => ErrorView::HttpStatus {
                code,
                message: message@,
                retry_after,
            },
            DownloadError::Timeout => ErrorView::Timeout,
            DownloadError::ConnectionFailed(m) => ErrorView::ConnectionFailed(m@),
            DownloadError::TlsError(m) => ErrorView::TlsError(m@),
            DownloadError::WriteError(m) => ErrorView::WriteError(m@),
            DownloadError::ValidationFailed(m) => ErrorView::ValidationFailed(m@),
            DownloadError::DnsResolutionFailed(m) => ErrorView::DnsResolutionFailed(m@),
            DownloadError::TooManyRedirects(m) => ErrorView::TooManyRedirects(m@),
        }
    }
}

impl Clone for DownloadError {
    fn clone(&self) -> (copy: Self)
        ensures
            copy == *self,
    {
        match self {
            DownloadError::HttpStatus { code, message, retry_after } => DownloadError::HttpStatus {
                code: *code,
                message: message.clone(),
                retry_after: *retry_after,
            },
            DownloadError::Timeout => DownloadError::Timeout,
            DownloadError::ConnectionFailed(m) => DownloadError::ConnectionFailed(m.clone()),
            DownloadError::TlsError(m) => DownloadError::TlsError(m.clone()),
            DownloadError::WriteError(m) => DownloadError::WriteError(m.clone()),
            DownloadError::ValidationFailed(m) => DownloadError::ValidationFailed(m.clone()),
            DownloadError::DnsResolutionFailed(m) => DownloadError::DnsResolutionFailed(m.clone()),
            DownloadError::TooManyRedirects(m) => DownloadError::TooManyRedirects(m.clone()),
        }
    }
}

/// The text that tells a reader what went wrong.
pub open spec fn error_text(error: ErrorView) -> Seq<char> {
    match error {
        ErrorView::HttpStatus { code, message, .. } => "HTTP error "@ + text::decimal_digits(
            code as nat,
        ) + ": "@ + message,
        ErrorView::Timeout => "request timed out"@,
        ErrorView::ConnectionFailed(m) => "connection failed: "@ + m,
        ErrorView::TlsError(m) => "TLS error: "@ + m,
        ErrorView::WriteError(m) => "write error: "@ + m,
        ErrorView::ValidationFailed(m) => "validation failed: "@ + m,
        ErrorView::DnsResolutionFailed(m) => "DNS resolution failed: "@ + m,
        ErrorView::TooManyRedirects(m) => "too many redirects: "@ + m,
    }
}

impl DownloadError {
    /// The text that tells a reader what went wrong.
    pub fn to_string(&self) -> (s: String)
        ensures
            s@ == error_text(self@),
    {
        match self {
            DownloadError::HttpStatus { code, message, .. } => {
                let mut s = "HTTP error ".to_string();
                text::push_decimal(&mut s, *code as u128);
                s.append(": ");
                s.append(message.as_str());
                s
            },
            DownloadError::Timeout => "request timed out".to_string(),
            DownloadError::ConnectionFailed(m) => text::join("connection failed: ", m.as_str()),
            DownloadError::TlsError(m) => text::join("TLS error: ", m.as_str()),
            DownloadError::WriteError(m) => text::join("write error: ", m.as_str()),
            DownloadError::ValidationFailed(m) => text::join("validation failed: ", m.as_str()),
            DownloadError::DnsResolutionFailed(m) => text::join(
                "DNS resolution failed: ",
                m.as_str(),
            ),
            DownloadError::TooManyRedirects(m) => text::join("too many redirects: ", m.as_str()),
        }
    }
}

/// The outcome of a download attempt: either success with file info, or failure with
/// error details.
#[derive(Debug)]
pub enum DownloadOutcome {
    Success {
        path: PathBuf,
        size_bytes: u64,
        /// The first 32 digits of the SHA-256 of the body, in hexadecimal. Only
        /// computed when the naming strategy is `ContentHash`, or when metadata or a
        /// summary is written.
        content_hash: Option<String>,
        elapsed: Duration,
    },
    Failure { error: DownloadError, elapsed: Duration, retries_attempted: u32 },
}

/// A download outcome, with its texts as rows of characters.
pub enum OutcomeView {
    Success {
        path: PathBuf,
        size_bytes: u64,
        content_hash: Option<Seq<char>>,
        elapsed: Duration,
    },
    Failure { error: ErrorView, elapsed: Duration, retries_attempted: u32 },
}

impl View for DownloadOutcome {
    type V = OutcomeView;

    open spec fn view(&self) -> OutcomeView {
        match *self {
            DownloadOutcome::Success { path, size_bytes, content_hash, elapsed } =>
                OutcomeView::Success {
                path,
                size_bytes,
                content_hash: text::optional_text(content_hash),
                elapsed,
            },
            DownloadOutcome::Failure { error, elapsed, retries_attempted } =>
                OutcomeView::Failure { error: error@, elapsed, retries_attempted },
        }
    }
}

impl Clone for DownloadOutcome {
    fn clone(&self) -> (copy: Self)
        ensures
            copy == *self,
    {
        match self {
            DownloadOutcome::Success { path, size_bytes, content_hash, elapsed } => {
                DownloadOutcome::Success {
                    path: path.clone(),
                    size_bytes: *size_bytes,
                    content_hash: text::clone_optional(content_hash),
                    elapsed: *elapsed,
                }
            },
            DownloadOutcome::Failure { error, elapsed, retries_attempted } =>
                DownloadOutcome::Failure {
                error: error.clone(),
                elapsed: *elapsed,
                retries_attempted: *retries_attempted,
            },
        }
    }
}

/// Result of downloading a single URL.
#[derive(Debug)]
pub struct DownloadResult {
    pub url: String,
    pub outcome: DownloadOutcome,
}

/// A download result, with its texts as rows of characters.
pub struct ResultView {
    pub url: Seq<char>,
    pub outcome: OutcomeView,
}

impl View for DownloadResult {
    type V = ResultView;

    open spec fn view(&self) -> ResultView {
        ResultView { url: self.url@, outcome: self.outcome@ }
    }
}

impl Clone for DownloadResult {
    fn clone(&self) -> (copy: Self)
        ensures
            copy == *self,
    {
        DownloadResult { url: self.url.clone(), outcome: self.outcome.clone() }
    }
}

/// The text of an error ends with its message, whatever that is, and the text of an HTTP
/// error holds its status in decimal before that. What stands before the message tells the
/// kinds of errors apart and does not depend on it.
pub proof fn errors_are_told_in_full(code: u16, message: Seq<char>, retry_after: Option<Duration>)
    ensures
        error_text(ErrorView::HttpStatus { code, message, retry_after }) == seq![
            'H',
            'T',
            'T',
            'P',
            ' ',
            'e',
            'r',
            'r',
            'o',
            'r',
            ' ',
        ] + text::decimal_digits(code as nat) + seq![':', ' '] + message,
        error_text(ErrorView::ConnectionFailed(message)) == error_text(
            ErrorView::ConnectionFailed(Seq::empty()),
        ) + message,
        error_text(ErrorView::TlsError(message)) == error_text(ErrorView::TlsError(Seq::empty()))
            + message,
        error_text(ErrorView::WriteError(message)) == error_text(
            ErrorView::WriteError(Seq::empty()),
        ) + message,
        error_text(ErrorView::ValidationFailed(message)) == error_text(
            ErrorView::ValidationFailed(Seq::empty()),
        ) + message,
        error_text(ErrorView::DnsResolutionFailed(message)) == error_text(
            ErrorView::DnsResolutionFailed(Seq::empty()),
        ) + message,
        error_text(ErrorView::TooManyRedirects(message)) == error_text(
            ErrorView::TooManyRedirects(Seq::empty()),
        ) + message,
{
    reveal_strlit("HTTP error ");
    reveal_strlit(": ");
    assert("HTTP error "@ =~= seq!['H', 'T', 'T', 'P', ' ', 'e', 'r', 'r', 'o', 'r', ' ']);
    assert(": "@ =~= seq![':', ' ']);
    assert("connection failed: "@ + Seq::<char>::empty() =~= "connection failed: "@);
    assert("TLS error: "@ + Seq::<char>::empty() =~= "TLS error: "@);
    assert("write error: "@ + Seq::<char>::empty() =~= "write error: "@);
    assert("validation failed: "@ + Seq::<char>::empty() =~= "validation failed: "@);
    assert("DNS resolution failed: "@ + Seq::<char>::empty() =~= "DNS resolution failed: "@);
    assert("too many redirects: "@ + Seq::<char>::empty() =~= "too many redirects: "@);
}

} // verus!
