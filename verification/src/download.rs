//! The download of one URL, from its address to the file that is left of it.
//!
//! A `Download` decides what comes next. Making requests, waiting and writing files is
//! done around it.

use bytes::Bytes;
use http::{HeaderMap, HeaderValue};
use std::path::PathBuf;

use vstd::prelude::*;

use crate::batch;
use crate::config::{Config, NamingStrategy};
use crate::hash;
use crate::headers;
use crate::output::metadata;
use crate::output::metadata::FileMetadata;
use crate::output::naming;
use crate::output::validation;
use crate::retry;
use crate::retry::{Retry, RetryStep};
use crate::text;
use crate::time::Duration;
use crate::transport::{RequestConfig, ResponseData, TransportResult};
use crate::types;
use crate::types::{DownloadError, DownloadOutcome, DownloadResult, ErrorView, OutcomeView, ResultView};
use crate::uri;
use crate::uri::{Uri, UriView};

verus! {

/// What is requested, and over a connection to which host.
#[derive(Debug)]
pub struct Target {
    pub host: String,
    pub port: u16,
    pub uri: Uri,
    pub request: RequestConfig,
}

/// A target, with its texts as rows of characters.
pub struct TargetView {
    pub host: Seq<char>,
    pub port: u16,
    pub uri: UriView,
    pub user_agent: Seq<char>,
    pub request_timeout: Duration,
    pub max_redirects: u8,
}

impl View for Target {
    type V = TargetView;

    open spec fn view(&self) -> TargetView {
        TargetView {
            host: self.host@,
            port: self.port,
            uri: self.uri@,
            user_agent: self.request.user_agent@,
            request_timeout: self.request.request_timeout,
            max_redirects: self.request.max_redirects,
        }
    }
}

/// The target that a URI leads to, where it names a host.
pub open spec fn target_of(uri: UriView, max_redirects: u8, config: Config) -> Option<TargetView> {
    match uri.host {
        None => None,
        Some(host) => Some(
            TargetView {
                host,
                port: uri::effective_port(uri),
                uri,
                user_agent: config.user_agent@,
                request_timeout: config.request_timeout,
                max_redirects,
            },
        ),
    }
}

fn make_target(uri: Uri, max_redirects: u8, config: &Config) -> (target: Option<Target>)
    ensures
        match target {
            Some(t) => target_of(uri@, max_redirects, *config) == Some(t@),
            None => target_of(uri@, max_redirects, *config) is None,
        },
{
    let host = match &uri.host {
        Some(host) => host.clone(),
        None => {
            return None;
        },
    };
    let port = uri.port_or_default();
    let request = RequestConfig {
        user_agent: config.user_agent.clone(),
        request_timeout: config.request_timeout,
        max_redirects,
    };
    Some(Target { host, port, uri, request })
}

/// The first target of a download, where `parsed` is what parsing its URL gave.
pub open spec fn first_target(parsed: Result<UriView, Seq<char>>, config: Config) -> Result<
    TargetView,
    ErrorView,
> {
    match parsed {
        Err(message) => Err(ErrorView::ConnectionFailed("invalid URL: "@ + message)),
        Ok(uri) => match target_of(uri, config.max_redirects, config) {
            None => Err(ErrorView::ConnectionFailed("URL missing host"@)),
            Some(target) => Ok(target),
        },
    }
}

/// What comes next in a download.
#[derive(Debug)]
pub enum DownloadStep {
    /// Request this target.
    Fetch(Target),
    /// Wait this long, and request the same target again.
    Wait(Duration),
    /// Write the body to the file with this name, which has this path in the output
    /// directory.
    Write { filename: String, path: PathBuf },
    /// Nothing: this is the result.
    Finished(DownloadResult),
}

/// A file that was received in full.
#[derive(Debug)]
struct ReceivedFile {
    data: ResponseData,
    filename: String,
    size_bytes: u64,
    content_hash: Option<String>,
}

/// A file that was received in full, with its texts as rows of characters.
pub struct ReceivedView {
    pub bytes: Bytes,
    pub headers: HeaderMap<HeaderValue>,
    pub filename: Seq<char>,
    pub size_bytes: u64,
    pub content_hash: Option<Seq<char>>,
}

/// The download of one URL.
#[derive(Debug)]
pub struct Download {
    url: String,
    first_index: usize,
    config: Config,
    output_dir: PathBuf,
    retry: Retry,
    redirected: bool,
    retries: u32,
    received: Option<ReceivedFile>,
}

/// A download: what it is of, how it is made and where it is written to, which attempt it
/// is at, whether it was redirected to another host, how many retries are reported, and the
/// file received.
pub struct DownloadView {
    pub url: Seq<char>,
    pub first_index: usize,
    pub config: Config,
    pub output_dir: PathBuf,
    pub retry: Retry,
    pub redirected: bool,
    pub retries: u32,
    pub received: Option<ReceivedView>,
}

impl View for Download {
    type V = DownloadView;

    closed spec fn view(&self) -> DownloadView {
        DownloadView {
            url: self.url@,
            first_index: self.first_index,
            config: self.config,
            output_dir: self.output_dir,
            retry: self.retry,
            redirected: self.redirected,
            retries: self.retries,
            received: match self.received {
                Some(file) => Some(
                    ReceivedView {
                        bytes: file.data.bytes,
                        headers: file.data.headers,
                        filename: file.filename@,
                        size_bytes: file.size_bytes,
                        content_hash: text::optional_text(file.content_hash),
                    },
                ),
                None => None,
            },
        }
    }
}

impl DownloadView {
    /// Retries are made as the configuration says.
    pub open spec fn wf(self) -> bool {
        &&& self.retry.max_retries == self.config.max_retries
        &&& self.retry.base_delay == self.config.retry_base_delay
    }
}

/// No attempt made yet.
pub open spec fn fresh_retry(config: Config) -> Retry {
    Retry { attempt: 0, max_retries: config.max_retries, base_delay: config.retry_base_delay }
}

/// A download that is at its first attempt.
pub open spec fn fresh_download(
    url: Seq<char>,
    first_index: usize,
    config: Config,
    output_dir: PathBuf,
) -> DownloadView {
    DownloadView {
        url,
        first_index,
        config,
        output_dir,
        retry: fresh_retry(config),
        redirected: false,
        retries: 0,
        received: None,
    }
}

/// Whether the content hash of a body is called for.
pub open spec fn needs_hash(config: Config) -> bool {
    config.naming_strategy is ContentHash || config.write_metadata || config.write_summary
}

/// The file that a response makes, or what is wrong with it.
pub open spec fn file_of(
    url: Seq<char>,
    first_index: usize,
    config: Config,
    data: ResponseData,
) -> Result<ReceivedView, ErrorView> {
    let contents = headers::bytes_contents(data.bytes);
    match validation::fault_of_body(
        contents.len(),
        headers::first_of(headers::header_values(data.headers), "content-length"@),
    ) {
        Some(fault) => Err(fault),
        None => Ok(
            ReceivedView {
                bytes: data.bytes,
                headers: data.headers,
                filename: naming::filename(
                    url,
                    first_index as nat,
                    contents,
                    config.naming_strategy,
                ),
                size_bytes: contents.len() as u64,
                content_hash: if needs_hash(config) {
                    Some(hash::hex_prefix(hash::sha256_digest(contents), 16))
                } else {
                    None
                },
            },
        ),
    }
}

/// What the last attempt at a target leads to.
pub enum Fetched {
    Response(ResponseData),
    Redirect(TargetView),
    Error(ErrorView),
}

/// What the last attempt at a target leads to: one redirect to another host is followed,
/// and no second one.
pub open spec fn fetched(
    redirected: bool,
    config: Config,
    result: Result<TransportResult, DownloadError>,
) -> Fetched {
    match result {
        Err(e) => Fetched::Error(e@),
        Ok(TransportResult::Response(data)) => Fetched::Response(data),
        Ok(TransportResult::Redirect(redirect)) => if redirected {
            Fetched::Error(ErrorView::TooManyRedirects("too many cross-host redirects"@))
        } else {
            match target_of(redirect.new_uri@, redirect.redirects_remaining, config) {
                Some(target) => Fetched::Redirect(target),
                None => Fetched::Error(
                    ErrorView::TooManyRedirects("redirect to URL without host"@),
                ),
            }
        },
    }
}

/// How many retries a failure reports: those made before any redirect to another host.
pub open spec fn reported_retries(download: DownloadView) -> u32 {
    if download.redirected {
        download.retries
    } else {
        download.retry.attempt
    }
}

/// What comes next once the attempts at a target have ended in `result`, and what that
/// makes of the download.
pub open spec fn concluded(
    download: DownloadView,
    result: Result<TransportResult, DownloadError>,
    elapsed: Duration,
    after: DownloadView,
    step: DownloadStep,
) -> bool {
    let retries = reported_retries(download);
    let settled = DownloadView { retries, ..download };
    match fetched(download.redirected, download.config, result) {
        Fetched::Error(error) => {
            &&& step matches DownloadStep::Finished(report)
            &&& report@ == batch::not_downloaded(download.url, error, elapsed, retries)
            &&& after == settled
        },
        Fetched::Redirect(target) => {
            &&& step matches DownloadStep::Fetch(next)
            &&& next@ == target
            &&& after == DownloadView {
                retry: fresh_retry(download.config),
                redirected: true,
                ..settled
            }
        },
        Fetched::Response(data) => match file_of(
            download.url,
            download.first_index,
            download.config,
            data,
        ) {
            Err(fault) => {
                &&& step matches DownloadStep::Finished(report)
                &&& report@ == batch::not_downloaded(download.url, fault, elapsed, retries)
                &&& after == settled
            },
            Ok(file) => {
                &&& step matches DownloadStep::Write { filename, path }
                &&& filename@ == file.filename
                &&& path == types::joined(download.output_dir, file.filename)
                &&& after == DownloadView { received: Some(file), ..settled }
            },
        },
    }
}

/// The result of a download whose file was to be written.
pub open spec fn written_result(
    download: DownloadView,
    file: ReceivedView,
    written: Result<(), String>,
    elapsed: Duration,
) -> ResultView {
    match written {
        Err(e) => batch::not_downloaded(
            download.url,
            ErrorView::WriteError(e@),
            elapsed,
            download.retries,
        ),
        Ok(()) => ResultView {
            url: download.url,
            outcome: OutcomeView::Success {
                path: types::joined(download.output_dir, file.filename),
                size_bytes: file.size_bytes,
                content_hash: file.content_hash,
                elapsed,
            },
        },
    }
}

/// Whether `record` is the record of a file that was downloaded.
pub open spec fn is_record_of(
    record: FileMetadata,
    download: DownloadView,
    file: ReceivedView,
    elapsed: Duration,
    downloaded_at: String,
) -> bool {
    let values = headers::header_values(file.headers);
    &&& record.url@ == download.url
    &&& record.filename@ == file.filename
    &&& record.size_bytes == file.size_bytes
    &&& text::optional_text(record.content_hash) == file.content_hash
    &&& text::optional_text(record.content_type) == headers::first_text(values, "content-type"@)
    &&& record.elapsed == elapsed
    &&& record.downloaded_at == downloaded_at
    &&& metadata::lists(record.headers@, metadata::last_texts(values))
}

/// Whether a connection can be used again after a request over it ended in `result`: it
/// can after a response of any kind.
pub open spec fn leaves_connection_usable(result: Result<TransportResult, DownloadError>) -> bool {
    match result {
        Ok(_) => true,
        Err(e) => e is HttpStatus,
    }
}

/// Whether a connection can be used again after a request over it ended in `result`: it
/// can after a response of any kind.
pub fn result_is_usable(result: &Result<TransportResult, DownloadError>) -> (usable: bool)
    ensures
        usable == leaves_connection_usable(*result),
{
    match result {
        Ok(_) => true,
        Err(DownloadError::HttpStatus { .. }) => true,
        Err(_) => false,
    }
}

impl Download {
    /// Starts the download of a URL to a directory, where `parsed` is what parsing the URL
    /// gave.
    pub fn start_parsed(
        url: String,
        first_index: usize,
        config: Config,
        output_dir: PathBuf,
        parsed: Result<Uri, String>,
        elapsed: Duration,
    ) -> (started: (Download, DownloadStep))
        ensures
            started.0@ == fresh_download(url@, first_index, config, output_dir),
            match first_target(uri::uri_result(parsed), config) {
                Ok(target) => started.1 matches DownloadStep::Fetch(next) && next@ == target,
                Err(error) => started.1 matches DownloadStep::Finished(report) && report@
                    == batch::not_downloaded(url@, error, elapsed, 0),
            },
    {
        let reported_url = url.clone();
        let target = match parsed {
            Err(e) => Err(DownloadError::ConnectionFailed(text::join("invalid URL: ", e.as_str()))),
            Ok(uri) => match make_target(uri, config.max_redirects, &config) {
                Some(target) => Ok(target),
                None => Err(DownloadError::ConnectionFailed("URL missing host".to_string())),
            },
        };
        let retry = Retry::new(config.max_retries, config.retry_base_delay);
        let download = Download {
            url,
            first_index,
            config,
            output_dir,
            retry,
            redirected: false,
            retries: 0,
            received: None,
        };
        match target {
            Ok(target) => (download, DownloadStep::Fetch(target)),
            Err(error) => (
                download,
                DownloadStep::Finished(batch::failed_download(reported_url, error, elapsed, 0)),
            ),
        }
    }

    /// Starts the download of a URL to a directory.
    pub fn start(
        url: String,
        first_index: usize,
        config: Config,
        output_dir: PathBuf,
        elapsed: Duration,
    ) -> (started: (Download, DownloadStep))
        ensures
            started.0@ == fresh_download(url@, first_index, config, output_dir),
            match first_target(uri::parsed_uri(url@), config) {
                Ok(target) => started.1 matches DownloadStep::Fetch(next) && next@ == target,
                Err(error) => started.1 matches DownloadStep::Finished(report) && report@
                    == batch::not_downloaded(url@, error, elapsed, 0),
            },
    {
        let parsed = uri::parse_uri(url.as_str());
        Download::start_parsed(url, first_index, config, output_dir, parsed, elapsed)
    }

    /// What comes next after an attempt that ended in `result`, after `elapsed` in all.
    pub fn on_attempt(
        &mut self,
        result: Result<TransportResult, DownloadError>,
        elapsed: Duration,
    ) -> (step: DownloadStep)
        requires
            old(self)@.wf(),
        ensures
            final(self)@.wf(),
            match next_request(
                old(self)@.redirected,
                old(self)@.retry.attempt as nat,
                old(self)@.config,
                result,
            ) {
                Some((redirected, attempt)) => {
                    &&& step is Wait || step is Fetch
                    &&& final(self)@.redirected == redirected
                    &&& final(self)@.retry.attempt == attempt
                },
                None => step is Write || step is Finished,
            },
            ({
                let before = old(self)@;
                if retry::tried_again(
                    retry::failure(result),
                    before.retry.attempt as nat,
                    before.retry.max_retries as nat,
                ) {
                    &&& step matches DownloadStep::Wait(delay)
                    &&& retry::waits(
                        before.retry.attempt,
                        before.retry.base_delay,
                        retry::named_wait(retry::failure(result).unwrap()),
                        delay,
                    )
                    &&& final(self)@ == (DownloadView {
                        retry: Retry {
                            attempt: (before.retry.attempt + 1) as u32,
                            ..before.retry
                        },
                        ..before
                    })
                } else {
                    concluded(before, result, elapsed, final(self)@, step)
                }
            }),
    {
        match self.retry.step(result) {
            RetryStep::Wait(delay) => DownloadStep::Wait(delay),
            RetryStep::Finished(result, attempts) => {
                if !self.redirected {
                    self.retries = attempts;
                }
                let redirect = match result {
                    Err(error) => {
                        return self.fail(error, elapsed);
                    },
                    Ok(TransportResult::Response(data)) => {
                        return self.receive(data, elapsed);
                    },
                    Ok(TransportResult::Redirect(redirect)) => redirect,
                };
                if self.redirected {
                    return self.fail(
                        DownloadError::TooManyRedirects(
                            "too many cross-host redirects".to_string(),
                        ),
                        elapsed,
                    );
                }
                let remaining = redirect.redirects_remaining;
                match make_target(redirect.new_uri, remaining, &self.config) {
                    Some(target) => {
                        self.redirected = true;
                        self.retry = Retry::new(
                            self.config.max_retries,
                            self.config.retry_base_delay,
                        );
                        DownloadStep::Fetch(target)
                    },
                    None => self.fail(
                        DownloadError::TooManyRedirects("redirect to URL without host".to_string()),
                        elapsed,
                    ),
                }
            },
        }
    }

    fn fail(&self, error: DownloadError, elapsed: Duration) -> (step: DownloadStep)
        ensures
            step matches DownloadStep::Finished(report) && report@ == batch::not_downloaded(
                self@.url,
                error@,
                elapsed,
                self@.retries,
            ),
    {
        DownloadStep::Finished(
            batch::failed_download(self.url.clone(), error, elapsed, self.retries),
        )
    }

    fn receive(&mut self, data: ResponseData, elapsed: Duration) -> (step: DownloadStep)
        ensures
            match file_of(old(self)@.url, old(self)@.first_index, old(self)@.config, data) {
                Err(fault) => {
                    &&& step matches DownloadStep::Finished(report)
                    &&& report@ == batch::not_downloaded(
                        old(self)@.url,
                        fault,
                        elapsed,
                        old(self)@.retries,
                    )
                    &&& final(self)@ == old(self)@
                },
                Ok(file) => {
                    &&& step matches DownloadStep::Write { filename, path }
                    &&& filename@ == file.filename
                    &&& path == types::joined(old(self)@.output_dir, file.filename)
                    &&& final(self)@ == (DownloadView { received: Some(file), ..old(self)@ })
                },
            },
    {
        if let Err(fault) = validation::validate_response(&data.bytes, &data.headers) {
            return self.fail(fault, elapsed);
        }
        let contents = headers::bytes_slice(&data.bytes);
        let size_bytes = contents.len() as u64;
        let by_content = match self.config.naming_strategy {
            NamingStrategy::ContentHash => true,
            _ => false,
        };
        let content_hash = if by_content || self.config.write_metadata || self.config.write_summary {
            Some(hash::content_hash(contents))
        } else {
            None
        };
        let filename = naming::generate_filename(
            self.url.as_str(),
            self.first_index,
            contents,
            &self.config.naming_strategy,
        );
        let name = filename.clone();
        let path = types::join_path(&self.output_dir, filename.as_str());
        self.received = Some(ReceivedFile { data, filename, size_bytes, content_hash });
        DownloadStep::Write { filename: name, path }
    }

    /// The body that was received, which is to be written.
    pub fn body(&self) -> (body: Option<&Bytes>)
        ensures
            match self@.received {
                Some(file) => body == Some(&file.bytes),
                None => body is None,
            },
    {
        match &self.received {
            Some(file) => Some(&file.data.bytes),
            None => None,
        }
    }

    /// The result of a download whose body was to be written, where `written` tells whether
    /// it was. Where the configuration asks for it, the record of the file comes with it,
    /// made at the time `downloaded_at`.
    pub fn on_written(
        self,
        written: Result<(), String>,
        elapsed: Duration,
        downloaded_at: String,
    ) -> (ended: (DownloadResult, Option<FileMetadata>))
        requires
            self@.received is Some,
        ensures
            ({
                let file = self@.received.unwrap();
                &&& ended.0@ == written_result(self@, file, written, elapsed)
                &&& ended.1 is Some == (written is Ok && self@.config.write_metadata)
                &&& ended.1 matches Some(record) ==> is_record_of(
                    record,
                    self@,
                    file,
                    elapsed,
                    downloaded_at,
                )
            }),
    {
        if let Err(e) = written {
            return (
                batch::failed_download(
                    self.url,
                    DownloadError::WriteError(e),
                    elapsed,
                    self.retries,
                ),
                None,
            );
        }
        let file = self.received.unwrap();
        let path = types::join_path(&self.output_dir, file.filename.as_str());
        let record = if self.config.write_metadata {
            Some(
                metadata::describe_file(
                    self.url.clone(),
                    file.filename,
                    file.size_bytes,
                    text::clone_optional(&file.content_hash),
                    &file.data.headers,
                    elapsed,
                    downloaded_at,
                ),
            )
        } else {
            None
        };
        let outcome = DownloadOutcome::Success {
            path,
            size_bytes: file.size_bytes,
            content_hash: file.content_hash,
            elapsed,
        };
        (DownloadResult { url: self.url, outcome }, record)
    }
}

/// At most one redirect to another host is followed: after that, no new target follows.
pub proof fn one_redirect_to_another_host(
    download: DownloadView,
    result: Result<TransportResult, DownloadError>,
    elapsed: Duration,
    after: DownloadView,
    step: DownloadStep,
)
    requires
        concluded(download, result, elapsed, after, step),
    ensures
        step is Fetch ==> !download.redirected && after.redirected,
        download.redirected ==> after.redirected,
{
}

/// Every download ends in a result for its own URL.
pub proof fn results_are_for_their_own_url(
    download: DownloadView,
    result: Result<TransportResult, DownloadError>,
    elapsed: Duration,
    after: DownloadView,
    step: DownloadStep,
)
    requires
        concluded(download, result, elapsed, after, step),
    ensures
        after.url == download.url,
        step matches DownloadStep::Finished(report) ==> report@.url == download.url
            && report@.outcome is Failure,
{
}

/// What is kept is not empty, and has the length that its `content-length` header names,
/// where it has such a header. Its hash is computed where it is called for, and only there.
pub proof fn kept_files_are_complete(
    url: Seq<char>,
    first_index: usize,
    config: Config,
    data: ResponseData,
)
    ensures
        file_of(url, first_index, config, data) matches Ok(file) ==> {
            let contents = headers::bytes_contents(data.bytes);
            let header = headers::first_of(
                headers::header_values(data.headers),
                "content-length"@,
            );
            &&& file.bytes == data.bytes
            &&& contents.len() > 0
            &&& header is Some ==> validation::named_length(header) == Some(contents.len())
            &&& file.content_hash is Some == needs_hash(config)
        },
{
}

/// Whether another request follows one that ended in `outcome`, and then whether the
/// download has been redirected to another host, and which attempt it is at.
pub open spec fn next_request(
    redirected: bool,
    attempt: nat,
    config: Config,
    outcome: Result<TransportResult, DownloadError>,
) -> Option<(bool, nat)> {
    if retry::tried_again(retry::failure(outcome), attempt, config.max_retries as nat) {
        Some((redirected, attempt + 1))
    } else if fetched(redirected, config, outcome) is Redirect {
        Some((true, 0))
    } else {
        None
    }
}

/// How many requests are made, where request number `i` ends in `outcomes[i]`.
pub open spec fn requests_made(
    outcomes: Seq<Result<TransportResult, DownloadError>>,
    redirected: bool,
    attempt: nat,
    config: Config,
) -> nat
    decreases outcomes.len(),
{
    if outcomes.len() == 0 {
        0
    } else {
        1 + match next_request(redirected, attempt, config, outcomes[0]) {
            Some((redirected, attempt)) => requests_made(
                outcomes.drop_first(),
                redirected,
                attempt,
                config,
            ),
            None => 0,
        }
    }
}

proof fn requests_from(
    outcomes: Seq<Result<TransportResult, DownloadError>>,
    redirected: bool,
    attempt: nat,
    config: Config,
)
    requires
        attempt <= config.max_retries,
    ensures
        requests_made(outcomes, redirected, attempt, config) <= config.max_retries - attempt + 1
            + if redirected {
            0
        } else {
            config.max_retries + 1
        },
    decreases outcomes.len(),
{
    if outcomes.len() > 0 {
        if let Some((redirected, attempt)) = next_request(
            redirected,
            attempt,
            config,
            outcomes[0],
        ) {
            requests_from(outcomes.drop_first(), redirected, attempt, config);
        }
    }
}

/// A download makes at most `max_retries + 1` requests to the host of its URL, and as many
/// to the host that it is redirected to.
pub proof fn requests_are_bounded(
    outcomes: Seq<Result<TransportResult, DownloadError>>,
    config: Config,
)
    ensures
        requests_made(outcomes, false, 0, config) <= 2 * (config.max_retries + 1),
{
    requests_from(outcomes, false, 0, config);
}

/// A file that is kept has the name that belongs to its own URL, its own position in the
/// batch, its own bytes and the strategy that is configured. Its size is the number of those
/// bytes, and its hash, where one is called for, is made of them.
pub proof fn kept_files_are_named_for_themselves(
    url: Seq<char>,
    first_index: usize,
    config: Config,
    data: ResponseData,
)
    ensures
        file_of(url, first_index, config, data) matches Ok(file) ==> {
            let contents = headers::bytes_contents(data.bytes);
            &&& file.filename == naming::filename(
                url,
                first_index as nat,
                contents,
                config.naming_strategy,
            )
            &&& contents.len() <= u64::MAX ==> file.size_bytes as nat == contents.len()
            &&& file.bytes == data.bytes
            &&& file.headers == data.headers
            &&& file.content_hash matches Some(digits) ==> digits == hash::hex_prefix(
                hash::sha256_digest(contents),
                16,
            )
        },
{
}

/// Every body that is not empty, and that has the length which its `content-length` header
/// spells, where it has one, is kept. No other is.
pub proof fn complete_bodies_are_kept(
    url: Seq<char>,
    first_index: usize,
    config: Config,
    data: ResponseData,
    named: nat,
)
    requires
        headers::bytes_contents(data.bytes).len() <= usize::MAX,
    ensures
        ({
            let contents = headers::bytes_contents(data.bytes);
            let header = headers::first_of(
                headers::header_values(data.headers),
                seq!['c', 'o', 'n', 't', 'e', 'n', 't', '-', 'l', 'e', 'n', 'g', 't', 'h'],
            );
            let file = file_of(url, first_index, config, data);
            &&& header is None ==> (file is Ok <==> contents.len() > 0)
            &&& header matches Some(value) ==> headers::spells(value, text::decimal_digits(named))
                ==> (file is Ok <==> contents.len() > 0 && contents.len() == named)
            &&& file matches Err(fault) ==> fault is ValidationFailed
        }),
{
    reveal_strlit("content-length");
    assert("content-length"@ =~= seq![
        'c',
        'o',
        'n',
        't',
        'e',
        'n',
        't',
        '-',
        'l',
        'e',
        'n',
        'g',
        't',
        'h',
    ]);
    let contents = headers::bytes_contents(data.bytes);
    let header = headers::first_of(headers::header_values(data.headers), "content-length"@);
    validation::bodies_without_a_length_are_accepted(contents.len(), header);
    if let Some(value) = header {
        if contents.len() > 0 && headers::spells(value, text::decimal_digits(named)) {
            validation::lengths_are_compared_in_full(contents.len(), named, value);
        }
    }
}

/// Two downloads of a batch with sequential naming are written to different files, each
/// under a name that begins with its own position in decimal, with zeros before it up to
/// three digits.
pub proof fn sequential_downloads_do_not_collide(
    url: Seq<char>,
    first_index: usize,
    data: ResponseData,
    other_url: Seq<char>,
    other_index: usize,
    other_data: ResponseData,
    config: Config,
)
    requires
        config.naming_strategy == NamingStrategy::Sequential,
        file_of(url, first_index, config, data) is Ok,
        file_of(other_url, other_index, config, other_data) is Ok,
    ensures
        ({
            let name = file_of(url, first_index, config, data)->Ok_0.filename;
            let other = file_of(other_url, other_index, config, other_data)->Ok_0.filename;
            let digits = text::decimal_digits(first_index as nat);
            let zeros = if first_index < 10 {
                2int
            } else if first_index < 100 {
                1
            } else {
                0
            };
            &&& first_index != other_index ==> name != other
            &&& name.len() > zeros + digits.len()
            &&& forall|i: int| 0 <= i < zeros ==> #[trigger] name[i] == '0'
            &&& name.subrange(zeros, zeros + digits.len() as int) == digits
            &&& name[zeros + digits.len()] == '.'
        }),
{
    let contents = headers::bytes_contents(data.bytes);
    let other_contents = headers::bytes_contents(other_data.bytes);
    if first_index != other_index {
        naming::sequential_names_differ(
            url,
            first_index as nat,
            contents,
            other_url,
            other_index as nat,
            other_contents,
        );
    }
    naming::sequential_names_begin_with_their_position(url, first_index as nat, contents);
    let name = file_of(url, first_index, config, data)->Ok_0.filename;
    let digits = text::decimal_digits(first_index as nat);
    let zeros = if first_index < 10 {
        2int
    } else if first_index < 100 {
        1
    } else {
        0
    };
    assert(name.subrange(zeros, zeros + digits.len() as int) =~= digits);
}

/// A hash is called for exactly where files are named by it, or where it is recorded in
/// metadata or in a summary.
pub proof fn hashes_are_made_where_they_are_used(config: Config)
    ensures
        needs_hash(config) <==> config.naming_strategy == NamingStrategy::ContentHash
            || config.write_metadata || config.write_summary,
{
}

/// A download asks the host of its URL, at the port that the URL names or else at 80 for
/// `http` and at 443 for anything else, for what the URL names, with the settings of the
/// configuration. A URL that cannot be read, or names no host, is a failed connection.
pub proof fn downloads_ask_the_host_of_their_url(
    parsed: Result<UriView, Seq<char>>,
    config: Config,
)
    ensures
        ({
            let target = first_target(parsed, config);
            &&& target is Ok <==> parsed is Ok && parsed->Ok_0.host is Some
            &&& target matches Err(error) ==> error is ConnectionFailed
            &&& target matches Ok(target) ==> {
                let uri = parsed->Ok_0;
                &&& Some(target.host) == uri.host
                &&& target.uri == uri
                &&& target.port == match uri.port {
                    Some(port) => port,
                    None => if uri.scheme == Some(seq!['h', 't', 't', 'p']) {
                        80u16
                    } else {
                        443u16
                    },
                }
                &&& target.user_agent == config.user_agent@
                &&& target.request_timeout == config.request_timeout
                &&& target.max_redirects == config.max_redirects
            }
        }),
{
    if let Ok(uri) = parsed {
        uri::ports_follow_the_scheme(uri);
    }
}

/// A redirect to another host is followed to that host, at its own port, with the redirects
/// that are left, unless one was followed before. A second one, and one without a host, end
/// the download. A response and an error are what they are, redirected or not.
pub proof fn redirects_to_another_host_are_followed_once(
    redirected: bool,
    config: Config,
    result: Result<TransportResult, DownloadError>,
)
    ensures
        match result {
            Err(error) => fetched(redirected, config, result) == Fetched::Error(error@),
            Ok(TransportResult::Response(data)) => fetched(redirected, config, result)
                == Fetched::Response(data),
            Ok(TransportResult::Redirect(redirect)) => {
                let uri = redirect.new_uri@;
                if !redirected && uri.host is Some {
                    &&& fetched(redirected, config, result) matches Fetched::Redirect(target)
                    &&& Some(target.host) == uri.host
                    &&& target.uri == uri
                    &&& target.port == match uri.port {
                        Some(port) => port,
                        None => if uri.scheme == Some(seq!['h', 't', 't', 'p']) {
                            80u16
                        } else {
                            443u16
                        },
                    }
                    &&& target.max_redirects == redirect.redirects_remaining
                    &&& target.user_agent == config.user_agent@
                    &&& target.request_timeout == config.request_timeout
                } else {
                    &&& fetched(redirected, config, result) matches Fetched::Error(error)
                    &&& error is TooManyRedirects
                }
            },
        },
{
    if let Ok(TransportResult::Redirect(redirect)) = result {
        uri::ports_follow_the_scheme(redirect.new_uri@);
    }
}

/// A download starts at its first attempt, and each further target gets as many attempts as
/// the first: `max_retries` after the first, with the delay that is configured.
pub proof fn every_target_gets_its_attempts(
    url: Seq<char>,
    first_index: usize,
    config: Config,
    output_dir: PathBuf,
)
    ensures
        ({
            let download = fresh_download(url, first_index, config, output_dir);
            &&& fresh_retry(config).attempt == 0
            &&& fresh_retry(config).max_retries == config.max_retries
            &&& fresh_retry(config).base_delay == config.retry_base_delay
            &&& download.retry == fresh_retry(config)
            &&& download.url == url
            &&& download.first_index == first_index
            &&& download.config == config
            &&& download.output_dir == output_dir
            &&& !download.redirected
            &&& download.retries == 0
            &&& download.received is None
        }),
{
}

/// What becomes of a download once the attempts at a target have ended: an error is
/// reported, with the retries made before any redirect to another host; a body that is in
/// order is written to its own name in the output directory; a redirect is followed with
/// fresh attempts.
pub proof fn downloads_end_in_what_they_got(
    download: DownloadView,
    result: Result<TransportResult, DownloadError>,
    elapsed: Duration,
    after: DownloadView,
    step: DownloadStep,
)
    requires
        concluded(download, result, elapsed, after, step),
    ensures
        after.url == download.url,
        after.first_index == download.first_index,
        after.config == download.config,
        after.output_dir == download.output_dir,
        after.retries == if download.redirected {
            download.retries
        } else {
            download.retry.attempt
        },
        result matches Err(error) ==> {
            &&& step matches DownloadStep::Finished(report)
            &&& report@.url == download.url
            &&& report@.outcome == OutcomeView::Failure {
                error: error@,
                elapsed,
                retries_attempted: after.retries,
            }
        },
        result matches Ok(TransportResult::Response(data)) ==> match file_of(
            download.url,
            download.first_index,
            download.config,
            data,
        ) {
            Ok(file) => {
                &&& step matches DownloadStep::Write { filename, path }
                &&& filename@ == file.filename
                &&& path == types::joined(download.output_dir, file.filename)
                &&& after.received == Some(file)
            },
            Err(fault) => {
                &&& step matches DownloadStep::Finished(report)
                &&& report@.outcome == OutcomeView::Failure {
                    error: fault,
                    elapsed,
                    retries_attempted: after.retries,
                }
            },
        },
        step is Fetch ==> after.redirected && after.retry.attempt == 0 && after.retry.max_retries
            == download.config.max_retries,
{
}

/// A connection is good for another request exactly after a response: a resource, a redirect
/// or a status that tells of an error. A timeout, and whatever else went wrong, leaves it
/// unusable.
pub proof fn responses_leave_connections_usable(result: Result<TransportResult, DownloadError>)
    ensures
        leaves_connection_usable(result) <==> match result {
            Ok(_) => true,
            Err(error) => match error {
                DownloadError::HttpStatus { .. } => true,
                DownloadError::Timeout => false,
                DownloadError::ConnectionFailed(_) => false,
                DownloadError::TlsError(_) => false,
                DownloadError::WriteError(_) => false,
                DownloadError::ValidationFailed(_) => false,
                DownloadError::DnsResolutionFailed(_) => false,
                DownloadError::TooManyRedirects(_) => false,
            },
        },
{
}

/// A file that was written is a success, under its own name in the output directory, with
/// its own size and hash. One that could not be written is a failure with the message of the
/// cause. Either is the result of the download's own URL.
pub proof fn written_files_are_successes(
    download: DownloadView,
    file: ReceivedView,
    written: Result<(), String>,
    elapsed: Duration,
)
    ensures
        ({
            let result = written_result(download, file, written, elapsed);
            &&& result.url == download.url
            &&& result.outcome is Success <==> written is Ok
            &&& result.outcome matches OutcomeView::Success {
                path,
                size_bytes,
                content_hash,
                elapsed: taken,
            } ==> path == types::joined(download.output_dir, file.filename) && size_bytes
                == file.size_bytes && content_hash == file.content_hash && taken == elapsed
            &&& result.outcome matches OutcomeView::Failure {
                error,
                elapsed: taken,
                retries_attempted,
            } ==> error == ErrorView::WriteError(written->Err_0@) && taken == elapsed
                && retries_attempted == download.retries
        }),
{
}

/// The record of a file tells of that file: its URL, name, size, hash and headers, the type
/// that came with it, and when and in what time it was downloaded.
pub proof fn records_tell_of_their_file(
    record: FileMetadata,
    download: DownloadView,
    file: ReceivedView,
    elapsed: Duration,
    downloaded_at: String,
)
    requires
        is_record_of(record, download, file, elapsed, downloaded_at),
    ensures
        record.url@ == download.url,
        record.filename@ == file.filename,
        record.size_bytes == file.size_bytes,
        text::optional_text(record.content_hash) == file.content_hash,
        text::optional_text(record.content_type) == headers::first_text(
            headers::header_values(file.headers),
            seq!['c', 'o', 'n', 't', 'e', 'n', 't', '-', 't', 'y', 'p', 'e'],
        ),
        record.elapsed == elapsed,
        record.downloaded_at == downloaded_at,
        forall|i: int|
            0 <= i < record.headers@.len() ==> headers::header_values(file.headers).contains_key(
                (#[trigger] record.headers@[i]).0@,
            ),
{
    reveal_strlit("content-type");
    assert("content-type"@ =~= seq!['c', 'o', 'n', 't', 'e', 'n', 't', '-', 't', 'y', 'p', 'e']);
    let texts = metadata::last_texts(headers::header_values(file.headers));
    assert forall|i: int| 0 <= i < record.headers@.len() implies headers::header_values(
        file.headers,
    ).contains_key((#[trigger] record.headers@[i]).0@) by {
        assert(texts.contains_key(record.headers@[i].0@));
    }
}

/// What keeps a download from being made, or from being redirected, is told in these words.
pub proof fn failures_name_their_reason(
    config: Config,
    message: Seq<char>,
    uri: UriView,
    redirect: TransportResult,
)
    requires
        redirect is Redirect,
    ensures
        first_target(Err(message), config) == Err::<TargetView, ErrorView>(
            ErrorView::ConnectionFailed("invalid URL: "@ + message),
        ),
        uri.host is None ==> first_target(Ok(uri), config) == Err::<TargetView, ErrorView>(
            ErrorView::ConnectionFailed("URL missing host"@),
        ),
        fetched(true, config, Ok(redirect)) == Fetched::Error(
            ErrorView::TooManyRedirects("too many cross-host redirects"@),
        ),
        redirect->Redirect_0.new_uri@.host is None ==> fetched(false, config, Ok(redirect))
            == Fetched::Error(ErrorView::TooManyRedirects("redirect to URL without host"@)),
{
}

} // verus!
