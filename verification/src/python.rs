//! What Python callers pass in and get back.

use vstd::prelude::*;
use vstd::string::StringExecFns;

use crate::config;
use crate::config::NamingStrategy;
use crate::text;
use crate::time::Duration;
use crate::types;
use crate::types::{DownloadError, DownloadOutcome, OutcomeView, ResultView};

verus! {

/// A timeout, given by a caller as a number of seconds with a fraction.
#[derive(Debug, Clone, Copy, PartialEq, Eq, Structural)]
pub enum Timeout {
    /// A number below zero.
    Negative,
    /// A number that is a span of time.
    Span(Duration),
    /// No number, or one that is too large for a span of time.
    Unrepresentable,
}

/// Download configuration. All fields have sensible defaults.
#[derive(Debug)]
pub struct Config {
    // Transport
    pub buffer_size: u32,
    pub connections_per_host: usize,
    pub dns_cache_ttl_secs: u64,
    // Concurrency
    pub max_concurrent: usize,
    pub max_concurrent_per_host: usize,
    // Retry
    pub max_retries: u32,
    pub retry_base_delay_ms: u64,
    // Timeouts
    pub connect_timeout: Timeout,
    pub request_timeout: Timeout,
    pub batch_timeout: Option<Timeout>,
    // Output
    pub naming_strategy: String,
    pub write_metadata: bool,
    pub write_summary: bool,
    // Only for Python callers
    pub runtime_threads: usize,
}

/// The strategy that a name stands for.
pub open spec fn strategy_named(name: Seq<char>) -> Option<NamingStrategy> {
    if name == "content_hash"@ {
        Some(NamingStrategy::ContentHash)
    } else if name == "url_based"@ {
        Some(NamingStrategy::UrlBased)
    } else if name == "sequential"@ {
        Some(NamingStrategy::Sequential)
    } else if name == "file_header"@ {
        Some(NamingStrategy::FileHeader)
    } else {
        None
    }
}

/// The strategy that a name stands for.
pub fn naming_strategy(name: &str) -> (strategy: Option<NamingStrategy>)
    ensures
        strategy == strategy_named(name@),
{
    if text::equal(name, "content_hash") {
        Some(NamingStrategy::ContentHash)
    } else if text::equal(name, "url_based") {
        Some(NamingStrategy::UrlBased)
    } else if text::equal(name, "sequential") {
        Some(NamingStrategy::Sequential)
    } else if text::equal(name, "file_header") {
        Some(NamingStrategy::FileHeader)
    } else {
        None
    }
}

/// What is wrong with the arguments of a configuration: the first fault, in the order in
/// which they are looked at.
pub open spec fn config_fault(
    naming_strategy: Seq<char>,
    connect_timeout: Timeout,
    request_timeout: Timeout,
    batch_timeout: Option<Timeout>,
) -> Option<Seq<char>> {
    if strategy_named(naming_strategy) is None {
        Some(
            "Invalid naming_strategy '"@ + naming_strategy
                + "'. Valid options: content_hash, url_based, sequential, file_header"@,
        )
    } else if connect_timeout is Negative {
        Some("connect_timeout_secs must be non-negative"@)
    } else if request_timeout is Negative {
        Some("request_timeout_secs must be non-negative"@)
    } else if batch_timeout == Some(Timeout::Negative) {
        Some("batch_timeout_secs must be non-negative"@)
    } else {
        None
    }
}

impl Config {
    /// Checks the arguments of a configuration and keeps them.
    pub fn new(
        buffer_size: u32,
        connections_per_host: usize,
        dns_cache_ttl_secs: u64,
        max_concurrent: usize,
        max_concurrent_per_host: usize,
        max_retries: u32,
        retry_base_delay_ms: u64,
        connect_timeout: Timeout,
        request_timeout: Timeout,
        batch_timeout: Option<Timeout>,
        naming_strategy: String,
        write_metadata: bool,
        write_summary: bool,
        runtime_threads: usize,
    ) -> (result: Result<Config, String>)
        ensures
            ({
                let fault = config_fault(
                    naming_strategy@,
                    connect_timeout,
                    request_timeout,
                    batch_timeout,
                );
                match result {
                    Err(message) => fault == Some(message@),
                    Ok(config) => fault is None && config == (Config {
                        buffer_size,
                        connections_per_host,
                        dns_cache_ttl_secs,
                        max_concurrent,
                        max_concurrent_per_host,
                        max_retries,
                        retry_base_delay_ms,
                        connect_timeout,
                        request_timeout,
                        batch_timeout,
                        naming_strategy,
                        write_metadata,
                        write_summary,
                        runtime_threads,
                    }),
                }
            }),
    {
        if self::naming_strategy(naming_strategy.as_str()).is_none() {
            let mut message = "Invalid naming_strategy '".to_string();
            message.append(naming_strategy.as_str());
            message.append(
                "'. Valid options: content_hash, url_based, sequential, file_header",
            );
            return Err(message);
        }
        if let Timeout::Negative = connect_timeout {
            return Err("connect_timeout_secs must be non-negative".to_string());
        }
        if let Timeout::Negative = request_timeout {
            return Err("request_timeout_secs must be non-negative".to_string());
        }
        if let Some(Timeout::Negative) = batch_timeout {
            return Err("batch_timeout_secs must be non-negative".to_string());
        }
        Ok(
            Config {
                buffer_size,
                connections_per_host,
                dns_cache_ttl_secs,
                max_concurrent,
                max_concurrent_per_host,
                max_retries,
                retry_base_delay_ms,
                connect_timeout,
                request_timeout,
                batch_timeout,
                naming_strategy,
                write_metadata,
                write_summary,
                runtime_threads,
            },
        )
    }

    /// The configuration that holds where nothing else is asked for.
    pub open spec fn is_default(&self) -> bool {
        &&& self.buffer_size == 524_288
        &&& self.connections_per_host == 1
        &&& self.dns_cache_ttl_secs == 300
        &&& self.max_concurrent == 200
        &&& self.max_concurrent_per_host == 100
        &&& self.max_retries == 3
        &&& self.retry_base_delay_ms == 100
        &&& self.connect_timeout matches Timeout::Span(d)
        &&& d@ == 10_000_000_000
        &&& self.request_timeout matches Timeout::Span(d)
        &&& d@ == 30_000_000_000
        &&& self.batch_timeout is None
        &&& self.naming_strategy@ == "url_based"@
        &&& !self.write_metadata
        &&& !self.write_summary
        &&& self.runtime_threads == 0
    }

    /// Create a Config with all default values.
    pub fn with_defaults() -> (config: Config)
        ensures
            config.is_default(),
    {
        Config {
            buffer_size: 524_288,
            connections_per_host: 1,
            dns_cache_ttl_secs: 300,
            max_concurrent: 200,
            max_concurrent_per_host: 100,
            max_retries: 3,
            retry_base_delay_ms: 100,
            connect_timeout: Timeout::Span(Duration::from_secs(10)),
            request_timeout: Timeout::Span(Duration::from_secs(30)),
            batch_timeout: None,
            naming_strategy: "url_based".to_string(),
            write_metadata: false,
            write_summary: false,
            runtime_threads: 0,
        }
    }

    /// Whether every timeout is a span of time and the naming strategy is one that there
    /// is.
    pub open spec fn is_convertible(&self) -> bool {
        &&& strategy_named(self.naming_strategy@) is Some
        &&& self.connect_timeout is Span
        &&& self.request_timeout is Span
        &&& self.batch_timeout matches Some(timeout) ==> timeout is Span
    }

    /// Whether every timeout is a span of time and the naming strategy is one that there
    /// is.
    pub fn convertible(&self) -> (r: bool)
        ensures
            r == self.is_convertible(),
    {
        let spans = match (self.connect_timeout, self.request_timeout) {
            (Timeout::Span(_), Timeout::Span(_)) => true,
            _ => false,
        };
        let batch = match self.batch_timeout {
            None => true,
            Some(Timeout::Span(_)) => true,
            Some(_) => false,
        };
        spans && batch && naming_strategy(self.naming_strategy.as_str()).is_some()
    }
}

/// Whether `core` is the downloader's configuration for what a Python caller asked for.
/// What such a caller cannot set has its default.
pub open spec fn is_core_config(config: Config, core: config::Config) -> bool {
    &&& core.stream_window_size == config.buffer_size
    &&& core.connections_per_host == config.connections_per_host
    &&& core.dns_cache_ttl@ == config.dns_cache_ttl_secs * 1_000_000_000
    &&& core.user_agent@ == "imgdl/0.1"@
    &&& core.max_redirects == 5
    &&& core.max_concurrent_global == config.max_concurrent
    &&& core.max_concurrent_per_host == config.max_concurrent_per_host
    &&& core.max_retries == config.max_retries
    &&& core.retry_base_delay@ == config.retry_base_delay_ms * 1_000_000
    &&& config.connect_timeout == Timeout::Span(core.connect_timeout)
    &&& config.request_timeout == Timeout::Span(core.request_timeout)
    &&& config.batch_timeout == match core.batch_timeout {
        Some(span) => Some(Timeout::Span(span)),
        None => None,
    }
    &&& strategy_named(config.naming_strategy@) == Some(core.naming_strategy)
    &&& core.write_metadata == config.write_metadata
    &&& core.write_summary == config.write_summary
}

fn span_of(timeout: Timeout) -> (span: Duration)
    requires
        timeout is Span,
    ensures
        timeout == Timeout::Span(span),
{
    match timeout {
        Timeout::Span(span) => span,
        _ => Duration::zero(),
    }
}

/// Convert a Python Config to a core Config.
pub fn python_config_to_core(config: &Config) -> (core: config::Config)
    requires
        config.is_convertible(),
    ensures
        is_core_config(*config, core),
{
    let naming_strategy = match naming_strategy(config.naming_strategy.as_str()) {
        Some(strategy) => strategy,
        None => NamingStrategy::UrlBased,
    };
    let defaults = config::Config::default();
    config::Config {
        stream_window_size: config.buffer_size,
        connections_per_host: config.connections_per_host,
        dns_cache_ttl: Duration::from_secs(config.dns_cache_ttl_secs),
        user_agent: defaults.user_agent,
        max_redirects: defaults.max_redirects,
        max_concurrent_global: config.max_concurrent,
        max_concurrent_per_host: config.max_concurrent_per_host,
        max_retries: config.max_retries,
        retry_base_delay: Duration::from_millis(config.retry_base_delay_ms),
        connect_timeout: span_of(config.connect_timeout),
        request_timeout: span_of(config.request_timeout),
        batch_timeout: match config.batch_timeout {
            Some(timeout) => Some(span_of(timeout)),
            None => None,
        },
        naming_strategy,
        write_metadata: config.write_metadata,
        write_summary: config.write_summary,
    }
}

/// The defaults of Python callers are the defaults of the downloader.
pub proof fn defaults_agree(config: Config, core: config::Config)
    requires
        config.is_default(),
        is_core_config(config, core),
    ensures
        config.is_convertible(),
        core.is_default(),
{
    reveal_strlit("content_hash");
    reveal_strlit("url_based");
    assert("content_hash"@ != "url_based"@) by {
        assert("content_hash"@.len() != "url_based"@.len());
    }
}

/// A configuration that was checked has a naming strategy that there is, and no timeout
/// below zero.
pub proof fn checked_configs_name_a_strategy(
    naming_strategy: Seq<char>,
    connect_timeout: Timeout,
    request_timeout: Timeout,
    batch_timeout: Option<Timeout>,
)
    requires
        config_fault(naming_strategy, connect_timeout, request_timeout, batch_timeout) is None,
    ensures
        strategy_named(naming_strategy) is Some,
        !(connect_timeout is Negative),
        !(request_timeout is Negative),
        batch_timeout != Some(Timeout::Negative),
{
}

/// Result of downloading a single URL.
#[derive(Debug)]
pub struct DownloadResult {
    pub url: String,
    pub success: bool,
    pub path: Option<String>,
    pub error: Option<String>,
    pub size_bytes: Option<u64>,
    pub elapsed: Option<Duration>,
    pub content_hash: Option<String>,
    pub retries_attempted: Option<u32>,
}

/// How a result is shown.
pub open spec fn shown(result: DownloadResult) -> Seq<char> {
    if result.success {
        "DownloadResult(url='"@ + result.url@ + "', success=True, path='"@ + (
        match result.path {
            Some(path) => path@,
            None => Seq::empty(),
        }) + "')"@
    } else {
        "DownloadResult(url='"@ + result.url@ + "', success=False, error='"@ + (
        match result.error {
            Some(error) => error@,
            None => Seq::empty(),
        }) + "')"@
    }
}

impl DownloadResult {
    /// How the result is shown.
    pub fn __repr__(&self) -> (s: String)
        ensures
            s@ == shown(*self),
    {
        let mut s = "DownloadResult(url='".to_string();
        s.append(self.url.as_str());
        let last = if self.success {
            s.append("', success=True, path='");
            &self.path
        } else {
            s.append("', success=False, error='");
            &self.error
        };
        let ghost start = s@;
        match last {
            Some(text) => {
                s.append(text.as_str());
            },
            None => {
                assert(start =~= start + Seq::<char>::empty());
            },
        }
        s.append("')");
        s
    }
}

/// Whether `converted` is what a Python caller gets for a result. The retries of a success
/// are not told.
pub open spec fn is_python_result(converted: DownloadResult, result: ResultView) -> bool {
    &&& converted.url@ == result.url
    &&& match result.outcome {
        OutcomeView::Success { path, size_bytes, content_hash, elapsed } => {
            &&& converted.success
            &&& text::optional_text(converted.path) == Some(types::displayed(path))
            &&& converted.error is None
            &&& converted.size_bytes == Some(size_bytes)
            &&& converted.elapsed == Some(elapsed)
            &&& text::optional_text(converted.content_hash) == content_hash
            &&& converted.retries_attempted == Some(0u32)
        },
        OutcomeView::Failure { error, elapsed, retries_attempted } => {
            &&& !converted.success
            &&& converted.path is None
            &&& text::optional_text(converted.error) == Some(types::error_text(error))
            &&& converted.size_bytes is None
            &&& converted.elapsed == Some(elapsed)
            &&& converted.content_hash is None
            &&& converted.retries_attempted == Some(retries_attempted)
        },
    }
}

/// Convert a core DownloadResult to a Python DownloadResult.
pub fn core_result_to_python(result: types::DownloadResult) -> (converted: DownloadResult)
    ensures
        is_python_result(converted, result@),
        converted.url == result.url,
{
    match result.outcome {
        DownloadOutcome::Success { path, size_bytes, content_hash, elapsed } => DownloadResult {
            url: result.url,
            success: true,
            path: Some(types::display_path(&path)),
            error: None,
            size_bytes: Some(size_bytes),
            elapsed: Some(elapsed),
            content_hash,
            retries_attempted: Some(0),
        },
        DownloadOutcome::Failure { error, elapsed, retries_attempted } => DownloadResult {
            url: result.url,
            success: false,
            path: None,
            error: Some(error.to_string()),
            size_bytes: None,
            elapsed: Some(elapsed),
            content_hash: None,
            retries_attempted: Some(retries_attempted),
        },
    }
}

/// Checks the URLs that a caller passed: there has to be one.
pub fn check_urls(urls: &[String]) -> (result: Result<(), String>)
    ensures
        match result {
            Ok(()) => urls@.len() > 0,
            Err(message) => urls@.len() == 0 && message@ == "urls list cannot be empty"@,
        },
{
    if urls.len() == 0 {
        Err("urls list cannot be empty".to_string())
    } else {
        Ok(())
    }
}

/// How many worker threads are asked for, where a caller asked for any.
pub open spec fn asked_threads(threads: usize) -> Option<usize> {
    if threads > 0 {
        Some(threads)
    } else {
        None
    }
}

/// How many worker threads are asked for: as many as there are processors where the
/// caller asks for none.
pub fn worker_threads(threads: usize) -> (count: Option<usize>)
    ensures
        count == asked_threads(threads),
{
    if threads > 0 {
        Some(threads)
    } else {
        None
    }
}

/// A result that could not be written.
pub open spec fn is_unwritten(result: ResultView) -> bool {
    result.outcome matches OutcomeView::Failure { error, .. } && error is WriteError
}

/// Whether the output directory could not be created or written to: there are results, and
/// none of them could be written.
pub open spec fn directory_is_unusable(results: Seq<types::DownloadResult>) -> bool {
    &&& results.len() > 0
    &&& forall|i: int| 0 <= i < results.len() ==> is_unwritten((#[trigger] results[i])@)
}

/// Why the output directory could not be created or written to, where that is so: what
/// kept the first result from being written.
pub fn directory_error(results: &[types::DownloadResult]) -> (message: Option<String>)
    ensures
        match message {
            Some(text) => directory_is_unusable(results@) && text@
                == results@[0]@.outcome->error->WriteError_0,
            None => !directory_is_unusable(results@),
        },
{
    let mut first: Option<String> = None;
    let mut i: usize = 0;
    while i < results.len()
        invariant
            i <= results@.len(),
            forall|j: int| 0 <= j < i ==> is_unwritten((#[trigger] results@[j])@),
            match first {
                Some(text) => i > 0 && text@ == results@[0]@.outcome->error->WriteError_0,
                None => i == 0,
            },
        decreases results@.len() - i,
    {
        match &results[i].outcome {
            DownloadOutcome::Failure { error: DownloadError::WriteError(message), .. } => {
                assert(is_unwritten(results@[i as int]@));
                if i == 0 {
                    first = Some(message.clone());
                }
            },
            _ => {
                assert(!is_unwritten(results@[i as int]@));
                return None;
            },
        }
        i += 1;
    }
    first
}

/// The four names stand for the four strategies, and no other name stands for one.
pub proof fn names_stand_for_strategies(name: Seq<char>)
    ensures
        strategy_named(name) == Some(NamingStrategy::ContentHash) <==> name == "content_hash"@,
        strategy_named(name) == Some(NamingStrategy::UrlBased) <==> name == "url_based"@,
        strategy_named(name) == Some(NamingStrategy::Sequential) <==> name == "sequential"@,
        strategy_named(name) == Some(NamingStrategy::FileHeader) <==> name == "file_header"@,
{
    reveal_strlit("content_hash");
    reveal_strlit("url_based");
    reveal_strlit("sequential");
    reveal_strlit("file_header");
    assert("content_hash"@.len() == 12 && "url_based"@.len() == 9 && "sequential"@.len() == 10
        && "file_header"@.len() == 11);
}

/// A configuration is refused exactly where its strategy is none of the four, or where a
/// timeout is below zero.
pub proof fn configs_are_refused_for_their_faults(
    naming_strategy: Seq<char>,
    connect_timeout: Timeout,
    request_timeout: Timeout,
    batch_timeout: Option<Timeout>,
)
    ensures
        config_fault(naming_strategy, connect_timeout, request_timeout, batch_timeout) is None
            <==> (naming_strategy == "content_hash"@ || naming_strategy == "url_based"@
            || naming_strategy == "sequential"@ || naming_strategy == "file_header"@)
            && connect_timeout != Timeout::Negative && request_timeout != Timeout::Negative
            && batch_timeout != Some(Timeout::Negative),
{
}

/// What a Python caller asked for is what the downloader is configured with, each setting in
/// its own place: seconds and milliseconds as spans of time, the buffer as the window of a
/// stream. The name of the client and the number of redirects are fixed.
pub proof fn settings_are_handed_on(config: Config, core: config::Config)
    requires
        is_core_config(config, core),
    ensures
        core.stream_window_size == config.buffer_size,
        core.connections_per_host == config.connections_per_host,
        core.dns_cache_ttl@ == config.dns_cache_ttl_secs * 1_000_000_000,
        core.max_concurrent_global == config.max_concurrent,
        core.max_concurrent_per_host == config.max_concurrent_per_host,
        core.max_retries == config.max_retries,
        core.retry_base_delay@ == config.retry_base_delay_ms * 1_000_000,
        config.connect_timeout == Timeout::Span(core.connect_timeout),
        config.request_timeout == Timeout::Span(core.request_timeout),
        config.batch_timeout is None <==> core.batch_timeout is None,
        core.batch_timeout matches Some(span) ==> config.batch_timeout == Some(Timeout::Span(span)),
        core.naming_strategy == NamingStrategy::ContentHash <==> config.naming_strategy@
            == "content_hash"@,
        core.naming_strategy == NamingStrategy::UrlBased <==> config.naming_strategy@
            == "url_based"@,
        core.naming_strategy == NamingStrategy::Sequential <==> config.naming_strategy@
            == "sequential"@,
        core.naming_strategy == NamingStrategy::FileHeader <==> config.naming_strategy@
            == "file_header"@,
        core.write_metadata == config.write_metadata,
        core.write_summary == config.write_summary,
        core.user_agent@ == "imgdl/0.1"@,
        core.max_redirects == 5,
{
    names_stand_for_strategies(config.naming_strategy@);
}

/// A result says as much to a Python caller as it does to any other: where the file is and
/// what it holds, or why there is none and how often it was tried again.
pub proof fn python_results_say_the_same(converted: DownloadResult, result: ResultView)
    requires
        is_python_result(converted, result),
    ensures
        converted.url@ == result.url,
        converted.success <==> result.outcome is Success,
        converted.path is Some <==> converted.success,
        converted.error is Some <==> !converted.success,
        result.outcome matches OutcomeView::Success { path, size_bytes, content_hash, elapsed }
            ==> converted.path.unwrap()@ == types::displayed(path) && converted.size_bytes == Some(
            size_bytes,
        ) && converted.elapsed == Some(elapsed) && text::optional_text(converted.content_hash)
            == content_hash && converted.retries_attempted == Some(0u32),
        result.outcome matches OutcomeView::Failure { error, elapsed, retries_attempted }
            ==> converted.error.unwrap()@ == types::error_text(error) && converted.size_bytes
            is None && converted.elapsed == Some(elapsed) && converted.content_hash is None
            && converted.retries_attempted == Some(retries_attempted),
{
}

/// A result is shown with its URL and, in full, the path of its file or the text of its
/// error.
pub proof fn results_are_shown_in_full(result: DownloadResult)
    ensures
        ({
            let last = match (if result.success {
                result.path
            } else {
                result.error
            }) {
                Some(text) => text@,
                None => Seq::empty(),
            };
            &&& result.success ==> shown(result) == "DownloadResult(url='"@ + result.url@
                + "', success=True, path='"@ + last + "')"@
            &&& !result.success ==> shown(result) == "DownloadResult(url='"@ + result.url@
                + "', success=False, error='"@ + last + "')"@
        }),
{
}

/// The output directory is at fault exactly where there are results and each of them is one
/// that could not be written: one success, or one failure of another kind, clears it.
pub proof fn other_outcomes_clear_the_directory(results: Seq<types::DownloadResult>)
    ensures
        directory_is_unusable(results) <==> results.len() > 0 && forall|i: int|
            0 <= i < results.len() ==> ((#[trigger] results[i]).outcome
                matches DownloadOutcome::Failure { error, .. } && error
                matches DownloadError::WriteError(_)),
{
    if directory_is_unusable(results) {
        assert forall|i: int| 0 <= i < results.len() implies ((#[trigger] results[i]).outcome
            matches DownloadOutcome::Failure { error, .. } && error
            matches DownloadError::WriteError(_)) by {
            assert(is_unwritten(results[i]@));
        }
    }
    if results.len() > 0 && forall|i: int|
        0 <= i < results.len() ==> ((#[trigger] results[i]).outcome
            matches DownloadOutcome::Failure { error, .. } && error
            matches DownloadError::WriteError(_)) {
        assert forall|i: int| 0 <= i < results.len() implies is_unwritten(
            (#[trigger] results[i])@,
        ) by {}
    }
}

/// A Python caller who asks for nothing gets these settings.
pub proof fn python_defaults_are_these(config: Config)
    requires
        config.is_default(),
    ensures
        config.buffer_size == 524_288,
        config.connections_per_host == 1,
        config.dns_cache_ttl_secs == 300,
        config.max_concurrent == 200,
        config.max_concurrent_per_host == 100,
        config.max_retries == 3,
        config.retry_base_delay_ms == 100,
        config.connect_timeout matches Timeout::Span(span) && span@ == 10_000_000_000,
        config.request_timeout matches Timeout::Span(span) && span@ == 30_000_000_000,
        config.batch_timeout is None,
        config.naming_strategy@ == "url_based"@,
        !config.write_metadata,
        !config.write_summary,
        config.runtime_threads == 0,
{
}

/// A caller gets as many threads as they asked for, and leaves the number open with zero.
pub proof fn threads_are_those_asked_for(threads: usize)
    ensures
        asked_threads(threads) is None <==> threads == 0,
        asked_threads(threads) matches Some(count) ==> count == threads,
{
}

/// A configuration can be handed on exactly where its strategy is one of the four and its
/// timeouts are spans of time.
pub proof fn convertible_configs_are_complete(config: Config)
    ensures
        config.is_convertible() <==> (config.naming_strategy@ == "content_hash"@
            || config.naming_strategy@ == "url_based"@ || config.naming_strategy@ == "sequential"@
            || config.naming_strategy@ == "file_header"@) && (config.connect_timeout
            matches Timeout::Span(_)) && (config.request_timeout matches Timeout::Span(_)) && (
        config.batch_timeout is None || (config.batch_timeout matches Some(timeout) && (timeout
            matches Timeout::Span(_)))),
{
}

} // verus!
