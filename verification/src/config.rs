//! How downloads are made.

use vstd::prelude::*;

use crate::time::Duration;

verus! {

/// Strategy for generating output filenames for downloaded images.
#[derive(Debug, Clone, Copy, PartialEq, Eq, Structural)]
pub enum NamingStrategy {
    /// Extract filename from the URL path segment. Sanitize special characters.
    UrlBased,
    /// Zero-padded sequential index: 001.jpg, 002.png, etc.
    Sequential,
    /// SHA-256 hash of image bytes, truncated to 32 hex characters.
    ContentHash,
    /// Detect image format from magic bytes and use detected extension.
    FileHeader,
}

impl Default for NamingStrategy {
    fn default() -> (s: Self)
        ensures
            s == NamingStrategy::UrlBased,
    {
        NamingStrategy::UrlBased
    }
}

/// Configuration for the image downloader.
#[derive(Debug)]
pub struct Config {
    pub stream_window_size: u32,
    pub connections_per_host: usize,
    pub dns_cache_ttl: Duration,
    pub user_agent: String,
    pub max_redirects: u8,
    pub max_concurrent_global: usize,
    pub max_concurrent_per_host: usize,
    pub max_retries: u32,
    pub retry_base_delay: Duration,
    pub connect_timeout: Duration,
    pub request_timeout: Duration,
    pub batch_timeout: Option<Duration>,
    pub naming_strategy: NamingStrategy,
    pub write_metadata: bool,
    pub write_summary: bool,
}

impl Clone for Config {
    fn clone(&self) -> (copy: Self)
        ensures
            copy == *self,
    {
        Config {
            stream_window_size: self.stream_window_size,
            connections_per_host: self.connections_per_host,
            dns_cache_ttl: self.dns_cache_ttl,
            user_agent: self.user_agent.clone(),
            max_redirects: self.max_redirects,
            max_concurrent_global: self.max_concurrent_global,
            max_concurrent_per_host: self.max_concurrent_per_host,
            max_retries: self.max_retries,
            retry_base_delay: self.retry_base_delay,
            connect_timeout: self.connect_timeout,
            request_timeout: self.request_timeout,
            batch_timeout: self.batch_timeout,
            naming_strategy: self.naming_strategy,
            write_metadata: self.write_metadata,
            write_summary: self.write_summary,
        }
    }
}

impl Config {
    /// The settings that hold where nothing else is asked for.
    pub open spec fn is_default(&self) -> bool {
        &&& self.stream_window_size == 524_288
        &&& self.connections_per_host == 1
        &&& self.dns_cache_ttl@ == 300_000_000_000
        &&& self.user_agent@ == "imgdl/0.1"@
        &&& self.max_redirects == 5
        &&& self.max_concurrent_global == 200
        &&& self.max_concurrent_per_host == 100
        &&& self.max_retries == 3
        &&& self.retry_base_delay@ == 100_000_000
        &&& self.connect_timeout@ == 10_000_000_000
        &&& self.request_timeout@ == 30_000_000_000
        &&& self.batch_timeout is None
        &&& self.naming_strategy == NamingStrategy::UrlBased
        &&& !self.write_metadata
        &&& !self.write_summary
    }
}

impl Default for Config {
    fn default() -> (c: Self)
        ensures
            c.is_default(),
    {
        Config {
            stream_window_size: 524_288,
            connections_per_host: 1,
            dns_cache_ttl: Duration::from_secs(300),
            user_agent: "imgdl/0.1".to_string(),
            max_redirects: 5,
            max_concurrent_global: 200,
            max_concurrent_per_host: 100,
            max_retries: 3,
            retry_base_delay: Duration::from_millis(100),
            connect_timeout: Duration::from_secs(10),
            request_timeout: Duration::from_secs(30),
            batch_timeout: None,
            naming_strategy: NamingStrategy::UrlBased,
            write_metadata: false,
            write_summary: false,
        }
    }
}

/// Who asks for nothing gets these settings.
pub proof fn defaults_are_these(config: Config)
    requires
        config.is_default(),
    ensures
        config.stream_window_size == 524_288,
        config.connections_per_host == 1,
        config.dns_cache_ttl@ == 300_000_000_000,
        config.user_agent@ == "imgdl/0.1"@,
        config.max_redirects == 5,
        config.max_concurrent_global == 200,
        config.max_concurrent_per_host == 100,
        config.max_retries == 3,
        config.retry_base_delay@ == 100_000_000,
        config.connect_timeout@ == 10_000_000_000,
        config.request_timeout@ == 30_000_000_000,
        config.batch_timeout is None,
        config.naming_strategy == NamingStrategy::UrlBased,
        !config.write_metadata,
        !config.write_summary,
{
}

} // verus!
