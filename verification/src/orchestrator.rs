//! What a downloader keeps from one batch to the next.

use vstd::prelude::*;

use crate::batch;
use crate::batch::BatchStart;
use crate::config::Config;
use crate::dns::{CacheView, DnsCache};
use crate::pool::{ConnectionPool, PoolView};

verus! {

/// The main entry point for batch image downloading.
///
/// Owns persistent state (connection pool, DNS cache) that survives across sequential
/// batches, enabling connection reuse.
pub struct Downloader<H2, H1> {
    pub pool: ConnectionPool<H2, H1>,
    pub dns: DnsCache,
    pub config: Config,
}

impl<H2, H1> Downloader<H2, H1> {
    /// A downloader that has made no connection and looked no name up.
    pub open spec fn is_new(&self, config: Config, plain_mode: bool) -> bool {
        &&& self.pool.wf()
        &&& self.pool@ == PoolView::<H2, H1> { hosts: Map::empty(), config, plain_mode }
        &&& self.dns@ == CacheView {
            entries: Map::empty(),
            ttl: config.dns_cache_ttl@,
            negative_ttl: 30_000_000_000,
        }
        &&& self.config == config
    }

    /// Create a new Downloader with the given configuration.
    pub fn new(config: Config) -> (downloader: Self)
        ensures
            downloader.is_new(config, false),
    {
        let dns = DnsCache::new(config.dns_cache_ttl);
        let pool = ConnectionPool::new(config.clone());
        Downloader { pool, dns, config }
    }

    /// Create a Downloader that uses plain HTTP (no TLS). For testing only.
    pub fn new_plain(config: Config) -> (downloader: Self)
        ensures
            downloader.is_new(config, true),
    {
        let dns = DnsCache::new(config.dns_cache_ttl);
        let pool = ConnectionPool::new_plain(config.clone());
        Downloader { pool, dns, config }
    }

    /// Download a batch of URLs: what to do before anything is downloaded.
    pub fn download_batch(&self, urls: &[&str]) -> (start: BatchStart)
        ensures
            match start {
                BatchStart::Finished(results) => urls@.len() == 0 && results@.len() == 0,
                BatchStart::CreateDirectory => urls@.len() > 0,
            },
    {
        batch::start_batch(urls)
    }
}

/// A new downloader has no connection and no lookup, keeps to its own configuration, and
/// believes failed lookups for 30 seconds.
pub proof fn new_downloaders_keep_nothing<H2, H1>(
    downloader: Downloader<H2, H1>,
    config: Config,
    plain_mode: bool,
)
    requires
        downloader.is_new(config, plain_mode),
    ensures
        downloader.config == config,
        downloader.pool@.config == config,
        downloader.pool@.plain_mode == plain_mode,
        downloader.pool@.hosts.dom() == Set::<(Seq<char>, u16)>::empty(),
        downloader.dns@.entries.dom() == Set::<Seq<char>>::empty(),
        downloader.dns@.ttl == config.dns_cache_ttl@,
        downloader.dns@.negative_ttl == 30_000_000_000,
{
    assert(downloader.pool@.hosts.dom() =~= Set::empty());
    assert(downloader.dns@.entries.dom() =~= Set::empty());
}

} // verus!
