//! Resolved host names, kept for a while.

use vstd::hash_map::StringHashMap;
use vstd::prelude::*;
use vstd::slice::slice_to_vec;
use vstd::string::StringExecFns;

use crate::text;
use crate::time::Duration;
use crate::types::{DownloadError, ErrorView};

verus! {

/// The address of a socket: an IPv4 or IPv6 address and a port.
#[derive(Debug, Clone, Copy, PartialEq, Eq, Structural)]
pub enum Address {
    V4 { bits: u32, port: u16 },
    V6 { wide_bits: u128, port: u16, flow_info: u32, scope_id: u32 },
}

/// What a host name resolved to, and until when that is believed. The time is counted in
/// nanoseconds.
#[derive(Debug)]
struct CacheEntry {
    result: Result<Vec<Address>, String>,
    expires_at: u128,
}

/// What a host name resolved to, or why it did not, and until when that is believed.
pub struct EntryView {
    pub result: Result<Seq<Address>, Seq<char>>,
    pub expires_at: nat,
}

/// The addresses of a lookup, or the characters of its error.
pub open spec fn lookup_view(result: Result<Vec<Address>, String>) -> Result<
    Seq<Address>,
    Seq<char>,
> {
    match result {
        Ok(addresses) => Ok(addresses@),
        Err(message) => Err(message@),
    }
}

/// A lookup as it is reported to those who asked for it.
pub open spec fn reported(result: Result<Seq<Address>, Seq<char>>) -> Result<
    Seq<Address>,
    ErrorView,
> {
    match result {
        Ok(addresses) => Ok(addresses),
        Err(message) => Err(ErrorView::DnsResolutionFailed(message)),
    }
}

/// A reported lookup, with its addresses and texts as sequences.
pub open spec fn report_view(result: Result<Vec<Address>, DownloadError>) -> Result<
    Seq<Address>,
    ErrorView,
> {
    match result {
        Ok(addresses) => Ok(addresses@),
        Err(e) => Err(e@),
    }
}

/// How a host name is resolved.
#[derive(Debug)]
pub enum Resolution {
    /// It is known what the name resolves to, or that it does not.
    Known(Result<Vec<Address>, DownloadError>),
    /// This is to be looked up.
    LookUp(String),
}

/// Host names with what they resolved to, each believed for a limited time.
///
/// Designed for workloads with a small number of distinct hosts. Times are counted from
/// an origin of the caller's choice.
pub struct DnsCache {
    cache: StringHashMap<CacheEntry>,
    ttl: Duration,
    negative_ttl: Duration,
}

/// A cache: what is kept under each host name, and how long addresses and failures are
/// believed, in nanoseconds.
pub struct CacheView {
    pub entries: Map<Seq<char>, EntryView>,
    pub ttl: nat,
    pub negative_ttl: nat,
}

impl View for DnsCache {
    type V = CacheView;

    closed spec fn view(&self) -> CacheView {
        CacheView {
            entries: self.cache@.map_values(
                |entry: CacheEntry|
                    EntryView {
                        result: lookup_view(entry.result),
                        expires_at: entry.expires_at as nat,
                    },
            ),
            ttl: self.ttl@,
            negative_ttl: self.negative_ttl@,
        }
    }
}

/// What the cache answers for `host` at time `now`: nothing where the name is not known,
/// or no longer believed.
pub open spec fn answer(cache: CacheView, host: Seq<char>, now: nat) -> Option<
    Result<Seq<Address>, ErrorView>,
> {
    if cache.entries.contains_key(host) && now < cache.entries[host].expires_at {
        Some(reported(cache.entries[host].result))
    } else {
        None
    }
}

/// The cache after `host` has been looked up at time `now`.
pub open spec fn recorded(
    cache: CacheView,
    host: Seq<char>,
    result: Result<Seq<Address>, Seq<char>>,
    now: nat,
) -> CacheView {
    CacheView {
        entries: cache.entries.insert(
            host,
            EntryView {
                result,
                expires_at: now + if result is Ok {
                    cache.ttl
                } else {
                    cache.negative_ttl
                },
            },
        ),
        ..cache
    }
}

/// A cache that knows no host, where addresses are believed for `ttl`.
pub open spec fn empty_cache(ttl: nat) -> CacheView {
    CacheView { entries: Map::empty(), ttl, negative_ttl: 30_000_000_000 }
}

/// What is looked up for a host: its name and the port, with a colon between.
pub open spec fn lookup_name(host: Seq<char>, port: u16) -> Seq<char> {
    host + ":"@ + text::decimal_digits(port as nat)
}

impl DnsCache {
    /// Create a new DNS cache with the given positive TTL.
    /// Negative cache entries use a 30-second TTL.
    pub fn new(ttl: Duration) -> (cache: DnsCache)
        ensures
            cache@ == empty_cache(ttl@),
    {
        let cache = DnsCache {
            cache: StringHashMap::new(),
            ttl,
            negative_ttl: Duration::from_secs(30),
        };
        assert(cache@.entries =~= Map::empty());
        cache
    }

    /// Resolve a hostname to socket addresses, using the cache: what it knows of `host` at
    /// time `now`, or else the name that is to be looked up, the result of which is to be
    /// recorded.
    pub fn resolve(&self, host: &str, port: u16, now: Duration) -> (step: Resolution)
        ensures
            match step {
                Resolution::Known(result) => answer(self@, host@, now@) == Some(
                    report_view(result),
                ),
                Resolution::LookUp(name) => answer(self@, host@, now@) is None && name@
                    == lookup_name(host@, port),
            },
    {
        if let Some(entry) = self.cache.get(host) {
            if now.as_nanos() < entry.expires_at {
                return Resolution::Known(
                    match &entry.result {
                        Ok(addresses) => Ok(slice_to_vec(addresses.as_slice())),
                        Err(message) => Err(DownloadError::DnsResolutionFailed(message.clone())),
                    },
                );
            }
        }
        let mut name = host.to_string();
        name.append(":");
        text::push_decimal(&mut name, port as u128);
        Resolution::LookUp(name)
    }

    /// Records what looking `host` up at time `now` gave, and reports it.
    pub fn record(&mut self, host: &str, result: Result<Vec<Address>, String>, now: Duration) -> (report:
        Result<Vec<Address>, DownloadError>)
        ensures
            report_view(report) == reported(lookup_view(result)),
            final(self)@ == recorded(old(self)@, host@, lookup_view(result), now@),
    {
        let ghost before = self@;
        let span = if result.is_ok() {
            self.ttl
        } else {
            self.negative_ttl
        };
        let expires_at: u128 = now.as_nanos() + span.as_nanos();
        let report = match &result {
            Ok(addresses) => Ok(slice_to_vec(addresses.as_slice())),
            Err(message) => Err(DownloadError::DnsResolutionFailed(message.clone())),
        };
        let ghost outcome = lookup_view(result);
        self.cache.insert(host.to_string(), CacheEntry { result, expires_at });
        assert(self@.entries =~= recorded(before, host@, outcome, now@).entries);
        report
    }
}

/// What was recorded for a host is answered until its time is up, and not after, so that
/// the host is then looked up again. What is known of other hosts stays as it was.
pub proof fn recorded_until_expiry(
    cache: CacheView,
    host: Seq<char>,
    result: Result<Seq<Address>, Seq<char>>,
    now: nat,
    other: Seq<char>,
    later: nat,
)
    ensures
        ({
            let after = recorded(cache, host, result, now);
            let span = if result is Ok {
                cache.ttl
            } else {
                cache.negative_ttl
            };
            &&& later < now + span ==> answer(after, host, later) == Some(reported(result))
            &&& later >= now + span ==> answer(after, host, later) is None
            &&& other != host ==> answer(after, other, later) == answer(cache, other, later)
        }),
{
}

/// Addresses are reported as they were found, and a failed lookup with the message of its
/// cause.
pub proof fn lookups_are_reported_as_they_are(addresses: Seq<Address>, message: Seq<char>)
    ensures
        reported(Ok(addresses)) == Ok::<Seq<Address>, ErrorView>(addresses),
        reported(Err(message)) == Err::<Seq<Address>, ErrorView>(
            ErrorView::DnsResolutionFailed(message),
        ),
{
}

/// A lookup is kept for the time that belongs to its outcome, and neither that time nor that
/// of the other outcome changes.
pub proof fn lookups_are_kept_for_their_time(
    cache: CacheView,
    host: Seq<char>,
    result: Result<Seq<Address>, Seq<char>>,
    now: nat,
)
    ensures
        ({
            let after = recorded(cache, host, result, now);
            &&& after.ttl == cache.ttl
            &&& after.negative_ttl == cache.negative_ttl
            &&& after.entries.dom() == cache.entries.dom().insert(host)
            &&& after.entries[host].result == result
            &&& result is Ok ==> after.entries[host].expires_at == now + cache.ttl
            &&& result is Err ==> after.entries[host].expires_at == now + cache.negative_ttl
        }),
{
    assert(recorded(cache, host, result, now).entries.dom() =~= cache.entries.dom().insert(host));
}

/// A new cache knows no host. It believes addresses for as long as it is told to, and
/// failures for 30 seconds.
pub proof fn new_caches_know_nothing(ttl: nat, host: Seq<char>, now: nat)
    ensures
        answer(empty_cache(ttl), host, now) is None,
        empty_cache(ttl).ttl == ttl,
        empty_cache(ttl).negative_ttl == 30_000_000_000,
{
}

/// A host is looked up under its own name and port.
pub proof fn lookups_name_host_and_port(host: Seq<char>, port: u16)
    ensures
        lookup_name(host, port) == host + seq![':'] + text::decimal_digits(port as nat),
{
    reveal_strlit(":");
    assert(":"@ =~= seq![':']);
}

} // verus!
