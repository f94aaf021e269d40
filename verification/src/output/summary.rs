//! What a batch of downloads came to.

use vstd::prelude::*;
use vstd::slice::{slice_subrange, slice_to_vec};

use crate::config::Config;
use crate::output::naming;
use crate::text;
use crate::time::Duration;
use crate::types;
use crate::types::{DownloadOutcome, DownloadResult, OutcomeView, ResultView};

verus! {

/// Summary of an entire batch download operation.
#[derive(Debug)]
pub struct BatchSummary {
    pub config: Config,
    pub total_urls: usize,
    pub unique_urls: usize,
    pub successful: usize,
    pub failed: usize,
    pub total_bytes: u64,
    pub total_elapsed: Duration,
    /// Each host once, in the order in which they first occur.
    pub per_host_stats: Vec<(String, HostStats)>,
    pub results: Vec<ResultSummary>,
}

/// Per-host aggregate statistics.
#[derive(Debug)]
pub struct HostStats {
    pub requests: usize,
    pub successful: usize,
    pub failed: usize,
    pub total_bytes: u64,
    /// The time that each request took.
    pub elapsed: Vec<Duration>,
}

/// Compact per-URL result for the summary.
#[derive(Debug)]
pub struct ResultSummary {
    pub url: String,
    pub success: bool,
    pub size_bytes: Option<u64>,
    pub elapsed: Duration,
    pub error: Option<String>,
}

/// The part of a URL that names the server: what stands between the first two slashes and
/// the next slash, the query or the fragment. There is none where there are no two slashes.
pub open spec fn authority_of(url: Seq<char>) -> Option<Seq<char>> {
    let kept = naming::without_query_and_fragment(url);
    let slashes = text::first_slashes(kept);
    if slashes < kept.len() {
        Some(text::before_first(kept.skip(slashes + 2), '/'))
    } else {
        None
    }
}

/// The host in the part of a URL that names the server: what stands behind the user
/// information and before the port. A host in brackets goes up to the closing one.
pub open spec fn host_in(authority: Seq<char>) -> Seq<char> {
    let server = text::after_last(authority, '@');
    if server.len() > 0 && server[0] == '[' && server.contains(']') {
        server.take(text::first_index(server, ']') + 1)
    } else {
        text::before_first(server, ':')
    }
}

/// The host that a URL names, or `unknown` where it names none.
pub open spec fn host_of(url: Seq<char>) -> Seq<char> {
    match authority_of(url) {
        Some(authority) => if host_in(authority).len() > 0 {
            host_in(authority)
        } else {
            "unknown"@
        },
        None => "unknown"@,
    }
}

fn find_host(authority: &[char]) -> (host: Vec<char>)
    ensures
        host@ == host_in(authority@),
{
    let end = authority.len();
    let start: usize = match text::find_last(authority, '@') {
        Some(i) => i + 1,
        None => 0,
    };
    let server = slice_subrange(authority, start, end);
    assert(server@ =~= text::after_last(authority@, '@'));
    let close = text::find_first(server, ']');
    proof {
        text::first_index_finds(server@, ']');
    }
    if close < server.len() && server[0] == '[' {
        assert(server@[close as int] == ']');
        let host = slice_subrange(server, 0, close + 1);
        assert(host@ =~= host_in(authority@));
        return slice_to_vec(host);
    }
    let host = slice_subrange(server, 0, text::find_first(server, ':'));
    assert(host@ =~= text::before_first(server@, ':'));
    slice_to_vec(host)
}

/// Extract host from a URL string, falling back to "unknown".
pub fn extract_host(url: &str) -> (host: String)
    ensures
        host@ == host_of(url@),
{
    let kept = text::to_chars(naming::strip_url_query_and_fragment(url));
    let count = kept.len();
    let slashes = text::find_slashes(kept.as_slice());
    if slashes < count {
        let rest = slice_subrange(kept.as_slice(), slashes + 2, count);
        assert(rest@ =~= kept@.skip(slashes + 2));
        let authority = slice_subrange(rest, 0, text::find_first(rest, '/'));
        assert(authority@ =~= text::before_first(rest@, '/'));
        let host = find_host(authority);
        if host.len() > 0 {
            return text::from_chars(host.as_slice());
        }
    }
    "unknown".to_string()
}

/// No host is without a name, whatever the URL.
pub proof fn hosts_have_names(url: Seq<char>)
    ensures
        host_of(url).len() > 0,
{
    reveal_strlit("unknown");
}

/// What a quantity comes to over all results.
pub open spec fn total(results: Seq<ResultView>, quantity: spec_fn(ResultView) -> nat) -> nat
    decreases results.len(),
{
    if results.len() == 0 {
        0
    } else {
        total(results.drop_last(), quantity) + quantity(results.last())
    }
}

/// One for a success.
pub open spec fn success() -> spec_fn(ResultView) -> nat {
    |result: ResultView|
        if result.outcome is Success {
            1nat
        } else {
            0nat
        }
}

/// One for a failure.
pub open spec fn failure() -> spec_fn(ResultView) -> nat {
    |result: ResultView|
        if result.outcome is Failure {
            1nat
        } else {
            0nat
        }
}

/// The number of bytes downloaded.
pub open spec fn size() -> spec_fn(ResultView) -> nat {
    |result: ResultView|
        match result.outcome {
            OutcomeView::Success { size_bytes, .. } => size_bytes as nat,
            OutcomeView::Failure { .. } => 0nat,
        }
}

/// The time that a download took.
pub open spec fn elapsed_of(result: ResultView) -> Duration {
    match result.outcome {
        OutcomeView::Success { elapsed, .. } => elapsed,
        OutcomeView::Failure { elapsed, .. } => elapsed,
    }
}

/// The results of one host, in order.
pub open spec fn of_host(results: Seq<ResultView>, host: Seq<char>) -> Seq<ResultView>
    decreases results.len(),
{
    if results.len() == 0 {
        results
    } else {
        let rest = of_host(results.drop_last(), host);
        if host_of(results.last().url) == host {
            rest.push(results.last())
        } else {
            rest
        }
    }
}

/// The hosts of the results, each once, in the order in which they first occur.
pub open spec fn hosts_in(results: Seq<ResultView>) -> Seq<Seq<char>>
    decreases results.len(),
{
    if results.len() == 0 {
        Seq::empty()
    } else {
        let rest = hosts_in(results.drop_last());
        let host = host_of(results.last().url);
        if rest.contains(host) {
            rest
        } else {
            rest.push(host)
        }
    }
}

/// Whether `stats` sums up these results.
pub open spec fn sums_up(stats: HostStats, results: Seq<ResultView>) -> bool {
    &&& stats.requests == results.len()
    &&& stats.successful == total(results, success())
    &&& stats.failed == total(results, failure())
    &&& stats.total_bytes == total(results, size())
    &&& stats.elapsed@ == results.map_values(|result: ResultView| elapsed_of(result))
}

/// Whether `summary` is the compact form of a result.
pub open spec fn is_compact(summary: ResultSummary, result: ResultView) -> bool {
    &&& summary.url@ == result.url
    &&& summary.elapsed == elapsed_of(result)
    &&& match result.outcome {
        OutcomeView::Success { size_bytes, .. } => {
            &&& summary.success
            &&& summary.size_bytes == Some(size_bytes)
            &&& summary.error is None
        },
        OutcomeView::Failure { error, .. } => {
            &&& !summary.success
            &&& summary.size_bytes is None
            &&& text::optional_text(summary.error) == Some(types::error_text(error))
        },
    }
}

/// Results, with their texts as rows of characters.
pub open spec fn result_views(results: Seq<DownloadResult>) -> Seq<ResultView> {
    results.map_values(|result: DownloadResult| result@)
}

proof fn total_grows(results: Seq<ResultView>, quantity: spec_fn(ResultView) -> nat, i: int)
    requires
        0 <= i <= results.len(),
    ensures
        total(results.take(i), quantity) <= total(results, quantity),
    decreases results.len(),
{
    if i == results.len() {
        assert(results.take(i) =~= results);
    } else {
        total_grows(results.drop_last(), quantity, i);
        assert(results.drop_last().take(i) =~= results.take(i));
    }
}

proof fn total_of_host_is_less(
    results: Seq<ResultView>,
    quantity: spec_fn(ResultView) -> nat,
    host: Seq<char>,
)
    ensures
        total(of_host(results, host), quantity) <= total(results, quantity),
        of_host(results, host).len() <= results.len(),
    decreases results.len(),
{
    if results.len() > 0 {
        total_of_host_is_less(results.drop_last(), quantity, host);
        if host_of(results.last().url) == host {
            assert(of_host(results, host).drop_last() =~= of_host(results.drop_last(), host));
        }
    }
}

/// Every result is a success or a failure.
pub proof fn successes_and_failures(results: Seq<ResultView>)
    ensures
        total(results, success()) + total(results, failure()) == results.len(),
    decreases results.len(),
{
    if results.len() > 0 {
        successes_and_failures(results.drop_last());
    }
}

proof fn hosts_are_distinct(results: Seq<ResultView>)
    ensures
        forall|i: int, j: int|
            0 <= i < j < hosts_in(results).len() ==> #[trigger] hosts_in(results)[i]
                != #[trigger] hosts_in(results)[j],
        hosts_in(results).len() <= results.len(),
    decreases results.len(),
{
    if results.len() > 0 {
        hosts_are_distinct(results.drop_last());
    }
}

proof fn unlisted_host_has_no_results(results: Seq<ResultView>, host: Seq<char>)
    requires
        !hosts_in(results).contains(host),
    ensures
        of_host(results, host).len() == 0,
    decreases results.len(),
{
    if results.len() > 0 {
        let rest = hosts_in(results.drop_last());
        let last = host_of(results.last().url);
        if rest.contains(host) {
            let k = choose|k: int| 0 <= k < rest.len() && rest[k] == host;
            assert(hosts_in(results)[k] == host);
        }
        if last == host {
            if rest.contains(last) {
                assert(hosts_in(results).contains(host));
            } else {
                assert(hosts_in(results)[rest.len() as int] == host);
            }
        }
        unlisted_host_has_no_results(results.drop_last(), host);
    }
}

/// Whether `stats` lists the hosts of these results, each with what its results come to.
pub open spec fn lists_hosts(stats: Seq<(String, HostStats)>, results: Seq<ResultView>) -> bool {
    &&& stats.len() == hosts_in(results).len()
    &&& forall|i: int|
        0 <= i < stats.len() ==> {
            &&& (#[trigger] stats[i]).0@ == hosts_in(results)[i]
            &&& sums_up(stats[i].1, of_host(results, hosts_in(results)[i]))
        }
}

/// Adds one more result to what its host comes to.
fn record_host(stats: &mut Vec<(String, HostStats)>, result: &DownloadResult, Ghost(seen): Ghost<
    Seq<ResultView>,
>)
    requires
        lists_hosts(old(stats)@, seen),
        seen.len() < usize::MAX,
        total(seen.push(result@), size()) <= u64::MAX,
    ensures
        lists_hosts(final(stats)@, seen.push(result@)),
{
    let host = extract_host(result.url.as_str());
    let ghost more = seen.push(result@);
    let ghost before = stats@;
    proof {
        assert(more.drop_last() =~= seen);
        hosts_are_distinct(seen);
        total_of_host_is_less(more, size(), host@);
        total_of_host_is_less(seen, size(), host@);
        successes_and_failures(of_host(seen, host@));
        let own = of_host(more, host@);
        assert(own.drop_last() =~= of_host(seen, host@));
        assert(own.map_values(|r: ResultView| elapsed_of(r)) =~= of_host(seen, host@).map_values(
            |r: ResultView| elapsed_of(r),
        ).push(elapsed_of(result@)));
    }
    let (success, size_bytes, elapsed) = match &result.outcome {
        DownloadOutcome::Success { size_bytes, elapsed, .. } => (true, *size_bytes, *elapsed),
        DownloadOutcome::Failure { elapsed, .. } => (false, 0u64, *elapsed),
    };
    let mut i: usize = 0;
    while i < stats.len()
        invariant
            stats@ == before,
            lists_hosts(before, seen),
            i <= before.len(),
            forall|j: int| 0 <= j < i ==> (#[trigger] before[j]).0@ != host@,
        ensures
            stats@ == before,
            i <= before.len(),
            forall|j: int| 0 <= j < i ==> (#[trigger] before[j]).0@ != host@,
            i < before.len() ==> before[i as int].0@ == host@,
        decreases before.len() - i,
    {
        if text::equal(stats[i].0.as_str(), host.as_str()) {
            break;
        }
        i += 1;
    }
    if i < stats.len() {
        assert(hosts_in(seen)[i as int] == host@);
        assert(sums_up(before[i as int].1, of_host(seen, host@)));
        let requests = stats[i].1.requests;
        let successful = stats[i].1.successful;
        let failed = stats[i].1.failed;
        let bytes = stats[i].1.total_bytes;
        stats[i].1.requests = requests + 1;
        if success {
            stats[i].1.successful = successful + 1;
        } else {
            stats[i].1.failed = failed + 1;
        }
        stats[i].1.total_bytes = bytes + size_bytes;
        stats[i].1.elapsed.push(elapsed);
        proof {
            assert(hosts_in(more) =~= hosts_in(seen));
            assert(sums_up(stats@[i as int].1, of_host(more, host@)));
            assert forall|j: int| 0 <= j < stats@.len() implies {
                &&& (#[trigger] stats@[j]).0@ == hosts_in(more)[j]
                &&& sums_up(stats@[j].1, of_host(more, hosts_in(more)[j]))
            } by {
                assert(before[j].0@ == hosts_in(seen)[j]);
                if j != i {
                    assert(stats@[j] == before[j]);
                    assert(hosts_in(seen)[j] != host@) by {
                        if j < i {
                            assert(hosts_in(seen)[j] != hosts_in(seen)[i as int]);
                        } else {
                            assert(hosts_in(seen)[i as int] != hosts_in(seen)[j]);
                        }
                    }
                }
            }
        }
    } else {
        proof {
            assert(!hosts_in(seen).contains(host@)) by {
                if hosts_in(seen).contains(host@) {
                    let k = choose|k: int|
                        0 <= k < hosts_in(seen).len() && hosts_in(seen)[k] == host@;
                    assert(before[k].0@ == host@);
                }
            }
            unlisted_host_has_no_results(seen, host@);
        }
        let mut times: Vec<Duration> = Vec::new();
        times.push(elapsed);
        let own = HostStats {
            requests: 1,
            successful: if success {
                1
            } else {
                0
            },
            failed: if success {
                0
            } else {
                1
            },
            total_bytes: size_bytes,
            elapsed: times,
        };
        proof {
            assert(of_host(seen, host@) =~= Seq::empty());
            assert(own.elapsed@ =~= of_host(more, host@).map_values(
                |r: ResultView| elapsed_of(r),
            ));
            assert(sums_up(own, of_host(more, host@)));
        }
        stats.push((host, own));
        proof {
            assert forall|j: int| 0 <= j < stats@.len() implies {
                &&& (#[trigger] stats@[j]).0@ == hosts_in(more)[j]
                &&& sums_up(stats@[j].1, of_host(more, hosts_in(more)[j]))
            } by {
                if j < before.len() {
                    assert(before[j].0@ == hosts_in(seen)[j]);
                    assert(stats@[j] == before[j]);
                }
            }
        }
    }
}

fn compact(result: &DownloadResult) -> (summary: ResultSummary)
    ensures
        is_compact(summary, result@),
{
    match &result.outcome {
        DownloadOutcome::Success { size_bytes, elapsed, .. } => ResultSummary {
            url: result.url.clone(),
            success: true,
            size_bytes: Some(*size_bytes),
            elapsed: *elapsed,
            error: None,
        },
        DownloadOutcome::Failure { error, elapsed, .. } => ResultSummary {
            url: result.url.clone(),
            success: false,
            size_bytes: None,
            elapsed: *elapsed,
            error: Some(error.to_string()),
        },
    }
}

/// The number of bytes downloaded in all, where that is a number of 64 bits.
pub fn total_size(results: &[DownloadResult]) -> (sum: Option<u64>)
    ensures
        match sum {
            Some(n) => n == total(result_views(results@), size()),
            None => total(result_views(results@), size()) > u64::MAX,
        },
{
    let ghost views = result_views(results@);
    let mut sum: u64 = 0;
    let mut i: usize = 0;
    while i < results.len()
        invariant
            i <= results@.len(),
            views == result_views(results@),
            sum == total(views.take(i as int), size()),
        decreases results@.len() - i,
    {
        proof {
            assert(views.take(i + 1).drop_last() =~= views.take(i as int));
            total_grows(views, size(), i + 1);
        }
        let bytes: u64 = match &results[i].outcome {
            DownloadOutcome::Success { size_bytes, .. } => *size_bytes,
            DownloadOutcome::Failure { .. } => 0,
        };
        assert(bytes == (size())(views[i as int]));
        sum = match sum.checked_add(bytes) {
            Some(n) => n,
            None => {
                return None;
            },
        };
        i += 1;
    }
    assert(views.take(i as int) =~= views);
    Some(sum)
}

/// Whether `summary` sums up these results.
pub open spec fn sums_up_batch(summary: BatchSummary, results: Seq<ResultView>) -> bool {
    &&& summary.successful == total(results, success())
    &&& summary.failed == total(results, failure())
    &&& summary.total_bytes == total(results, size())
    &&& lists_hosts(summary.per_host_stats@, results)
    &&& summary.results@.len() == results.len()
    &&& forall|i: int|
        0 <= i < results.len() ==> is_compact(#[trigger] summary.results@[i], results[i])
}

/// Sums a batch up, where its results come to a number of bytes that 64 bits can hold.
pub fn summarize_batch(
    config: &Config,
    results: &[DownloadResult],
    total_urls: usize,
    unique_urls: usize,
    batch_elapsed: Duration,
) -> (summary: BatchSummary)
    requires
        total(result_views(results@), size()) <= u64::MAX,
    ensures
        ({
            &&& summary.config == *config
            &&& summary.total_urls == total_urls
            &&& summary.unique_urls == unique_urls
            &&& summary.total_elapsed == batch_elapsed
            &&& sums_up_batch(summary, result_views(results@))
        }),
{
    let ghost views = result_views(results@);
    let mut successful: usize = 0;
    let mut failed: usize = 0;
    let mut total_bytes: u64 = 0;
    let mut per_host_stats: Vec<(String, HostStats)> = Vec::new();
    let mut compacted: Vec<ResultSummary> = Vec::new();
    let mut i: usize = 0;
    assert(views.take(0) =~= Seq::empty());
    while i < results.len()
        invariant
            i <= results@.len(),
            views == result_views(results@),
            total(views, size()) <= u64::MAX,
            successful == total(views.take(i as int), success()),
            failed == total(views.take(i as int), failure()),
            total_bytes == total(views.take(i as int), size()),
            successful + failed == i,
            lists_hosts(per_host_stats@, views.take(i as int)),
            compacted@.len() == i,
            forall|j: int| 0 <= j < i ==> is_compact(#[trigger] compacted@[j], views[j]),
        decreases results@.len() - i,
    {
        proof {
            assert(views.take(i + 1).drop_last() =~= views.take(i as int));
            assert(views.take(i + 1) =~= views.take(i as int).push(views[i as int]));
            total_grows(views, size(), i + 1);
        }
        let result = &results[i];
        assert(result@ == views[i as int]);
        match &result.outcome {
            DownloadOutcome::Success { size_bytes, .. } => {
                successful += 1;
                total_bytes += *size_bytes;
            },
            DownloadOutcome::Failure { .. } => {
                failed += 1;
            },
        }
        record_host(&mut per_host_stats, result, Ghost(views.take(i as int)));
        compacted.push(compact(result));
        i += 1;
    }
    assert(views.take(i as int) =~= views);
    BatchSummary {
        config: config.clone(),
        total_urls,
        unique_urls,
        successful,
        failed,
        total_bytes,
        total_elapsed: batch_elapsed,
        per_host_stats,
        results: compacted,
    }
}

/// What a quantity comes to over the results of these hosts.
pub open spec fn total_over_hosts(
    hosts: Seq<Seq<char>>,
    results: Seq<ResultView>,
    quantity: spec_fn(ResultView) -> nat,
) -> nat
    decreases hosts.len(),
{
    if hosts.len() == 0 {
        0
    } else {
        total_over_hosts(hosts.drop_last(), results, quantity) + total(
            of_host(results, hosts.last()),
            quantity,
        )
    }
}

/// One more result counts for its own host alone.
proof fn one_more_result(
    hosts: Seq<Seq<char>>,
    results: Seq<ResultView>,
    quantity: spec_fn(ResultView) -> nat,
)
    requires
        results.len() > 0,
        forall|i: int, j: int| 0 <= i < j < hosts.len() ==> hosts[i] != hosts[j],
    ensures
        total_over_hosts(hosts, results, quantity) == total_over_hosts(
            hosts,
            results.drop_last(),
            quantity,
        ) + if hosts.contains(host_of(results.last().url)) {
            quantity(results.last())
        } else {
            0
        },
    decreases hosts.len(),
{
    let host = host_of(results.last().url);
    if hosts.len() > 0 {
        let fewer = hosts.drop_last();
        one_more_result(fewer, results, quantity);
        let own = of_host(results, hosts.last());
        if hosts.last() == host {
            assert(own.drop_last() =~= of_host(results.drop_last(), host));
            assert(hosts[hosts.len() - 1] == host);
            assert(!fewer.contains(host)) by {
                if fewer.contains(host) {
                    let k = choose|k: int| 0 <= k < fewer.len() && fewer[k] == host;
                    assert(hosts[k] != hosts[hosts.len() - 1]);
                }
            }
        } else if hosts.contains(host) {
            let k = choose|k: int| 0 <= k < hosts.len() && hosts[k] == host;
            assert(fewer[k] == host);
        } else if fewer.contains(host) {
            let k = choose|k: int| 0 <= k < fewer.len() && fewer[k] == host;
            assert(hosts[k] == host);
        }
    }
}

/// The hosts together come to what the batch comes to: in requests, successes, failures,
/// bytes, or any other quantity.
pub proof fn hosts_come_to_the_total(
    results: Seq<ResultView>,
    quantity: spec_fn(ResultView) -> nat,
)
    ensures
        total_over_hosts(hosts_in(results), results, quantity) == total(results, quantity),
    decreases results.len(),
{
    if results.len() > 0 {
        let fewer = results.drop_last();
        hosts_come_to_the_total(fewer, quantity);
        hosts_are_distinct(results);
        hosts_are_distinct(fewer);
        let host = host_of(results.last().url);
        let rest = hosts_in(fewer);
        one_more_result(rest, results, quantity);
        if !rest.contains(host) {
            unlisted_host_has_no_results(fewer, host);
            assert(hosts_in(results).drop_last() =~= rest);
            let own = of_host(results, host);
            assert(own.drop_last() =~= Seq::empty());
            assert(own.last() == results.last());
            assert(total(own.drop_last(), quantity) == 0);
            assert(total(own, quantity) == quantity(results.last()));
        }
    }
}

/// Whether a text holds no character that ends the part of a URL which names the server.
pub open spec fn is_server_part(text: Seq<char>) -> bool {
    !text.contains('/') && !text.contains('?') && !text.contains('#')
}

proof fn authority_is_found(scheme: Seq<char>, authority: Seq<char>, rest: Seq<char>)
    requires
        is_server_part(scheme),
        is_server_part(authority),
        rest.len() > 0 ==> rest[0] == '/' || rest[0] == '?' || rest[0] == '#',
    ensures
        authority_of(scheme + seq![':', '/', '/'] + authority + rest) == Some(authority),
{
    let named = scheme + seq![':'];
    let start = scheme + seq![':', '/', '/'] + authority;
    let url = start + rest;
    assert forall|j: int| 0 <= j < start.len() implies start[j] != '?' && start[j] != '#' by {
        if j < scheme.len() {
            assert(scheme.contains(scheme[j]));
        } else if j >= scheme.len() + 3 {
            assert(authority.contains(authority[j - scheme.len() - 3]));
        }
    }
    text::cutting_passes_over_what_does_not_matter(start, rest, '?');
    let cut = text::before_first(rest, '?');
    text::cutting_passes_over_what_does_not_matter(start, cut, '#');
    let tail = text::before_first(cut, '#');
    let kept = naming::without_query_and_fragment(url);
    assert(kept == start + tail);
    text::first_index_finds(rest, '?');
    text::first_index_finds(cut, '#');
    if tail.len() > 0 {
        assert(cut[0] == rest[0]);
        assert(tail[0] == rest[0]);
        assert(tail[0] == '/');
    }
    assert forall|j: int| 0 <= j < named.len() implies named[j] != '/' by {
        if j < scheme.len() {
            assert(scheme.contains(scheme[j]));
        }
    }
    assert(named + seq!['/', '/'] + (authority + tail) =~= kept);
    text::first_slashes_are_found(named, authority + tail);
    let behind = kept.skip(named.len() as int + 2);
    assert(behind =~= authority + tail);
    text::cutting_passes_over_what_does_not_matter(authority, tail, '/');
    text::first_index_finds(tail, '/');
    if tail.len() > 0 {
        text::first_index_is(tail, '/', 0);
    }
    assert(text::before_first(tail, '/') =~= Seq::<char>::empty());
    assert(authority + Seq::<char>::empty() =~= authority);
}

/// The host of a URL is what stands between its scheme, with the user information that may
/// follow, and its port, path, query or fragment. A host in brackets keeps them, with the
/// colons inside.
pub proof fn hosts_are_found(
    scheme: Seq<char>,
    user: Seq<char>,
    host: Seq<char>,
    port: Seq<char>,
    rest: Seq<char>,
)
    requires
        is_server_part(scheme),
        is_server_part(user),
        is_server_part(host),
        is_server_part(port),
        !host.contains('@'),
        !port.contains('@'),
        user.len() > 0 ==> user.last() == '@',
        port.len() > 0 ==> port[0] == ':',
        rest.len() > 0 ==> rest[0] == '/' || rest[0] == '?' || rest[0] == '#',
        host.len() > 0,
        if host[0] == '[' {
            host.last() == ']' && forall|i: int| 0 <= i < host.len() - 1 ==> host[i] != ']'
        } else {
            !host.contains(':')
        },
    ensures
        host_of(scheme + seq![':', '/', '/'] + (user + host + port) + rest) == host,
{
    let authority = user + host + port;
    let server = host + port;
    assert forall|j: int| 0 <= j < authority.len() implies authority[j] != '/' && authority[j] != '?'
        && authority[j] != '#' by {
        if j < user.len() {
            assert(user.contains(user[j]));
        } else if j < user.len() + host.len() {
            assert(host.contains(host[j - user.len()]));
        } else {
            assert(port.contains(port[j - user.len() - host.len()]));
        }
    }
    authority_is_found(scheme, authority, rest);
    assert forall|j: int| 0 <= j < server.len() implies server[j] != '@' by {
        if j < host.len() {
            assert(host.contains(host[j]));
        } else {
            assert(port.contains(port[j - host.len()]));
        }
    }
    if user.len() > 0 {
        text::text_is_cut_behind_the_last(user.drop_last(), '@', server);
        assert(user.drop_last() + seq!['@'] + server =~= authority);
    } else {
        text::text_is_cut_behind_the_last(Seq::empty(), '@', server);
        assert(authority =~= server);
    }
    assert(text::after_last(authority, '@') == server);
    assert(server[0] == host[0]);
    if host[0] == '[' {
        let close = host.len() - 1;
        assert(server[close] == ']');
        text::first_index_is(server, ']', close);
        assert(server.take(close + 1) =~= host);
    } else {
        text::cutting_passes_over_what_does_not_matter(host, port, ':');
        text::first_index_finds(port, ':');
        if port.len() > 0 {
            text::first_index_is(port, ':', 0);
        }
        assert(text::before_first(port, ':') =~= Seq::<char>::empty());
        assert(host + Seq::<char>::empty() =~= host);
    }
}

/// A text without two slashes, and one with nothing between them and what follows, has the
/// host `unknown`.
pub proof fn urls_without_a_host_are_unknown(text: Seq<char>, scheme: Seq<char>, rest: Seq<char>)
    requires
        !text.contains('/'),
        is_server_part(scheme),
        rest.len() > 0 ==> rest[0] == '/' || rest[0] == '?' || rest[0] == '#',
    ensures
        host_of(text) == seq!['u', 'n', 'k', 'n', 'o', 'w', 'n'],
        host_of(scheme + seq![':', '/', '/'] + rest) == seq!['u', 'n', 'k', 'n', 'o', 'w', 'n'],
{
    reveal_strlit("unknown");
    assert("unknown"@ =~= seq!['u', 'n', 'k', 'n', 'o', 'w', 'n']);
    let kept = naming::without_query_and_fragment(text);
    text::first_index_finds(text, '?');
    text::first_index_finds(text::before_first(text, '?'), '#');
    assert forall|j: int| 0 <= j < kept.len() implies kept[j] != '/' by {
        assert(kept[j] == text[j]);
        assert(text.contains(text[j]));
    }
    text::first_slashes_are_found(kept, Seq::empty());
    authority_is_found(scheme, Seq::empty(), rest);
    assert(scheme + seq![':', '/', '/'] + Seq::<char>::empty() =~= scheme + seq![':', '/', '/']);
    text::text_is_cut_behind_the_last(Seq::empty(), '@', Seq::empty());
    text::text_is_cut_at_the_first(Seq::empty(), ':', Seq::empty());
}

/// One more result adds itself to what the results come to: one to the successes or to the
/// failures, and its bytes, where it has any, to the bytes. No results come to nothing.
pub proof fn every_result_is_counted_once(results: Seq<ResultView>, result: ResultView)
    ensures
        total(Seq::empty(), success()) == 0,
        total(Seq::empty(), failure()) == 0,
        total(Seq::empty(), size()) == 0,
        match result.outcome {
            OutcomeView::Success { size_bytes, .. } => {
                &&& total(results.push(result), success()) == total(results, success()) + 1
                &&& total(results.push(result), failure()) == total(results, failure())
                &&& total(results.push(result), size()) == total(results, size()) + size_bytes
            },
            OutcomeView::Failure { .. } => {
                &&& total(results.push(result), success()) == total(results, success())
                &&& total(results.push(result), failure()) == total(results, failure()) + 1
                &&& total(results.push(result), size()) == total(results, size())
            },
        },
{
    assert(results.push(result).drop_last() =~= results);
}

/// One more result goes to its own host, behind the others of that host, and to no other. A
/// host that was not there yet is put behind the others.
pub proof fn results_go_to_their_own_host(
    results: Seq<ResultView>,
    result: ResultView,
    host: Seq<char>,
)
    ensures
        of_host(results.push(result), host) == if host_of(result.url) == host {
            of_host(results, host).push(result)
        } else {
            of_host(results, host)
        },
        hosts_in(results.push(result)) == if hosts_in(results).contains(host_of(result.url)) {
            hosts_in(results)
        } else {
            hosts_in(results).push(host_of(result.url))
        },
        of_host(Seq::empty(), host).len() == 0,
        hosts_in(Seq::empty()).len() == 0,
{
    assert(results.push(result).drop_last() =~= results);
}

/// Every host of the results is listed once, and no other is.
pub proof fn every_host_is_listed_once(results: Seq<ResultView>)
    ensures
        forall|i: int|
            0 <= i < results.len() ==> hosts_in(results).contains(
                host_of((#[trigger] results[i]).url),
            ),
        forall|i: int, j: int|
            0 <= i < j < hosts_in(results).len() ==> #[trigger] hosts_in(results)[i]
                != #[trigger] hosts_in(results)[j],
        forall|k: int|
            0 <= k < hosts_in(results).len() ==> exists|i: int|
                0 <= i < results.len() && host_of((#[trigger] results[i]).url)
                    == #[trigger] hosts_in(results)[k],
    decreases results.len(),
{
    hosts_are_distinct(results);
    if results.len() > 0 {
        let fewer = results.drop_last();
        every_host_is_listed_once(fewer);
        let rest = hosts_in(fewer);
        let all = hosts_in(results);
        let last = results.len() - 1;
        assert forall|i: int| 0 <= i < results.len() implies all.contains(
            host_of((#[trigger] results[i]).url),
        ) by {
            let host = host_of(results[i].url);
            if i < last {
                assert(fewer[i] == results[i]);
                assert(rest.contains(host));
            }
            if rest.contains(host) {
                let k = choose|k: int| 0 <= k < rest.len() && rest[k] == host;
                assert(all[k] == host);
            } else {
                assert(all[rest.len() as int] == host);
            }
        }
        assert forall|k: int| 0 <= k < all.len() implies exists|i: int|
            0 <= i < results.len() && host_of((#[trigger] results[i]).url) == #[trigger] all[k] by {
            if k < rest.len() {
                assert(all[k] == rest[k]);
                let i = choose|i: int|
                    0 <= i < fewer.len() && host_of((#[trigger] fewer[i]).url) == rest[k];
                assert(results[i] == fewer[i]);
            } else {
                assert(results[last] == results.last());
            }
        }
    }
}

/// What a host comes to are its own requests, with their successes, failures, bytes and
/// times, and successes and failures make up the requests.
pub proof fn host_totals_add_up(stats: HostStats, results: Seq<ResultView>)
    requires
        sums_up(stats, results),
    ensures
        stats.requests == results.len(),
        stats.successful + stats.failed == stats.requests,
        stats.successful == total(results, success()),
        stats.total_bytes == total(results, size()),
        stats.elapsed@.len() == results.len(),
        forall|i: int|
            0 <= i < results.len() ==> #[trigger] stats.elapsed@[i] == match results[i].outcome {
                OutcomeView::Success { elapsed, .. } => elapsed,
                OutcomeView::Failure { elapsed, .. } => elapsed,
            },
{
    successes_and_failures(results);
}

/// A compact result tells whether its download succeeded, with its size, or why not, with
/// the text of its error, and how long it took.
pub proof fn compact_results_tell_what_became_of_them(summary: ResultSummary, result: ResultView)
    requires
        is_compact(summary, result),
    ensures
        summary.url@ == result.url,
        summary.success <==> result.outcome is Success,
        result.outcome matches OutcomeView::Success { size_bytes, elapsed, .. }
            ==> summary.size_bytes == Some(size_bytes) && summary.error is None && summary.elapsed
            == elapsed,
        result.outcome matches OutcomeView::Failure { error, elapsed, .. }
            ==> summary.size_bytes is None && summary.error is Some && summary.error.unwrap()@
            == types::error_text(error) && summary.elapsed == elapsed,
{
}

/// A summary counts every result once, as a success or a failure, and adds up the bytes. It
/// holds each result in its place, and each host once, in the order in which they first
/// occur, with what the results of that host come to.
pub proof fn summaries_add_up(summary: BatchSummary, results: Seq<ResultView>)
    requires
        sums_up_batch(summary, results),
    ensures
        summary.successful + summary.failed == results.len(),
        summary.successful == total(results, success()),
        summary.total_bytes == total(results, size()),
        summary.results@.len() == results.len(),
        forall|i: int|
            0 <= i < results.len() ==> (#[trigger] summary.results@[i]).url@ == results[i].url && (
            summary.results@[i].success <==> results[i].outcome is Success),
        summary.per_host_stats@.len() == hosts_in(results).len(),
        forall|k: int|
            0 <= k < hosts_in(results).len() ==> {
                let stats = #[trigger] summary.per_host_stats@[k];
                let own = of_host(results, hosts_in(results)[k]);
                &&& stats.0@ == hosts_in(results)[k]
                &&& stats.1.requests == own.len()
                &&& stats.1.successful == total(own, success())
                &&& stats.1.failed == total(own, failure())
                &&& stats.1.total_bytes == total(own, size())
                &&& stats.1.elapsed@.len() == own.len()
            },
{
    successes_and_failures(results);
    assert forall|i: int| 0 <= i < results.len() implies (#[trigger] summary.results@[i]).url@
        == results[i].url && (summary.results@[i].success <==> results[i].outcome is Success) by {
        assert(is_compact(summary.results@[i], results[i]));
    }
    assert forall|k: int| 0 <= k < hosts_in(results).len() implies {
        let stats = #[trigger] summary.per_host_stats@[k];
        let own = of_host(results, hosts_in(results)[k]);
        &&& stats.0@ == hosts_in(results)[k]
        &&& stats.1.requests == own.len()
        &&& stats.1.successful == total(own, success())
        &&& stats.1.failed == total(own, failure())
        &&& stats.1.total_bytes == total(own, size())
        &&& stats.1.elapsed@.len() == own.len()
    } by {
        let own = of_host(results, hosts_in(results)[k]);
        assert(sums_up(summary.per_host_stats@[k].1, own));
    }
}

} // verus!
