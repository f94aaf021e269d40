//! A batch of URLs: which of them are downloaded, and which result belongs to which.

use indexmap::IndexMap;
use std::hash::RandomState;

use vstd::hash_map::StringHashMap;
use vstd::prelude::*;

use crate::output::summary;
use crate::text;
use crate::time::Duration;
use crate::types::{DownloadError, DownloadOutcome, DownloadResult, ErrorView, OutcomeView, ResultView};

verus! {

/// `IndexMap` of the `indexmap` crate: a map that keeps its keys in the order in which
/// they were first inserted.
#[verifier::external_type_specification]
#[verifier::external_body]
#[verifier::reject_recursive_types(K)]
#[verifier::reject_recursive_types(V)]
#[verifier::reject_recursive_types(S)]
pub struct ExIndexMap<K, V, S>(IndexMap<K, V, S>);

/// The keys of a map from texts to positions, in order, each with its positions.
pub uninterp spec fn index_entries(map: IndexMap<String, Vec<usize>, RandomState>) -> Seq<
    (Seq<char>, Seq<usize>),
>;

/// The place of the first entry under a key, or the number of entries where there is
/// none.
pub open spec fn entry_place(entries: Seq<(Seq<char>, Seq<usize>)>, key: Seq<char>) -> int
    decreases entries.len(),
{
    if entries.len() == 0 || entries[0].0 == key {
        0
    } else {
        1 + entry_place(entries.drop_first(), key)
    }
}

/// `IndexMap::new` of the `indexmap` crate: an empty map.
#[verifier::external_body]
fn new_index() -> (map: IndexMap<String, Vec<usize>, RandomState>)
    ensures
        index_entries(map) == Seq::<(Seq<char>, Seq<usize>)>::empty(),
{
    IndexMap::new()
}

/// `IndexMap::entry` of the `indexmap` crate with `Entry::or_default`: the value under a
/// key, to be changed in place. A key that is not there yet is put behind the others, with
/// nothing under it.
#[verifier::external_body]
fn entry_or_default(map: &mut IndexMap<String, Vec<usize>, RandomState>, key: String) -> (value:
    &mut Vec<usize>)
    ensures
        ({
            let before = index_entries(*old(map));
            let place = entry_place(before, key@);
            if place < before.len() {
                &&& value@ == before[place].1
                &&& index_entries(*final(map)) == before.update(place, (key@, final(value)@))
            } else {
                &&& value@ == Seq::<usize>::empty()
                &&& index_entries(*final(map)) == before.push((key@, final(value)@))
            }
        }),
{
    map.entry(key).or_default()
}

/// `IndexMap::len` of the `indexmap` crate: the number of keys.
#[verifier::external_body]
fn index_len(map: &IndexMap<String, Vec<usize>, RandomState>) -> (n: usize)
    ensures
        n == index_entries(*map).len(),
{
    map.len()
}

/// `IndexMap::get_index` of the `indexmap` crate: the key and value at a place, where
/// there are so many.
#[verifier::external_body]
fn entry_at(map: &IndexMap<String, Vec<usize>, RandomState>, place: usize) -> (entry: Option<
    (&String, &Vec<usize>),
>)
    ensures
        match entry {
            Some((key, value)) => place < index_entries(*map).len() && index_entries(
                *map,
            )[place as int] == (key@, value@),
            None => place >= index_entries(*map).len(),
        },
{
    map.get_index(place)
}

/// One URL to download, with the position at which it first occurs in its batch.
#[derive(Debug)]
pub struct Task {
    pub url: String,
    pub first_index: usize,
}

/// What is downloaded for a batch: each URL once, in the order and with the position in
/// which they first occur.
pub open spec fn tasks_of(urls: Seq<Seq<char>>) -> Seq<(Seq<char>, int)>
    decreases urls.len(),
{
    if urls.len() == 0 {
        Seq::empty()
    } else {
        let earlier = tasks_of(urls.drop_last());
        if has_task(earlier, urls.last()) {
            earlier
        } else {
            earlier.push((urls.last(), urls.len() - 1))
        }
    }
}

/// Whether a URL is among those to download.
pub open spec fn has_task(tasks: Seq<(Seq<char>, int)>, url: Seq<char>) -> bool {
    exists|k: int| 0 <= k < tasks.len() && (#[trigger] tasks[k]).0 == url
}

/// Tasks, with their URLs as rows of characters.
pub open spec fn task_views(tasks: Seq<Task>) -> Seq<(Seq<char>, int)> {
    tasks.map_values(|task: Task| (task.url@, task.first_index as int))
}

/// URLs as rows of characters.
pub open spec fn url_views(urls: Seq<&str>) -> Seq<Seq<char>> {
    urls.map_values(|url: &str| url@)
}

/// Whether the entries of a map stand for these tasks.
spec fn stand_for(entries: Seq<(Seq<char>, Seq<usize>)>, tasks: Seq<(Seq<char>, int)>) -> bool {
    &&& entries.len() == tasks.len()
    &&& forall|k: int|
        0 <= k < entries.len() ==> {
            &&& (#[trigger] entries[k]).0 == tasks[k].0
            &&& entries[k].1.len() > 0
            &&& entries[k].1[0] == tasks[k].1
        }
}

proof fn entry_place_finds(entries: Seq<(Seq<char>, Seq<usize>)>, key: Seq<char>)
    ensures
        0 <= entry_place(entries, key) <= entries.len(),
        entry_place(entries, key) < entries.len() ==> entries[entry_place(entries, key)].0 == key,
        forall|k: int| 0 <= k < entry_place(entries, key) ==> (#[trigger] entries[k]).0 != key,
    decreases entries.len(),
{
    if entries.len() > 0 && entries[0].0 != key {
        entry_place_finds(entries.drop_first(), key);
        assert forall|k: int| 0 <= k < entry_place(entries, key) implies (#[trigger] entries[k]).0
            != key by {
            if k > 0 {
                assert(entries.drop_first()[k - 1] == entries[k]);
            }
        }
    }
}

/// Which URLs of a batch are downloaded: each once, however often it occurs.
pub fn plan_tasks(urls: &[&str]) -> (tasks: Vec<Task>)
    ensures
        task_views(tasks@) == tasks_of(url_views(urls@)),
{
    let ghost views = url_views(urls@);
    let mut dedup = new_index();
    let mut i: usize = 0;
    while i < urls.len()
        invariant
            i <= urls@.len(),
            views == url_views(urls@),
            stand_for(index_entries(dedup), tasks_of(views.take(i as int))),
        decreases urls@.len() - i,
    {
        let ghost before = index_entries(dedup);
        let ghost earlier = tasks_of(views.take(i as int));
        proof {
            entry_place_finds(before, views[i as int]);
            assert(views.take(i + 1).drop_last() =~= views.take(i as int));
            let place = entry_place(before, views[i as int]);
            if place < before.len() {
                assert(earlier[place].0 == views[i as int]);
            } else if has_task(earlier, views[i as int]) {
                let k = choose|k: int|
                    0 <= k < earlier.len() && (#[trigger] earlier[k]).0 == views[i as int];
                assert(before[k].0 == views[i as int]);
            }
        }
        let positions = entry_or_default(&mut dedup, urls[i].to_string());
        positions.push(i);
        i += 1;
    }
    assert(views.take(i as int) =~= views);
    let mut tasks: Vec<Task> = Vec::new();
    let count = index_len(&dedup);
    let mut k: usize = 0;
    while k < count
        invariant
            k <= count,
            count == index_entries(dedup).len(),
            stand_for(index_entries(dedup), tasks_of(views)),
            task_views(tasks@) == tasks_of(views).take(k as int),
        decreases count - k,
    {
        let ghost entry = index_entries(dedup)[k as int];
        assert(entry.0 == tasks_of(views)[k as int].0);
        if let Some((url, positions)) = entry_at(&dedup, k) {
            assert(entry == (url@, positions@));
            let ghost done = task_views(tasks@);
            tasks.push(Task { url: url.clone(), first_index: positions[0] });
            assert(task_views(tasks@) =~= done.push(tasks_of(views)[k as int]));
        }
        k += 1;
        assert(task_views(tasks@) =~= tasks_of(views).take(k as int));
    }
    assert(tasks_of(views).take(k as int) =~= tasks_of(views));
    tasks
}

/// Each URL of a batch is downloaded exactly once, and what is downloaded carries the
/// position at which its URL first occurs.
pub proof fn each_url_has_one_task(urls: Seq<Seq<char>>)
    ensures
        forall|j: int| 0 <= j < urls.len() ==> has_task(tasks_of(urls), #[trigger] urls[j]),
        forall|k: int, l: int|
            0 <= k < l < tasks_of(urls).len() ==> (#[trigger] tasks_of(urls)[k]).0 != (
            #[trigger] tasks_of(urls)[l]).0,
        forall|k: int|
            0 <= k < tasks_of(urls).len() ==> {
                let (url, first) = #[trigger] tasks_of(urls)[k];
                &&& 0 <= first < urls.len()
                &&& urls[first] == url
                &&& forall|j: int| 0 <= j < first ==> urls[j] != url
            },
        tasks_of(urls).len() <= urls.len(),
    decreases urls.len(),
{
    if urls.len() > 0 {
        let fewer = urls.drop_last();
        each_url_has_one_task(fewer);
        let earlier = tasks_of(fewer);
        let all = tasks_of(urls);
        let last = urls.len() - 1;
        assert forall|j: int| 0 <= j < urls.len() implies has_task(all, #[trigger] urls[j]) by {
            if j < last {
                assert(has_task(earlier, fewer[j]));
                let k = choose|k: int| 0 <= k < earlier.len() && (#[trigger] earlier[k]).0 == urls[j];
                assert(all[k].0 == urls[j]);
            } else if !has_task(earlier, urls[last]) {
                assert(all[earlier.len() as int].0 == urls[last]);
            }
        }
        assert forall|k: int| 0 <= k < all.len() implies {
            let (url, first) = #[trigger] all[k];
            &&& 0 <= first < urls.len()
            &&& urls[first] == url
            &&& forall|j: int| 0 <= j < first ==> urls[j] != url
        } by {
            if k < earlier.len() {
                let (url, first) = earlier[k];
                assert(all[k] == earlier[k]);
                assert(fewer[first] == url);
                assert forall|j: int| 0 <= j < first implies urls[j] != url by {
                    assert(fewer[j] != url);
                }
            } else {
                assert forall|j: int| 0 <= j < last implies urls[j] != urls[last] by {
                    assert(has_task(earlier, fewer[j]));
                }
            }
        }
        assert forall|k: int, l: int| 0 <= k < l < all.len() implies (#[trigger] all[k]).0 != (
        #[trigger] all[l]).0 by {
            if l < earlier.len() {
                assert(earlier[k].0 != earlier[l].0);
            } else {
                assert(earlier[k].0 == all[k].0);
            }
        }
    }
}

/// The result of a URL that was not downloaded because of `error`.
pub open spec fn not_downloaded(
    url: Seq<char>,
    error: ErrorView,
    elapsed: Duration,
    retries_attempted: u32,
) -> ResultView {
    ResultView { url, outcome: OutcomeView::Failure { error, elapsed, retries_attempted } }
}

/// The result of a URL that was not downloaded because of `error`.
pub fn failed_download(url: String, error: DownloadError, elapsed: Duration, retries_attempted: u32) -> (result:
    DownloadResult)
    ensures
        result@ == not_downloaded(url@, error@, elapsed, retries_attempted),
{
    DownloadResult { url, outcome: DownloadOutcome::Failure { error, elapsed, retries_attempted } }
}

/// What a batch starts with.
#[derive(Debug)]
pub enum BatchStart {
    /// There is nothing to download.
    Finished(Vec<DownloadResult>),
    /// The output directory is to be created, with all its parents.
    CreateDirectory,
}

/// What a batch starts with: one without URLs is finished at once.
pub fn start_batch(urls: &[&str]) -> (start: BatchStart)
    ensures
        match start {
            BatchStart::Finished(results) => urls@.len() == 0 && results@.len() == 0,
            BatchStart::CreateDirectory => urls@.len() > 0,
        },
{
    if urls.len() == 0 {
        BatchStart::Finished(Vec::new())
    } else {
        BatchStart::CreateDirectory
    }
}

/// A batch whose downloads are under way.
pub struct Batch {
    urls: Vec<String>,
    tasks: Vec<Task>,
    results: StringHashMap<DownloadResult>,
    batch_timeout: Option<Duration>,
}

/// A batch: its URLs, the results that have come in, and the time that it may take.
pub struct BatchView {
    pub urls: Seq<Seq<char>>,
    pub results: Map<Seq<char>, ResultView>,
    pub batch_timeout: Option<Duration>,
}

impl View for Batch {
    type V = BatchView;

    closed spec fn view(&self) -> BatchView {
        BatchView {
            urls: self.urls@.map_values(|url: String| url@),
            results: self.results@.map_values(|result: DownloadResult| result@),
            batch_timeout: self.batch_timeout,
        }
    }
}

/// The error of a URL for which no result came in: the batch ran out of time, or the
/// download broke down.
pub open spec fn missing_error(batch_timeout: Option<Duration>) -> ErrorView {
    if batch_timeout is Some {
        ErrorView::Timeout
    } else {
        ErrorView::ConnectionFailed("task panicked"@)
    }
}

/// The result that is reported for a URL of the batch once it has ended after `elapsed`.
pub open spec fn final_result(batch: BatchView, url: Seq<char>, elapsed: Duration) -> ResultView {
    if batch.results.contains_key(url) {
        batch.results[url]
    } else {
        not_downloaded(url, missing_error(batch.batch_timeout), elapsed, 0)
    }
}

/// The results that are reported for a batch, one for each of its URLs, in their order.
pub open spec fn final_results(batch: BatchView, elapsed: Duration) -> Seq<ResultView> {
    batch.urls.map_values(|url: Seq<char>| final_result(batch, url, elapsed))
}

/// Whether `result` says of a URL that the output directory could not be created, which
/// takes no time and is not tried again.
pub open spec fn has_no_directory(result: ResultView, url: Seq<char>, cause: Seq<char>) -> bool {
    &&& result.url == url
    &&& result.outcome matches OutcomeView::Failure { error, elapsed, retries_attempted }
    &&& error == ErrorView::WriteError("failed to create output directory: "@ + cause)
    &&& elapsed@ == 0
    &&& retries_attempted == 0
}

/// The batch after a result has come in.
pub open spec fn taken_in(batch: BatchView, result: ResultView) -> BatchView {
    BatchView { results: batch.results.insert(result.url, result), ..batch }
}

impl BatchView {
    /// Every result is kept under its own URL.
    pub open spec fn wf(self) -> bool {
        forall|url: Seq<char>|
            self.results.contains_key(url) ==> (#[trigger] self.results[url]).url == url
    }
}

impl Batch {
    /// The batch is consistent.
    pub open spec fn wf(&self) -> bool {
        self@.wf()
    }

    /// What is downloaded, with URLs as rows of characters.
    pub closed spec fn planned(&self) -> Seq<(Seq<char>, int)> {
        task_views(self.tasks@)
    }

    /// A batch of these URLs, where `created` tells whether the output directory could be
    /// created. Where it could not, that is the result of every URL.
    pub fn new(urls: &[&str], created: Result<(), String>, batch_timeout: Option<Duration>) -> (batch:
        Result<Batch, Vec<DownloadResult>>)
        ensures
            match (created, batch) {
                (Ok(()), Ok(batch)) => {
                    &&& batch.wf()
                    &&& batch@ == (BatchView {
                        urls: url_views(urls@),
                        results: Map::empty(),
                        batch_timeout,
                    })
                    &&& batch.planned() == tasks_of(url_views(urls@))
                },
                (Err(e), Err(results)) => {
                    &&& results@.len() == urls@.len()
                    &&& forall|i: int|
                        0 <= i < urls@.len() ==> has_no_directory(
                            (#[trigger] results@[i])@,
                            urls@[i]@,
                            e@,
                        )
                },
                _ => false,
            },
    {
        match created {
            Err(e) => {
                let mut results: Vec<DownloadResult> = Vec::new();
                let mut i: usize = 0;
                while i < urls.len()
                    invariant
                        i <= urls@.len(),
                        results@.len() == i,
                        forall|j: int|
                            0 <= j < i ==> has_no_directory(
                                (#[trigger] results@[j])@,
                                urls@[j]@,
                                e@,
                            ),
                    decreases urls@.len() - i,
                {
                    let message = text::join("failed to create output directory: ", e.as_str());
                    results.push(
                        failed_download(
                            urls[i].to_string(),
                            DownloadError::WriteError(message),
                            Duration::zero(),
                            0,
                        ),
                    );
                    i += 1;
                }
                Err(results)
            },
            Ok(()) => {
                let tasks = plan_tasks(urls);
                let mut own: Vec<String> = Vec::new();
                let mut i: usize = 0;
                while i < urls.len()
                    invariant
                        i <= urls@.len(),
                        own@.len() == i,
                        forall|j: int| 0 <= j < i ==> (#[trigger] own@[j])@ == urls@[j]@,
                    decreases urls@.len() - i,
                {
                    own.push(urls[i].to_string());
                    i += 1;
                }
                let batch = Batch { urls: own, tasks, results: StringHashMap::new(), batch_timeout };
                proof {
                    assert(batch@.urls =~= url_views(urls@));
                    assert(batch@.results =~= Map::empty());
                }
                Ok(batch)
            },
        }
    }

    /// What is downloaded: each URL once.
    pub fn tasks(&self) -> (tasks: &Vec<Task>)
        ensures
            task_views(tasks@) == self.planned(),
    {
        &self.tasks
    }

    /// Takes in the result of a download.
    pub fn record(&mut self, result: DownloadResult)
        requires
            old(self).wf(),
        ensures
            final(self).wf(),
            final(self)@ == taken_in(old(self)@, result@),
            final(self).planned() == old(self).planned(),
    {
        let ghost before = self@;
        let key = result.url.clone();
        self.results.insert(key, result);
        proof {
            assert(self@.results =~= before.results.insert(result@.url, result@));
        }
    }

    /// The results of the batch, which has ended after `elapsed`, in the order of its
    /// URLs.
    pub fn finish(&self, elapsed: Duration) -> (results: Vec<DownloadResult>)
        requires
            self.wf(),
        ensures
            summary::result_views(results@) == final_results(self@, elapsed),
    {
        let mut results: Vec<DownloadResult> = Vec::new();
        let mut i: usize = 0;
        while i < self.urls.len()
            invariant
                i <= self.urls@.len(),
                summary::result_views(results@) == final_results(self@, elapsed).take(i as int),
            decreases self.urls@.len() - i,
        {
            let ghost done = summary::result_views(results@);
            let url = &self.urls[i];
            assert(self@.urls[i as int] == url@);
            let result = match self.results.get(url.as_str()) {
                Some(result) => result.clone(),
                None => {
                    let error = if self.batch_timeout.is_some() {
                        DownloadError::Timeout
                    } else {
                        DownloadError::ConnectionFailed("task panicked".to_string())
                    };
                    failed_download(url.clone(), error, elapsed, 0)
                },
            };
            assert(result@ == final_result(self@, url@, elapsed));
            results.push(result);
            assert(summary::result_views(results@) =~= done.push(result@));
            i += 1;
            assert(summary::result_views(results@) =~= final_results(self@, elapsed).take(i as int));
        }
        assert(final_results(self@, elapsed).take(i as int) =~= final_results(self@, elapsed));
        results
    }
}

/// A batch gives one result for each of its URLs, in their order, and equal URLs the same
/// result.
pub proof fn results_follow_the_urls(batch: BatchView, elapsed: Duration)
    requires
        batch.wf(),
    ensures
        final_results(batch, elapsed).len() == batch.urls.len(),
        forall|i: int|
            0 <= i < batch.urls.len() ==> (#[trigger] final_results(batch, elapsed)[i]).url
                == batch.urls[i],
        forall|i: int, j: int|
            0 <= i < batch.urls.len() && 0 <= j < batch.urls.len() && batch.urls[i]
                == batch.urls[j] ==> #[trigger] final_results(batch, elapsed)[i]
                == #[trigger] final_results(batch, elapsed)[j],
{
    assert forall|i: int| 0 <= i < batch.urls.len() implies (#[trigger] final_results(
        batch,
        elapsed,
    )[i]).url == batch.urls[i] by {
        let url = batch.urls[i];
        if batch.results.contains_key(url) {
            assert(batch.results[url].url == url);
        }
    }
}

/// Once every download has given its result, each URL of the batch has the result of its
/// own download, however often it occurs.
pub proof fn downloads_cover_the_batch(batch: BatchView, elapsed: Duration)
    requires
        forall|k: int|
            0 <= k < tasks_of(batch.urls).len() ==> batch.results.contains_key(
                (#[trigger] tasks_of(batch.urls)[k]).0,
            ),
    ensures
        forall|i: int|
            0 <= i < batch.urls.len() ==> #[trigger] final_results(batch, elapsed)[i]
                == batch.results[batch.urls[i]],
{
    each_url_has_one_task(batch.urls);
    assert forall|i: int| 0 <= i < batch.urls.len() implies #[trigger] final_results(
        batch,
        elapsed,
    )[i] == batch.results[batch.urls[i]] by {
        let tasks = tasks_of(batch.urls);
        assert(has_task(tasks, batch.urls[i]));
        let k = choose|k: int| 0 <= k < tasks.len() && (#[trigger] tasks[k]).0 == batch.urls[i];
        assert(batch.results.contains_key(tasks[k].0));
    }
}

/// A result that came in is the one that is reported for its URL, whatever became of the
/// other downloads.
pub proof fn failures_are_isolated(
    batch: BatchView,
    result: ResultView,
    other: ResultView,
    elapsed: Duration,
)
    requires
        result.url != other.url,
    ensures
        ({
            let one = BatchView { results: batch.results.insert(result.url, result), ..batch };
            let both = BatchView { results: one.results.insert(other.url, other), ..batch };
            &&& final_result(one, result.url, elapsed) == result
            &&& final_result(both, result.url, elapsed) == result
        }),
{
}

/// How many results are successes, and how many are failures.
pub fn count_outcomes(results: &[DownloadResult]) -> (counts: (usize, usize))
    ensures
        counts.0 == summary::total(summary::result_views(results@), summary::success()),
        counts.1 == summary::total(summary::result_views(results@), summary::failure()),
        counts.0 + counts.1 == results@.len(),
{
    let ghost views = summary::result_views(results@);
    let mut successful: usize = 0;
    let mut i: usize = 0;
    assert(views.take(0) =~= Seq::empty());
    while i < results.len()
        invariant
            i <= results@.len(),
            views == summary::result_views(results@),
            successful == summary::total(views.take(i as int), summary::success()),
            successful <= i,
        decreases results@.len() - i,
    {
        assert(views.take(i + 1).drop_last() =~= views.take(i as int));
        assert(results@[i as int]@ == views[i as int]);
        if let DownloadOutcome::Success { .. } = &results[i].outcome {
            successful += 1;
        }
        i += 1;
    }
    assert(views.take(i as int) =~= views);
    proof {
        summary::successes_and_failures(views);
    }
    (successful, results.len() - successful)
}

/// What is downloaded comes in the order in which the URLs first occur.
pub proof fn tasks_keep_the_order_of_the_urls(urls: Seq<Seq<char>>)
    ensures
        forall|k: int, l: int|
            0 <= k < l < tasks_of(urls).len() ==> (#[trigger] tasks_of(urls)[k]).1 < (
            #[trigger] tasks_of(urls)[l]).1,
    decreases urls.len(),
{
    if urls.len() > 0 {
        let fewer = urls.drop_last();
        tasks_keep_the_order_of_the_urls(fewer);
        each_url_has_one_task(fewer);
        let earlier = tasks_of(fewer);
        let all = tasks_of(urls);
        assert forall|k: int, l: int| 0 <= k < l < all.len() implies (#[trigger] all[k]).1 < (
        #[trigger] all[l]).1 by {
            assert(all[k] == earlier[k]);
            if l < earlier.len() {
                assert(all[l] == earlier[l]);
            }
        }
    }
}

/// A URL for which a result came in has that result. One for which none came in has failed:
/// with a timeout where the batch may take only so long, and otherwise with a failed
/// connection, after the time of the batch and without a retry.
pub proof fn missing_results_are_failures(batch: BatchView, url: Seq<char>, elapsed: Duration)
    ensures
        batch.results.contains_key(url) ==> final_result(batch, url, elapsed)
            == batch.results[url],
        !batch.results.contains_key(url) ==> {
            let result = final_result(batch, url, elapsed);
            &&& result.url == url
            &&& result.outcome matches OutcomeView::Failure {
                error,
                elapsed: taken,
                retries_attempted,
            }
            &&& taken == elapsed
            &&& retries_attempted == 0
            &&& batch.batch_timeout is Some ==> error is Timeout
            &&& batch.batch_timeout is None ==> error is ConnectionFailed
        },
{
}

/// A failed download is reported for its own URL, with its own error, time and retries.
pub proof fn failures_are_reported_as_they_are(
    url: Seq<char>,
    error: ErrorView,
    elapsed: Duration,
    retries_attempted: u32,
)
    ensures
        not_downloaded(url, error, elapsed, retries_attempted).url == url,
        not_downloaded(url, error, elapsed, retries_attempted).outcome == (OutcomeView::Failure {
            error,
            elapsed,
            retries_attempted,
        }),
{
}

/// Where the output directory cannot be created, each URL has a result of its own, which is
/// a failure to write whose message ends with that of the cause.
pub proof fn missing_directories_fail_each_url(
    result: ResultView,
    url: Seq<char>,
    cause: Seq<char>,
)
    requires
        has_no_directory(result, url, cause),
    ensures
        result.url == url,
        result.outcome matches OutcomeView::Failure { error, elapsed, retries_attempted } && {
            &&& error matches ErrorView::WriteError(message)
            &&& message.len() > cause.len()
            &&& message.skip(message.len() - cause.len()) == cause
            &&& elapsed@ == 0
            &&& retries_attempted == 0
        },
{
    reveal_strlit("failed to create output directory: ");
    let message = "failed to create output directory: "@ + cause;
    assert(message.skip(message.len() - cause.len()) =~= cause);
}

/// A result that comes in is reported for every place of its URL, and nothing is changed for
/// any other URL, nor of what the batch is.
pub proof fn results_are_reported_for_their_url(
    batch: BatchView,
    result: ResultView,
    elapsed: Duration,
)
    ensures
        ({
            let after = taken_in(batch, result);
            let before_it = final_results(batch, elapsed);
            let with_it = final_results(after, elapsed);
            &&& after.urls == batch.urls
            &&& after.batch_timeout == batch.batch_timeout
            &&& with_it.len() == batch.urls.len()
            &&& forall|i: int|
                0 <= i < batch.urls.len() ==> #[trigger] with_it[i] == if batch.urls[i]
                    == result.url {
                    result
                } else {
                    before_it[i]
                }
        }),
{
}

} // verus!
