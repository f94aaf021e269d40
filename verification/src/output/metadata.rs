//! The record that is kept beside a downloaded file.

use http::{HeaderMap, HeaderValue};

use vstd::prelude::*;

use crate::headers;
use crate::text;
use crate::time::Duration;

verus! {

/// Metadata about a single downloaded file.
#[derive(Debug)]
pub struct FileMetadata {
    pub url: String,
    pub filename: String,
    pub size_bytes: u64,
    pub content_hash: Option<String>,
    pub content_type: Option<String>,
    pub elapsed: Duration,
    pub downloaded_at: String,
    /// Each header name once, with the text of its last value.
    pub headers: Vec<(String, String)>,
}

/// A header value as text: empty where it is not visible ASCII.
pub open spec fn text_or_empty(value: Seq<u8>) -> Seq<char> {
    match headers::value_text(value) {
        Some(text) => text,
        None => Seq::empty(),
    }
}

/// The text of the last value under each header name.
pub open spec fn last_texts(values: Map<Seq<char>, Seq<Seq<u8>>>) -> Map<Seq<char>, Seq<char>> {
    Map::new(
        |name: Seq<char>| values.contains_key(name),
        |name: Seq<char>| text_or_empty(values[name].last()),
    )
}

/// Whether `pairs` lists `entries`: each key once, with the text that belongs to it, and
/// no other key.
pub open spec fn lists(pairs: Seq<(String, String)>, entries: Map<Seq<char>, Seq<char>>) -> bool {
    &&& forall|i: int, j: int|
        0 <= i < j < pairs.len() ==> (#[trigger] pairs[i]).0@ != (#[trigger] pairs[j]).0@
    &&& forall|i: int|
        0 <= i < pairs.len() ==> entries.contains_key((#[trigger] pairs[i]).0@)
            && entries[pairs[i].0@] == pairs[i].1@
    &&& forall|name: Seq<char>| #[trigger]
        entries.contains_key(name) ==> exists|i: int|
            0 <= i < pairs.len() && (#[trigger] pairs[i]).0@ == name
}

fn read_value(value: &[u8]) -> (s: String)
    ensures
        s@ == text_or_empty(value@),
{
    match headers::header_text(value) {
        Some(text) => text,
        None => String::new(),
    }
}

/// A pair that takes the place of the one with its key, or stands behind all others where
/// there is none, makes the list that of the entries with its own put in.
proof fn listed_with(
    pairs: Seq<(String, String)>,
    entries: Map<Seq<char>, Seq<char>>,
    at: int,
    pair: (String, String),
    after: Seq<(String, String)>,
)
    requires
        lists(pairs, entries),
        0 <= at <= pairs.len(),
        forall|j: int| 0 <= j < at ==> (#[trigger] pairs[j]).0@ != pair.0@,
        at < pairs.len() ==> pairs[at].0@ == pair.0@,
        after == if at < pairs.len() {
            pairs.update(at, pair)
        } else {
            pairs.push(pair)
        },
    ensures
        lists(after, entries.insert(pair.0@, pair.1@)),
{
    let more = entries.insert(pair.0@, pair.1@);
    assert(after[at] == pair);
    assert forall|i: int| 0 <= i < pairs.len() implies (#[trigger] after[i]).0@ == pairs[i].0@ by {}
    assert forall|i: int, j: int| 0 <= i < j < after.len() implies (#[trigger] after[i]).0@ != (
    #[trigger] after[j]).0@ by {
        assert(after[i].0@ == pairs[i].0@);
        if j < pairs.len() {
            assert(pairs[i].0@ != pairs[j].0@);
        }
    }
    assert forall|i: int| 0 <= i < after.len() implies more.contains_key((#[trigger] after[i]).0@)
        && more[after[i].0@] == after[i].1@ by {
        if i < pairs.len() && i != at {
            assert(after[i] == pairs[i]);
            assert(entries.contains_key(pairs[i].0@));
            if at < pairs.len() {
                assert(after[i].0@ != after[at].0@) by {
                    if i < at {
                        assert(pairs[i].0@ != pairs[at].0@);
                    } else {
                        assert(pairs[at].0@ != pairs[i].0@);
                    }
                }
            }
        }
    }
    assert forall|name: Seq<char>| #[trigger] more.contains_key(name) implies exists|i: int|
        0 <= i < after.len() && (#[trigger] after[i]).0@ == name by {
        if name == pair.0@ {
            assert(after[at].0@ == name);
        } else {
            assert(entries.contains_key(name));
            let i = choose|i: int| 0 <= i < pairs.len() && (#[trigger] pairs[i]).0@ == name;
            assert(after[i].0@ == name);
        }
    }
}

/// Puts `value` under `name`, in place of what stood there.
fn put(pairs: &mut Vec<(String, String)>, name: &str, value: String, Ghost(entries): Ghost<
    Map<Seq<char>, Seq<char>>,
>)
    requires
        lists(old(pairs)@, entries),
    ensures
        lists(final(pairs)@, entries.insert(name@, value@)),
{
    let ghost before = pairs@;
    let mut i: usize = 0;
    while i < pairs.len() && !text::equal(pairs[i].0.as_str(), name)
        invariant
            pairs@ == before,
            i <= pairs@.len(),
            forall|j: int| 0 <= j < i ==> (#[trigger] before[j]).0@ != name@,
        decreases pairs@.len() - i,
    {
        i += 1;
    }
    let pair = (name.to_string(), value);
    let ghost put_in = pair;
    if i < pairs.len() {
        pairs.set(i, pair);
    } else {
        pairs.push(pair);
    }
    proof {
        listed_with(before, entries, i as int, put_in, pairs@);
    }
}

/// The headers that are recorded: each name once, with the text of its last value.
pub fn recorded_headers(headers: &HeaderMap<HeaderValue>) -> (pairs: Vec<(String, String)>)
    ensures
        lists(pairs@, last_texts(headers::header_values(*headers))),
{
    let all = headers::header_pairs(headers);
    let ghost views = headers::pair_views(all@);
    let mut pairs: Vec<(String, String)> = Vec::new();
    let mut i: usize = 0;
    assert(last_texts(headers::values_by_name(views.take(0))) =~= Map::empty());
    while i < all.len()
        invariant
            i <= all@.len(),
            views == headers::pair_views(all@),
            lists(pairs@, last_texts(headers::values_by_name(views.take(i as int)))),
        decreases all@.len() - i,
    {
        let ghost so_far = headers::values_by_name(views.take(i as int));
        let value = read_value(all[i].1.as_slice());
        proof {
            let longer = views.take(i + 1);
            assert(longer.drop_last() =~= views.take(i as int));
            assert(longer.last() == (all@[i as int].0@, all@[i as int].1@));
            assert(last_texts(headers::values_by_name(longer)) =~= last_texts(so_far).insert(
                all@[i as int].0@,
                value@,
            ));
        }
        put(&mut pairs, all[i].0.as_str(), value, Ghost(last_texts(so_far)));
        i += 1;
    }
    assert(views.take(i as int) =~= views);
    pairs
}

/// The record of a file that was downloaded in full.
pub fn describe_file(
    url: String,
    filename: String,
    size_bytes: u64,
    content_hash: Option<String>,
    headers: &HeaderMap<HeaderValue>,
    elapsed: Duration,
    downloaded_at: String,
) -> (metadata: FileMetadata)
    ensures
        metadata.url == url,
        metadata.filename == filename,
        metadata.size_bytes == size_bytes,
        metadata.content_hash == content_hash,
        text::optional_text(metadata.content_type) == headers::first_text(
            headers::header_values(*headers),
            "content-type"@,
        ),
        metadata.elapsed == elapsed,
        metadata.downloaded_at == downloaded_at,
        lists(metadata.headers@, last_texts(headers::header_values(*headers))),
{
    proof {
        reveal_strlit("content-type");
        assert(text::lower_text("content-type"@) =~= "content-type"@);
    }
    let content_type = headers::lookup_text(headers, "content-type");
    FileMetadata {
        url,
        filename,
        size_bytes,
        content_hash,
        content_type,
        elapsed,
        downloaded_at,
        headers: recorded_headers(headers),
    }
}

/// The name of the record that belongs to a file.
pub open spec fn sidecar_name(filename: Seq<char>) -> Seq<char> {
    filename + ".json"@
}

/// The name of the record that belongs to a file: `photo.jpg` has `photo.jpg.json`.
pub fn sidecar_filename(filename: &str) -> (s: String)
    ensures
        s@ == sidecar_name(filename@),
{
    text::join(filename, ".json")
}

/// Of several values under one name the last that came is recorded, as text where it is
/// text and as nothing where it is not.
pub proof fn the_last_value_is_recorded(pairs: Seq<(Seq<char>, Seq<u8>)>, at: int)
    requires
        0 <= at < pairs.len(),
        forall|i: int| at < i < pairs.len() ==> (#[trigger] pairs[i]).0 != pairs[at].0,
    ensures
        ({
            let recorded = last_texts(headers::values_by_name(pairs));
            &&& recorded.contains_key(pairs[at].0)
            &&& recorded[pairs[at].0] == match headers::value_text(pairs[at].1) {
                Some(text) => text,
                None => Seq::empty(),
            }
        }),
    decreases pairs.len(),
{
    let fewer = pairs.drop_last();
    let name = pairs[at].0;
    if at < fewer.len() {
        assert forall|i: int| at < i < fewer.len() implies (#[trigger] fewer[i]).0 != fewer[at].0 by {
            assert(pairs[i].0 != name);
        }
        the_last_value_is_recorded(fewer, at);
        assert(pairs[pairs.len() - 1].0 != name);
    }
}

/// The record of a file is called like the file, with `.json` behind its whole name, so that
/// different files have different records, none of which is called like its own file.
pub proof fn sidecars_stand_beside_their_files(filename: Seq<char>, other: Seq<char>)
    ensures
        sidecar_name(filename) == filename + seq!['.', 'j', 's', 'o', 'n'],
        sidecar_name(filename) == sidecar_name(other) ==> filename == other,
        sidecar_name(filename) != filename,
{
    reveal_strlit(".json");
    assert(".json"@ =~= seq!['.', 'j', 's', 'o', 'n']);
    let own = sidecar_name(filename);
    assert(own.len() == filename.len() + 5);
    if own == sidecar_name(other) {
        assert(filename =~= own.take(own.len() - 5));
        assert(other =~= own.take(own.len() - 5));
    }
}

/// What lists the headers lists every name once, each with its own text, and no other name.
pub proof fn every_header_is_listed_once(
    pairs: Seq<(String, String)>,
    entries: Map<Seq<char>, Seq<char>>,
    name: Seq<char>,
)
    requires
        lists(pairs, entries),
    ensures
        entries.contains_key(name) <==> exists|i: int|
            0 <= i < pairs.len() && (#[trigger] pairs[i]).0@ == name,
        forall|i: int|
            0 <= i < pairs.len() && (#[trigger] pairs[i]).0@ == name ==> pairs[i].1@
                == entries[name],
        forall|i: int, j: int|
            0 <= i < j < pairs.len() ==> (#[trigger] pairs[i]).0@ != (#[trigger] pairs[j]).0@,
{
    if exists|i: int| 0 <= i < pairs.len() && (#[trigger] pairs[i]).0@ == name {
        let i = choose|i: int| 0 <= i < pairs.len() && (#[trigger] pairs[i]).0@ == name;
        assert(entries.contains_key(pairs[i].0@));
    }
}

/// The headers that are recorded are those that came, under their own names.
pub proof fn the_headers_that_came_are_recorded(
    values: Map<Seq<char>, Seq<Seq<u8>>>,
    name: Seq<char>,
)
    ensures
        last_texts(values).contains_key(name) <==> values.contains_key(name),
        values.contains_key(name) ==> last_texts(values)[name] == match headers::value_text(
            values[name][values[name].len() - 1],
        ) {
            Some(text) => text,
            None => Seq::empty(),
        },
{
}

} // verus!
