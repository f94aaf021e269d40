//! Header values and bodies of HTTP responses, read as plain bytes and text.

use bytes::Bytes;
use http::{HeaderMap, HeaderValue};

use vstd::prelude::*;

use crate::text;

verus! {

/// `Bytes` of the `bytes` crate: a row of bytes, such as the body of a response.
#[verifier::external_type_specification]
#[verifier::external_body]
pub struct ExBytes(Bytes);

/// The bytes that a `Bytes` holds.
pub uninterp spec fn bytes_contents(bytes: Bytes) -> Seq<u8>;

/// `Bytes::as_ref` of the `bytes` crate: the bytes held, as a slice.
#[verifier::external_body]
pub(crate) fn bytes_slice(bytes: &Bytes) -> (slice: &[u8])
    ensures
        slice@ == bytes_contents(*bytes),
{
    bytes.as_ref()
}

/// `HeaderValue` of the `http` crate: the value of one header.
#[verifier::external_type_specification]
#[verifier::external_body]
pub struct ExHeaderValue(HeaderValue);

/// `HeaderMap` of the `http` crate: the headers of a request or response.
#[verifier::external_type_specification]
#[verifier::external_body]
#[verifier::reject_recursive_types(T)]
pub struct ExHeaderMap<T>(HeaderMap<T>);

/// The headers that a `HeaderMap` holds: under each name, in lower case, the values that
/// were given for it, in the order in which they came.
pub uninterp spec fn header_values(headers: HeaderMap<HeaderValue>) -> Map<
    Seq<char>,
    Seq<Seq<u8>>,
>;

/// The first value under a name.
pub open spec fn first_of(
    values: Map<Seq<char>, Seq<Seq<u8>>>,
    name: Seq<char>,
) -> Option<Seq<u8>> {
    if values.contains_key(name) {
        Some(values[name][0])
    } else {
        None
    }
}

/// `HeaderMap::get` of the `http` crate: the first value under a name, which is looked
/// up without regard to the case of its ASCII letters, as bytes.
#[verifier::external_body]
pub(crate) fn first_value(headers: &HeaderMap<HeaderValue>, name: &str) -> (value: Option<Vec<u8>>)
    ensures
        match value {
            Some(v) => first_of(header_values(*headers), text::lower_text(name@)) == Some(v@),
            None => first_of(header_values(*headers), text::lower_text(name@)) is None,
        },
{
    headers.get(name).map(|value| value.as_bytes().to_vec())
}

/// The values under each name of a row of headers, in the order in which they come.
pub open spec fn values_by_name(pairs: Seq<(Seq<char>, Seq<u8>)>) -> Map<Seq<char>, Seq<Seq<u8>>>
    decreases pairs.len(),
{
    if pairs.len() == 0 {
        Map::empty()
    } else {
        let before = values_by_name(pairs.drop_last());
        let (name, value) = pairs.last();
        before.insert(
            name,
            if before.contains_key(name) {
                before[name].push(value)
            } else {
                seq![value]
            },
        )
    }
}

/// A row of headers, with its names and values as plain sequences.
pub open spec fn pair_views(pairs: Seq<(String, Vec<u8>)>) -> Seq<(Seq<char>, Seq<u8>)> {
    pairs.map_values(|pair: (String, Vec<u8>)| (pair.0@, pair.1@))
}

/// `HeaderMap::iter` of the `http` crate: every header once for each of its values, names
/// in lower case, the values of one name in the order in which they came. Nothing is said
/// of the order of the names.
#[verifier::external_body]
pub(crate) fn header_pairs(headers: &HeaderMap<HeaderValue>) -> (pairs: Vec<(String, Vec<u8>)>)
    ensures
        values_by_name(pair_views(pairs@)) == header_values(*headers),
{
    headers.iter().map(|(name, value)| (name.as_str().to_string(), value.as_bytes().to_vec())).collect()
}

/// A byte that may stand in the text of a header value: a printable ASCII character or a
/// tab.
pub open spec fn is_visible(b: u8) -> bool {
    32 <= b < 127 || b == 9
}

/// A header value as text: nothing where it holds a byte that is not visible ASCII.
pub open spec fn value_text(value: Seq<u8>) -> Option<Seq<char>> {
    if forall|i: int| 0 <= i < value.len() ==> is_visible(#[trigger] value[i]) {
        Some(value.map_values(|b: u8| b as char))
    } else {
        None
    }
}

/// Reads a header value as text.
pub fn header_text(value: &[u8]) -> (s: Option<String>)
    ensures
        match s {
            Some(t) => value_text(value@) == Some(t@),
            None => value_text(value@) is None,
        },
{
    let mut s = String::new();
    let mut i: usize = 0;
    while i < value.len()
        invariant
            i <= value@.len(),
            forall|j: int| 0 <= j < i ==> is_visible(#[trigger] value@[j]),
            s@ == value@.take(i as int).map_values(|b: u8| b as char),
        decreases value@.len() - i,
    {
        let b = value[i];
        if !((32 <= b && b < 127) || b == 9) {
            assert(!is_visible(value@[i as int]));
            return None;
        }
        s.push(b as char);
        i += 1;
        assert(s@ =~= value@.take(i as int).map_values(|b: u8| b as char));
    }
    assert(value@.take(i as int) =~= value@);
    Some(s)
}

/// The text of the first value under a name, where there is one and it is text.
pub open spec fn first_text(
    values: Map<Seq<char>, Seq<Seq<u8>>>,
    name: Seq<char>,
) -> Option<Seq<char>> {
    match first_of(values, name) {
        Some(value) => value_text(value),
        None => None,
    }
}

/// Looks up the text of the first value under a name.
pub fn lookup_text(headers: &HeaderMap<HeaderValue>, name: &str) -> (s: Option<String>)
    ensures
        match s {
            Some(t) => first_text(header_values(*headers), text::lower_text(name@)) == Some(t@),
            None => first_text(header_values(*headers), text::lower_text(name@)) is None,
        },
{
    match first_value(headers, name) {
        Some(value) => header_text(value.as_slice()),
        None => None,
    }
}

/// A header value is text exactly when each of its bytes is a tab or one of 32 to 126, and
/// the text has one character for each byte, of the same number.
pub proof fn visible_values_are_text(value: Seq<u8>)
    ensures
        value_text(value) is Some <==> forall|i: int|
            0 <= i < value.len() ==> 32 <= #[trigger] value[i] <= 126 || value[i] == 9,
        value_text(value) matches Some(text) ==> text.len() == value.len() && forall|i: int|
            0 <= i < value.len() ==> #[trigger] text[i] as int == value[i] as int,
{
    if forall|i: int| 0 <= i < value.len() ==> 32 <= #[trigger] value[i] <= 126 || value[i] == 9 {
        assert forall|i: int| 0 <= i < value.len() implies is_visible(#[trigger] value[i]) by {}
    }
    if value_text(value) is Some {
        assert forall|i: int| 0 <= i < value.len() implies 32 <= #[trigger] value[i] <= 126
            || value[i] == 9 by {
            assert(is_visible(value[i]));
        }
    }
}

/// A name without a header has no value.
pub proof fn missing_headers_have_no_value(pairs: Seq<(Seq<char>, Seq<u8>)>, name: Seq<char>)
    requires
        forall|i: int| 0 <= i < pairs.len() ==> (#[trigger] pairs[i]).0 != name,
    ensures
        first_of(values_by_name(pairs), name) is None,
        first_text(values_by_name(pairs), name) is None,
        !values_by_name(pairs).contains_key(name),
    decreases pairs.len(),
{
    if pairs.len() > 0 {
        let fewer = pairs.drop_last();
        assert forall|i: int| 0 <= i < fewer.len() implies (#[trigger] fewer[i]).0 != name by {
            assert(pairs[i].0 != name);
        }
        missing_headers_have_no_value(fewer, name);
        assert(pairs[pairs.len() - 1].0 != name);
    }
}

/// Of several values under one name the first that came counts.
pub proof fn the_first_value_counts(pairs: Seq<(Seq<char>, Seq<u8>)>, at: int)
    requires
        0 <= at < pairs.len(),
        forall|i: int| 0 <= i < at ==> (#[trigger] pairs[i]).0 != pairs[at].0,
    ensures
        first_of(values_by_name(pairs), pairs[at].0) == Some(pairs[at].1),
        values_by_name(pairs)[pairs[at].0].len() > 0,
    decreases pairs.len(),
{
    let fewer = pairs.drop_last();
    if at < fewer.len() {
        assert forall|i: int| 0 <= i < at implies (#[trigger] fewer[i]).0 != fewer[at].0 by {
            assert(pairs[i].0 != pairs[at].0);
        }
        the_first_value_counts(fewer, at);
    } else {
        assert forall|i: int| 0 <= i < fewer.len() implies (#[trigger] fewer[i]).0 != pairs[at].0 by {
            assert(pairs[i].0 != pairs[at].0);
        }
        missing_headers_have_no_value(fewer, pairs[at].0);
    }
}

/// Whether a header value is made of these characters.
pub open spec fn spells(value: Seq<u8>, text: Seq<char>) -> bool {
    value.len() == text.len() && forall|i: int|
        0 <= i < value.len() ==> #[trigger] value[i] as int == text[i] as int
}

/// The bytes that spell a number in decimal are read as its digits.
pub proof fn spelled_numbers_are_text(value: Seq<u8>, n: nat)
    requires
        spells(value, text::decimal_digits(n)),
    ensures
        value_text(value) == Some(text::decimal_digits(n)),
{
    let digits = text::decimal_digits(n);
    text::decimal_value_of_digits(n);
    assert forall|i: int| 0 <= i < value.len() implies 32 <= #[trigger] value[i] <= 126
        || value[i] == 9 by {
        assert(text::is_digit(digits[i]));
    }
    visible_values_are_text(value);
    assert(value_text(value).unwrap() =~= digits);
}

} // verus!
