//! Whether a response is fit to be kept.

use bytes::Bytes;
use http::{HeaderMap, HeaderValue};

use vstd::prelude::*;
use vstd::string::StringExecFns;

use crate::headers;
use crate::text;
use crate::types::{DownloadError, ErrorView};

verus! {

/// The length that a `content-length` header names: nothing where there is no such
/// header, or where its value is not a number that a length can have.
pub open spec fn named_length(content_length: Option<Seq<u8>>) -> Option<nat> {
    match content_length {
        Some(value) => match headers::value_text(value) {
            Some(text) => text::parsed_decimal(text, usize::MAX as nat),
            None => None,
        },
        None => None,
    }
}

/// The length that a `content-length` header is quoted with: the number that it names, or
/// else its text, which is empty where it is not visible ASCII.
pub open spec fn quoted_length(value: Seq<u8>) -> Seq<char> {
    match named_length(Some(value)) {
        Some(expected) => text::decimal_digits(expected),
        None => match headers::value_text(value) {
            Some(text) => text,
            None => Seq::empty(),
        },
    }
}

/// What is wrong with a body of `length` bytes, where `content_length` is the value of
/// its `content-length` header: it is empty, or there is such a header and it does not
/// name that length.
pub open spec fn fault_of_body(length: nat, content_length: Option<Seq<u8>>) -> Option<ErrorView> {
    if length == 0 {
        Some(ErrorView::ValidationFailed("empty response body"@))
    } else {
        match content_length {
            Some(value) => if named_length(content_length) == Some(length) {
                None
            } else {
                Some(
                    ErrorView::ValidationFailed(
                        "content-length mismatch: expected "@ + quoted_length(value) + ", got "@
                            + text::decimal_digits(length),
                    ),
                )
            },
            None => None,
        }
    }
}

/// Checks a body of `length` bytes against the value of its `content-length` header.
pub fn validate_body(length: usize, content_length: Option<&[u8]>) -> (result: Result<
    (),
    DownloadError,
>)
    ensures
        ({
            let value = match content_length {
                Some(v) => Some(v@),
                None => None,
            };
            match result {
                Ok(()) => fault_of_body(length as nat, value) is None,
                Err(e) => fault_of_body(length as nat, value) == Some(e@),
            }
        }),
{
    if length == 0 {
        return Err(DownloadError::ValidationFailed("empty response body".to_string()));
    }
    let value = match content_length {
        Some(value) => value,
        None => {
            return Ok(());
        },
    };
    let quoted = match headers::header_text(value) {
        Some(text) => match text::parse_decimal(text.as_str(), usize::MAX as u64) {
            Some(expected) => {
                if expected == length as u64 {
                    return Ok(());
                }
                let mut digits = String::new();
                text::push_decimal(&mut digits, expected as u128);
                assert(digits@ =~= text::decimal_digits(expected as nat));
                digits
            },
            None => text,
        },
        None => String::new(),
    };
    let mut message = "content-length mismatch: expected ".to_string();
    message.append(quoted.as_str());
    message.append(", got ");
    text::push_decimal(&mut message, length as u128);
    Err(DownloadError::ValidationFailed(message))
}

/// Validate a downloaded response body against its headers.
///
/// Checks:
/// 1. Zero-byte rejection: empty body returns ValidationFailed
/// 2. Content-Length mismatch: if header present, must match actual body length
pub fn validate_response(bytes: &Bytes, headers: &HeaderMap<HeaderValue>) -> (result: Result<
    (),
    DownloadError,
>)
    ensures
        ({
            let fault = fault_of_body(
                headers::bytes_contents(*bytes).len(),
                headers::first_of(headers::header_values(*headers), "content-length"@),
            );
            match result {
                Ok(()) => fault is None,
                Err(e) => fault == Some(e@),
            }
        }),
{
    proof {
        reveal_strlit("content-length");
        assert(text::lower_text("content-length"@) =~= "content-length"@);
    }
    let length = headers::bytes_slice(bytes).len();
    match headers::first_value(headers, "content-length") {
        Some(value) => validate_body(length, Some(value.as_slice())),
        None => validate_body(length, None),
    }
}

/// A body that is not empty is accepted where no `content-length` header comes with it, and
/// an empty body never is.
pub proof fn bodies_without_a_length_are_accepted(length: nat, content_length: Option<Seq<u8>>)
    ensures
        length > 0 ==> fault_of_body(length, None) is None,
        fault_of_body(0, content_length) is Some,
        fault_of_body(length, content_length) matches Some(fault) ==> fault is ValidationFailed,
{
}

/// A `content-length` header that is a number in decimal lets exactly the bodies of that
/// length pass, however large the number is. Otherwise both lengths are told.
pub proof fn lengths_are_compared_in_full(length: nat, named: nat, value: Seq<u8>)
    requires
        0 < length <= usize::MAX,
        headers::spells(value, text::decimal_digits(named)),
    ensures
        fault_of_body(length, Some(value)) is None <==> length == named,
        length != named ==> fault_of_body(length, Some(value)) == Some(
            ErrorView::ValidationFailed(
                "content-length mismatch: expected "@ + text::decimal_digits(named) + ", got "@
                    + text::decimal_digits(length),
            ),
        ),
{
    headers::spelled_numbers_are_text(value, named);
    if named <= usize::MAX {
        text::decimal_round_trip(named, usize::MAX as nat);
    } else {
        text::decimal_value_of_digits(named);
        assert(text::is_digit(text::decimal_digits(named)[0]));
    }
}

/// A `content-length` header that holds anything but decimal digits, behind at most one plus
/// sign, lets no body pass.
pub proof fn lengths_are_numbers(length: nat, value: Seq<u8>, at: int)
    requires
        0 <= at < value.len(),
        !(48 <= value[at] <= 57),
        at > 0 || value[at] != 43,
    ensures
        fault_of_body(length, Some(value)) is Some,
        fault_of_body(length, Some(Seq::empty())) is Some,
{
    headers::visible_values_are_text(value);
    headers::visible_values_are_text(Seq::empty());
    if let Some(text) = headers::value_text(value) {
        assert(text[at] as int == value[at] as int);
        text::only_numbers_are_read(text, usize::MAX as nat);
    }
    if let Some(text) = headers::value_text(Seq::empty()) {
        assert(text =~= Seq::<char>::empty());
        text::only_numbers_are_read(text, usize::MAX as nat);
    }
}

/// A length may be written with zeros before it, and with a plus sign before those: only its
/// value counts.
pub proof fn lengths_are_compared_by_value(length: nat, digits: Seq<char>, value: Seq<u8>)
    requires
        length > 0,
        digits.len() > 0,
        forall|i: int| 0 <= i < digits.len() ==> 48 <= #[trigger] digits[i] as int <= 57,
        text::decimal_value(digits) <= usize::MAX,
        headers::spells(value, digits) || headers::spells(value, seq!['+'] + digits),
    ensures
        fault_of_body(length, Some(value)) is None <==> text::decimal_value(digits) == length,
{
    let text = if headers::spells(value, digits) {
        digits
    } else {
        seq!['+'] + digits
    };
    assert forall|i: int| 0 <= i < value.len() implies 32 <= #[trigger] value[i] <= 126
        || value[i] == 9 by {
        assert(value[i] as int == text[i] as int);
        if text == seq!['+'] + digits && i > 0 {
            assert(text[i] == digits[i - 1]);
        }
    }
    headers::visible_values_are_text(value);
    assert(headers::value_text(value).unwrap() =~= text);
    text::only_numbers_are_read(digits, usize::MAX as nat);
}

} // verus!
