//! Narrowing of the generated Python type stub: the naming strategy is one of four
//! names, not any text.

use vstd::prelude::*;
use vstd::slice::slice_subrange;
use vstd::string::StringExecFns;

use crate::text;

verus! {

/// Whether `needle` stands in `text` at position `at`.
pub open spec fn stands_at(text: Seq<char>, needle: Seq<char>, at: int) -> bool {
    0 <= at && at + needle.len() <= text.len() && text.subrange(at, at + needle.len() as int)
        == needle
}

/// How often `needle` occurs from position `from` on, each occurrence looked for behind
/// the one before. Nothing occurs before every character and at the end.
pub open spec fn occurrences_from(text: Seq<char>, needle: Seq<char>, from: int) -> nat
    decreases text.len() + 1 - from,
{
    if from < 0 || from > text.len() {
        0
    } else if stands_at(text, needle, from) {
        1 + occurrences_from(
            text,
            needle,
            if needle.len() == 0 {
                from + 1
            } else {
                from + needle.len()
            },
        )
    } else {
        occurrences_from(text, needle, from + 1)
    }
}

/// How often `needle` occurs in `text`.
pub open spec fn occurrences(text: Seq<char>, needle: Seq<char>) -> nat {
    occurrences_from(text, needle, 0)
}

/// The first place of `needle` in `text`, from `from` on, or one behind the end.
pub open spec fn first_occurrence(text: Seq<char>, needle: Seq<char>, from: int) -> int
    decreases text.len() + 1 - from,
{
    if from < 0 || from > text.len() || stands_at(text, needle, from) {
        from
    } else {
        first_occurrence(text, needle, from + 1)
    }
}

/// `text` with the first `needle` replaced.
pub open spec fn with_first_replaced(
    text: Seq<char>,
    needle: Seq<char>,
    replacement: Seq<char>,
) -> Seq<char> {
    let at = first_occurrence(text, needle, 0);
    text.take(at) + replacement + text.skip(at + needle.len())
}

fn check_at(text: &[char], needle: &[char], at: usize) -> (r: bool)
    requires
        at <= text@.len(),
    ensures
        r == stands_at(text@, needle@, at as int),
{
    let end = text.len();
    if needle.len() > end - at {
        return false;
    }
    let mut i: usize = 0;
    while i < needle.len()
        invariant
            i <= needle@.len(),
            end == text@.len(),
            at + needle@.len() <= text@.len(),
            forall|j: int| 0 <= j < i ==> text@[at + j] == needle@[j],
        decreases needle@.len() - i,
    {
        if text[at + i] != needle[i] {
            assert(text@.subrange(at as int, at + needle@.len())[i as int] != needle@[i as int]);
            return false;
        }
        i += 1;
    }
    assert(text@.subrange(at as int, at + needle@.len()) =~= needle@);
    true
}

/// Counts the occurrences of `needle`, and finds the first.
fn count(text: &[char], needle: &[char]) -> (found: (u128, usize))
    ensures
        found.0 == occurrences(text@, needle@),
        found.0 > 0 ==> found.1 == first_occurrence(text@, needle@, 0) && stands_at(
            text@,
            needle@,
            found.1 as int,
        ),
{
    let end = text.len();
    let step: usize = if needle.len() == 0 {
        1
    } else {
        needle.len()
    };
    let mut total: u128 = 0;
    let mut first: usize = 0;
    let mut at: usize = 0;
    let mut done = false;
    while !done
        invariant
            end == text@.len(),
            step == if needle@.len() == 0 {
                1
            } else {
                needle@.len()
            },
            at <= end,
            total <= at + if done {
                1int
            } else {
                0
            },
            occurrences(text@, needle@) == total + if done {
                0
            } else {
                occurrences_from(text@, needle@, at as int)
            },
            total == 0 && !done ==> first_occurrence(text@, needle@, 0) == first_occurrence(
                text@,
                needle@,
                at as int,
            ),
            total > 0 ==> first == first_occurrence(text@, needle@, 0) && stands_at(
                text@,
                needle@,
                first as int,
            ),
        decreases
                end - at + if done {
                    0int
                } else {
                    1
                },
    {
        let found = check_at(text, needle, at);
        let hop: usize = if found {
            step
        } else {
            1
        };
        proof {
            let rest = occurrences_from(text@, needle@, at + hop);
            assert(occurrences_from(text@, needle@, at as int) == rest + if found {
                1nat
            } else {
                0
            });
            if hop > end - at {
                assert(rest == 0);
            }
        }
        if found {
            if total == 0 {
                first = at;
            }
            total += 1;
        }
        if hop > end - at {
            done = true;
        } else {
            at += hop;
        }
    }
    (total, first)
}

/// A text in double quotes, with its special characters escaped.
pub uninterp spec fn quoted(text: Seq<char>) -> Seq<char>;

/// `Debug` formatting of a `str` in the standard library: the text in double quotes. How
/// characters are escaped is left to that library.
#[verifier::external_body]
fn quote(text: &str) -> (s: String)
    ensures
        s@ == quoted(text@),
{
    format!("{text:?}")
}

/// The text after `needle` is replaced where it occurs once. A text in which it was
/// replaced before stays as it is; any other text is an error.
pub open spec fn replaced_once(
    haystack: Seq<char>,
    needle: Seq<char>,
    replacement: Seq<char>,
) -> Result<Seq<char>, Seq<char>> {
    let count = occurrences(haystack, needle);
    if count == 1 {
        Ok(with_first_replaced(haystack, needle, replacement))
    } else if count > 1 {
        Err(
            "expected one occurrence of "@ + quoted(needle) + ", found "@ + text::decimal_digits(
                count,
            ),
        )
    } else if occurrences(haystack, replacement) == 1 {
        Ok(haystack)
    } else {
        Err(
            "expected "@ + quoted(needle) + " or "@ + quoted(replacement) + ", found neither"@,
        )
    }
}

/// A text, or the message of an error, as a row of characters.
pub open spec fn text_result(result: Result<String, String>) -> Result<Seq<char>, Seq<char>> {
    match result {
        Ok(text) => Ok(text@),
        Err(message) => Err(message@),
    }
}

/// Replaces `needle` where it occurs once, and confirms that it was replaced where it does
/// not occur.
pub fn replace_once_or_confirm(haystack: String, needle: &str, replacement: &str) -> (result:
    Result<String, String>)
    ensures
        text_result(result) == replaced_once(haystack@, needle@, replacement@),
{
    let chars = text::to_chars(haystack.as_str());
    let sought = text::to_chars(needle);
    let (found, first) = count(chars.as_slice(), sought.as_slice());
    if found == 1 {
        let end = chars.len();
        let mut s = text::from_chars(slice_subrange(chars.as_slice(), 0, first));
        s.append(replacement);
        let rest = text::from_chars(slice_subrange(chars.as_slice(), first + sought.len(), end));
        s.append(rest.as_str());
        assert(s@ =~= with_first_replaced(haystack@, needle@, replacement@));
        return Ok(s);
    }
    if found > 1 {
        let mut message = "expected one occurrence of ".to_string();
        message.append(quote(needle).as_str());
        message.append(", found ");
        text::push_decimal(&mut message, found as u128);
        return Err(message);
    }
    let wanted = text::to_chars(replacement);
    let (confirmed, _) = count(chars.as_slice(), wanted.as_slice());
    if confirmed == 1 {
        return Ok(haystack);
    }
    let mut message = "expected ".to_string();
    message.append(quote(needle).as_str());
    message.append(" or ");
    message.append(quote(replacement).as_str());
    message.append(", found neither");
    Err(message)
}

/// The type that a naming strategy has in the stub.
pub fn naming_strategy_type() -> (s: &'static str)
    ensures
        s@ == strategy_names(),
{
    "typing.Literal[\"content_hash\", \"url_based\", \"sequential\", \"file_header\"]"
}

/// The names of the naming strategies, as a type.
pub open spec fn strategy_names() -> Seq<char> {
    "typing.Literal[\"content_hash\", \"url_based\", \"sequential\", \"file_header\"]"@
}

/// Where the generated stub lets the naming strategy be read as any text.
pub open spec fn wide_reading() -> Seq<char> {
    "def naming_strategy(self) -> builtins.str: ..."@
}

/// Where a narrowed stub lets the naming strategy be read.
pub open spec fn narrow_reading() -> Seq<char> {
    "def naming_strategy(self) -> "@ + strategy_names() + ": ..."@
}

/// Where the generated stub lets the naming strategy be set to any text.
pub open spec fn wide_setting() -> Seq<char> {
    "naming_strategy: builtins.str = 'url_based'"@
}

/// Where a narrowed stub lets the naming strategy be set.
pub open spec fn narrow_setting() -> Seq<char> {
    "naming_strategy: "@ + strategy_names() + " = 'url_based'"@
}

/// The stub after the type of the naming strategy is narrowed, first where it is read and
/// then where it is set.
pub open spec fn narrowed(stub: Seq<char>) -> Result<Seq<char>, Seq<char>> {
    match replaced_once(stub, wide_reading(), narrow_reading()) {
        Err(message) => Err(message),
        Ok(once) => replaced_once(once, wide_setting(), narrow_setting()),
    }
}

/// Narrows the type of the naming strategy in a stub, first where it is read and then
/// where it is set. A stub that was narrowed before stays as it is.
pub fn narrow_stub(stub: String) -> (result: Result<String, String>)
    ensures
        text_result(result) == narrowed(stub@),
{
    let mut reading = "def naming_strategy(self) -> ".to_string();
    reading.append(naming_strategy_type());
    reading.append(": ...");
    let once = match replace_once_or_confirm(
        stub,
        "def naming_strategy(self) -> builtins.str: ...",
        reading.as_str(),
    ) {
        Ok(once) => once,
        Err(message) => {
            return Err(message);
        },
    };
    let mut setting = "naming_strategy: ".to_string();
    setting.append(naming_strategy_type());
    setting.append(" = 'url_based'");
    replace_once_or_confirm(
        once,
        "naming_strategy: builtins.str = 'url_based'",
        setting.as_str(),
    )
}

/// Whether `needle` stands nowhere in `text`.
spec fn absent(text: Seq<char>, needle: Seq<char>) -> bool {
    forall|at: int| !stands_at(text, needle, at)
}

/// Whether `needle` stands in `text` at `at` and nowhere else.
spec fn only_at(text: Seq<char>, needle: Seq<char>, at: int) -> bool {
    stands_at(text, needle, at) && forall|other: int|
        stands_at(text, needle, other) ==> other == at
}

/// Whether `second` can begin `offset` characters into `first`.
spec fn follows(first: Seq<char>, second: Seq<char>, offset: int) -> bool {
    forall|i: int|
        0 <= i < second.len() && offset + i < first.len() ==> first[offset + i] == #[trigger] second[i]
}

/// Whether `second` cannot begin inside `first`.
spec fn never_inside(first: Seq<char>, second: Seq<char>) -> bool {
    forall|offset: int| 0 <= offset < first.len() ==> !follows(first, second, offset)
}

/// Whether two words share no character wherever they stand in a text.
spec fn apart(first: Seq<char>, second: Seq<char>) -> bool {
    never_inside(first, second) && never_inside(second, first)
}

/// Whether a word shares no character with another place where it stands.
spec fn apart_from_itself(word: Seq<char>) -> bool {
    forall|offset: int| 0 < offset < word.len() ==> !follows(word, word, offset)
}

proof fn standing_together(text: Seq<char>, first: Seq<char>, a: int, second: Seq<char>, b: int)
    requires
        stands_at(text, first, a),
        stands_at(text, second, b),
        a <= b < a + first.len(),
    ensures
        follows(first, second, b - a),
{
    assert forall|i: int| 0 <= i < second.len() && b - a + i < first.len() implies first[b - a + i]
        == #[trigger] second[i] by {
        assert(text.subrange(a, a + first.len() as int)[b - a + i] == text[b + i]);
        assert(text.subrange(b, b + second.len() as int)[i] == text[b + i]);
    }
}

proof fn standing_apart(text: Seq<char>, first: Seq<char>, a: int, second: Seq<char>, b: int)
    requires
        stands_at(text, first, a),
        stands_at(text, second, b),
        apart(first, second),
    ensures
        b + second.len() <= a || a + first.len() <= b,
{
    if a <= b < a + first.len() {
        standing_together(text, first, a, second, b);
    } else if b <= a < b + second.len() {
        standing_together(text, second, b, first, a);
    }
}

proof fn none_counted(text: Seq<char>, needle: Seq<char>, from: int)
    requires
        0 <= from,
        forall|at: int| from <= at ==> !stands_at(text, needle, at),
    ensures
        occurrences_from(text, needle, from) == 0,
    decreases text.len() + 1 - from,
{
    if from <= text.len() {
        none_counted(text, needle, from + 1);
    }
}

proof fn none_found(text: Seq<char>, needle: Seq<char>, from: int)
    requires
        0 <= from,
        occurrences_from(text, needle, from) == 0,
    ensures
        forall|at: int| from <= at ==> !stands_at(text, needle, at),
    decreases text.len() + 1 - from,
{
    if from <= text.len() {
        none_found(text, needle, from + 1);
    }
}

proof fn one_counted(text: Seq<char>, needle: Seq<char>, at: int, from: int)
    requires
        only_at(text, needle, at),
        needle.len() > 0,
        0 <= from <= at,
    ensures
        occurrences_from(text, needle, from) == 1,
    decreases at - from,
{
    if from < at {
        one_counted(text, needle, at, from + 1);
    } else {
        none_counted(text, needle, at + needle.len());
    }
}

proof fn one_found(text: Seq<char>, needle: Seq<char>, from: int)
    requires
        0 <= from,
        needle.len() > 0,
        occurrences_from(text, needle, from) == 1,
    ensures
        stands_at(text, needle, first_occurrence(text, needle, from)),
        from <= first_occurrence(text, needle, from),
        forall|at: int|
            stands_at(text, needle, at) && from <= at ==> first_occurrence(text, needle, from) <= at
                < first_occurrence(text, needle, from) + needle.len(),
    decreases text.len() + 1 - from,
{
    if stands_at(text, needle, from) {
        none_found(text, needle, from + needle.len());
    } else {
        one_found(text, needle, from + 1);
    }
}

/// What stands clear of a replaced word still stands, moved with the text around it.
proof fn standing_moves(
    text: Seq<char>,
    needle: Seq<char>,
    replacement: Seq<char>,
    at: int,
    word: Seq<char>,
    place: int,
)
    requires
        stands_at(text, needle, at),
        stands_at(text, word, place),
        place + word.len() <= at || at + needle.len() <= place,
    ensures
        stands_at(
            text.take(at) + replacement + text.skip(at + needle.len()),
            word,
            if place + word.len() <= at {
                place
            } else {
                place - needle.len() + replacement.len()
            },
        ),
{
    let after = text.take(at) + replacement + text.skip(at + needle.len());
    let moved = if place + word.len() <= at {
        place
    } else {
        place - needle.len() + replacement.len()
    };
    assert(after.subrange(moved, moved + word.len() as int) =~= text.subrange(
        place,
        place + word.len() as int,
    ));
}

/// A word that stands in the text after a replacement, clear of what was put in, stood in
/// the text before.
proof fn standing_came(
    text: Seq<char>,
    needle: Seq<char>,
    replacement: Seq<char>,
    at: int,
    word: Seq<char>,
    place: int,
)
    requires
        stands_at(text, needle, at),
        stands_at(text.take(at) + replacement + text.skip(at + needle.len()), word, place),
        place + word.len() <= at || at + replacement.len() <= place,
    ensures
        stands_at(
            text,
            word,
            if place + word.len() <= at {
                place
            } else {
                place - replacement.len() + needle.len()
            },
        ),
{
    let after = text.take(at) + replacement + text.skip(at + needle.len());
    assert(after.subrange(at, at + replacement.len() as int) =~= replacement);
    standing_moves(after, replacement, needle, at, word, place);
    assert(after.take(at) + needle + after.skip(at + replacement.len()) =~= text) by {
        assert(text.subrange(at, at + needle.len() as int) == needle);
        assert forall|i: int| at <= i < at + needle.len() implies text[i] == needle[i - at] by {
            assert(text.subrange(at, at + needle.len() as int)[i - at] == text[i]);
        }
    }
}

/// After a replacement the needle is gone and the replacement stands once.
proof fn replacing_settles(
    text: Seq<char>,
    needle: Seq<char>,
    replacement: Seq<char>,
    after: Seq<char>,
) -> (place: int)
    requires
        replaced_once(text, needle, replacement) == Ok::<Seq<char>, Seq<char>>(after),
        occurrences(text, needle) > 0 ==> occurrences(text, replacement) == 0,
        apart(needle, replacement),
        apart_from_itself(replacement),
        needle.len() > 0,
        replacement.len() > 0,
    ensures
        absent(after, needle),
        only_at(after, replacement, place),
{
    if occurrences(text, needle) == 1 {
        one_found(text, needle, 0);
        none_found(text, replacement, 0);
        let at = first_occurrence(text, needle, 0);
        assert(after.subrange(at, at + replacement.len() as int) =~= replacement);
        assert forall|place: int| !stands_at(after, needle, place) by {
            if stands_at(after, needle, place) {
                standing_apart(after, replacement, at, needle, place);
                standing_came(text, needle, replacement, at, needle, place);
            }
        }
        assert forall|place: int| stands_at(after, replacement, place) implies place == at by {
            if at < place < at + replacement.len() {
                standing_together(after, replacement, at, replacement, place);
            } else if place < at < place + replacement.len() {
                standing_together(after, replacement, place, replacement, at);
            } else if place != at {
                standing_came(text, needle, replacement, at, replacement, place);
            }
        }
        at
    } else {
        none_found(text, needle, 0);
        one_found(text, replacement, 0);
        let at = first_occurrence(text, replacement, 0);
        assert forall|place: int| stands_at(text, replacement, place) implies place == at by {
            if place != at {
                standing_together(text, replacement, at, replacement, place);
            }
        }
        at
    }
}

/// A replacement leaves another word as often as it was, none or once.
proof fn replacing_leaves_others(
    text: Seq<char>,
    needle: Seq<char>,
    replacement: Seq<char>,
    after: Seq<char>,
    gone: Seq<char>,
    kept: Seq<char>,
    place: int,
) -> (moved: int)
    requires
        replaced_once(text, needle, replacement) == Ok::<Seq<char>, Seq<char>>(after),
        absent(text, gone),
        only_at(text, kept, place),
        apart(replacement, gone),
        apart(needle, kept),
        apart(replacement, kept),
        needle.len() > 0,
    ensures
        absent(after, gone),
        only_at(after, kept, moved),
{
    if occurrences(text, needle) == 1 {
        one_found(text, needle, 0);
        let at = first_occurrence(text, needle, 0);
        assert(after.subrange(at, at + replacement.len() as int) =~= replacement);
        assert forall|other: int| !stands_at(after, gone, other) by {
            if stands_at(after, gone, other) {
                standing_apart(after, replacement, at, gone, other);
                standing_came(text, needle, replacement, at, gone, other);
            }
        }
        standing_apart(text, needle, at, kept, place);
        standing_moves(text, needle, replacement, at, kept, place);
        let moved = if place + kept.len() <= at {
            place
        } else {
            place - needle.len() + replacement.len()
        };
        assert forall|other: int| stands_at(after, kept, other) implies other == moved by {
            standing_apart(after, replacement, at, kept, other);
            standing_came(text, needle, replacement, at, kept, other);
        }
        moved
    } else {
        place
    }
}

/// Whether a word that begins with `def` can begin `offset` characters into `word`.
spec fn def_at(word: Seq<char>, offset: int) -> bool {
    &&& 0 <= offset < word.len()
    &&& word[offset] == 'd'
    &&& offset + 1 < word.len() ==> word[offset + 1] == 'e'
    &&& offset + 2 < word.len() ==> word[offset + 2] == 'f'
}

/// Whether a word that begins with `na` can begin `offset` characters into `word`.
spec fn na_at(word: Seq<char>, offset: int) -> bool {
    &&& 0 <= offset < word.len()
    &&& word[offset] == 'n'
    &&& offset + 1 < word.len() ==> word[offset + 1] == 'a'
}

/// What the words for reading have in common: each begins with `def naming_strategy(`, and
/// neither `def` nor `na` stands anywhere else in it.
spec fn is_reading(word: Seq<char>) -> bool {
    &&& word.len() > 19
    &&& def_at(word, 0)
    &&& word[19] == '('
    &&& forall|offset: int| def_at(word, offset) ==> offset == 0
    &&& forall|offset: int| na_at(word, offset) ==> offset == 4
}

/// What the words for setting have in common: each begins with `naming_strategy:`, `na`
/// stands nowhere else in it, and `def` nowhere.
spec fn is_setting(word: Seq<char>) -> bool {
    &&& word.len() > 15
    &&& na_at(word, 0)
    &&& word[15] == ':'
    &&& forall|offset: int| !def_at(word, offset)
    &&& forall|offset: int| na_at(word, offset) ==> offset == 0
}

proof fn following_reading(first: Seq<char>, second: Seq<char>, offset: int)
    requires
        is_reading(second),
        0 <= offset < first.len(),
        follows(first, second, offset),
    ensures
        def_at(first, offset),
{
    assert(second[0] == 'd' && second[1] == 'e' && second[2] == 'f');
}

proof fn following_setting(first: Seq<char>, second: Seq<char>, offset: int)
    requires
        is_setting(second),
        0 <= offset < first.len(),
        follows(first, second, offset),
    ensures
        na_at(first, offset),
        offset + 15 < first.len() ==> first[offset + 15] == ':',
{
    assert(second[0] == 'n' && second[1] == 'a' && second[15] == ':');
}

proof fn wide_words()
    ensures
        is_reading(wide_reading()),
        is_setting(wide_setting()),
{
    reveal_strlit("def naming_strategy(self) -> builtins.str: ...");
    reveal_strlit("naming_strategy: builtins.str = 'url_based'");
}

proof fn narrow_words()
    ensures
        is_reading(narrow_reading()),
        is_setting(narrow_setting()),
        narrow_reading().len() > 29 && narrow_reading()[29] == 't',
        narrow_setting().len() > 17 && narrow_setting()[17] == 't',
{
    reveal_strlit("typing.Literal[\"content_hash\", \"url_based\", \"sequential\", \"file_header\"]");
    reveal_strlit("def naming_strategy(self) -> ");
    reveal_strlit(": ...");
    reveal_strlit("naming_strategy: ");
    reveal_strlit(" = 'url_based'");
}

/// No two of the four words share a character wherever they stand in a text.
proof fn words_are_apart()
    ensures
        apart(wide_reading(), narrow_reading()),
        apart(wide_setting(), narrow_setting()),
        apart_from_itself(narrow_reading()),
        apart_from_itself(narrow_setting()),
        apart(narrow_reading(), wide_setting()),
        apart(narrow_reading(), narrow_setting()),
        apart(narrow_setting(), wide_reading()),
        wide_reading().len() > 0,
        wide_setting().len() > 0,
        narrow_reading().len() > 0,
        narrow_setting().len() > 0,
{
    wide_words();
    narrow_words();
    assert(wide_reading().len() > 29 && wide_reading()[29] == 'b' && wide_setting().len() > 17
        && wide_setting()[17] == 'b') by {
        reveal_strlit("def naming_strategy(self) -> builtins.str: ...");
        reveal_strlit("naming_strategy: builtins.str = 'url_based'");
    }
    assert forall|first: Seq<char>, second: Seq<char>, offset: int|
        is_reading(first) && is_reading(second) && 0 < offset < first.len() implies !(
    #[trigger] follows(first, second, offset)) by {
        if follows(first, second, offset) {
            following_reading(first, second, offset);
        }
    }
    assert forall|first: Seq<char>, second: Seq<char>, offset: int|
        is_setting(first) && is_setting(second) && 0 < offset < first.len() implies !(
    #[trigger] follows(first, second, offset)) by {
        if follows(first, second, offset) {
            following_setting(first, second, offset);
        }
    }
    assert forall|first: Seq<char>, second: Seq<char>, offset: int|
        is_reading(first) && is_setting(second) && 0 <= offset < first.len() implies !(
    #[trigger] follows(first, second, offset)) by {
        if follows(first, second, offset) {
            following_setting(first, second, offset);
        }
    }
    assert forall|first: Seq<char>, second: Seq<char>, offset: int|
        is_setting(first) && is_reading(second) && 0 <= offset < first.len() implies !(
    #[trigger] follows(first, second, offset)) by {
        if follows(first, second, offset) {
            following_reading(first, second, offset);
        }
    }
    differ_at(wide_reading(), narrow_reading(), 29);
    differ_at(narrow_reading(), wide_reading(), 29);
    differ_at(wide_setting(), narrow_setting(), 17);
    differ_at(narrow_setting(), wide_setting(), 17);
}

proof fn differ_at(first: Seq<char>, second: Seq<char>, place: int)
    requires
        0 <= place < first.len(),
        place < second.len(),
        first[place] != second[place],
    ensures
        !follows(first, second, 0),
{
    if follows(first, second, 0) {
        assert(first[0 + place] == second[place]);
    }
}

/// Narrowing is done once: a stub that was narrowed is left as it is when it is narrowed
/// again, unless a narrow form had stood in it beside the wide form that it replaces.
pub proof fn narrowing_settles(stub: Seq<char>, after: Seq<char>)
    requires
        narrowed(stub) == Ok::<Seq<char>, Seq<char>>(after),
        occurrences(stub, wide_reading()) > 0 ==> occurrences(stub, narrow_reading()) == 0,
        occurrences(stub, wide_setting()) > 0 ==> occurrences(stub, narrow_setting()) == 0,
    ensures
        narrowed(after) == Ok::<Seq<char>, Seq<char>>(after),
{
    words_are_apart();
    let once = replaced_once(stub, wide_reading(), narrow_reading())->Ok_0;
    let reading = replacing_settles(stub, wide_reading(), narrow_reading(), once);
    if occurrences(once, wide_setting()) > 0 {
        setting_is_settled_before(stub, once);
    }
    let setting = replacing_settles(once, wide_setting(), narrow_setting(), after);
    let moved = replacing_leaves_others(
        once,
        wide_setting(),
        narrow_setting(),
        after,
        wide_reading(),
        narrow_reading(),
        reading,
    );
    none_counted(after, wide_reading(), 0);
    one_counted(after, narrow_reading(), moved, 0);
    none_counted(after, wide_setting(), 0);
    one_counted(after, narrow_setting(), setting, 0);
}

/// Narrowing where the strategy is read brings in no word for setting it.
proof fn setting_is_settled_before(stub: Seq<char>, once: Seq<char>)
    requires
        replaced_once(stub, wide_reading(), narrow_reading()) == Ok::<Seq<char>, Seq<char>>(once),
        occurrences(stub, wide_setting()) > 0 ==> occurrences(stub, narrow_setting()) == 0,
        occurrences(once, wide_setting()) > 0,
    ensures
        occurrences(once, narrow_setting()) == 0,
{
    words_are_apart();
    if occurrences(stub, wide_reading()) == 1 {
        one_found(stub, wide_reading(), 0);
        let at = first_occurrence(stub, wide_reading(), 0);
        assert(once.subrange(at, at + narrow_reading().len() as int) =~= narrow_reading());
        if absent(once, wide_setting()) {
            none_counted(once, wide_setting(), 0);
        }
        let place = choose|place: int| stands_at(once, wide_setting(), place);
        standing_apart(once, narrow_reading(), at, wide_setting(), place);
        standing_came(stub, wide_reading(), narrow_reading(), at, wide_setting(), place);
        if occurrences(stub, wide_setting()) == 0 {
            none_found(stub, wide_setting(), 0);
        }
        none_found(stub, narrow_setting(), 0);
        assert forall|other: int| !stands_at(once, narrow_setting(), other) by {
            if stands_at(once, narrow_setting(), other) {
                standing_apart(once, narrow_reading(), at, narrow_setting(), other);
                standing_came(
                    stub,
                    wide_reading(),
                    narrow_reading(),
                    at,
                    narrow_setting(),
                    other,
                );
            }
        }
        none_counted(once, narrow_setting(), 0);
    }
}

/// A word stands at a place exactly where each of its characters does.
pub proof fn words_stand_character_by_character(text: Seq<char>, needle: Seq<char>, at: int)
    ensures
        stands_at(text, needle, at) <==> 0 <= at && at + needle.len() <= text.len() && forall|i: int|
            0 <= i < needle.len() ==> text[at + i] == #[trigger] needle[i],
{
    if 0 <= at && at + needle.len() <= text.len() {
        let part = text.subrange(at, at + needle.len() as int);
        if part == needle {
            assert forall|i: int| 0 <= i < needle.len() implies text[at + i]
                == #[trigger] needle[i] by {
                assert(part[i] == text[at + i]);
            }
        }
        if forall|i: int| 0 <= i < needle.len() ==> text[at + i] == #[trigger] needle[i] {
            assert(part =~= needle);
        }
    }
}

/// A word that stands once in a text is replaced there, and what stands before and behind it
/// stays.
pub proof fn single_words_are_replaced(
    before: Seq<char>,
    needle: Seq<char>,
    after: Seq<char>,
    replacement: Seq<char>,
)
    requires
        needle.len() > 0,
        forall|at: int|
            #[trigger] stands_at(before + needle + after, needle, at) ==> at == before.len(),
    ensures
        replaced_once(before + needle + after, needle, replacement) == Ok::<Seq<char>, Seq<char>>(
            before + replacement + after,
        ),
{
    let text = before + needle + after;
    let at = before.len() as int;
    assert(text.subrange(at, at + needle.len() as int) =~= needle);
    one_counted(text, needle, at, 0);
    one_found(text, needle, 0);
    assert(first_occurrence(text, needle, 0) == at);
    assert(text.take(at) =~= before);
    assert(text.skip(at + needle.len()) =~= after);
}

/// A word that stands in two places apart from each other is not replaced: that is an error.
pub proof fn repeated_words_are_refused(
    before: Seq<char>,
    needle: Seq<char>,
    between: Seq<char>,
    after: Seq<char>,
    replacement: Seq<char>,
)
    requires
        needle.len() > 0,
    ensures
        replaced_once(before + needle + between + needle + after, needle, replacement) is Err,
{
    let text = before + needle + between + needle + after;
    let first = before.len() as int;
    let second = first + needle.len() + between.len();
    assert(text.subrange(first, first + needle.len() as int) =~= needle);
    assert(text.subrange(second, second + needle.len() as int) =~= needle);
    if occurrences(text, needle) == 0 {
        none_found(text, needle, 0);
        assert(!stands_at(text, needle, first));
    } else if occurrences(text, needle) == 1 {
        one_found(text, needle, 0);
        assert(stands_at(text, needle, first) && stands_at(text, needle, second));
    }
}

/// A text in which the word does not stand is left as it is where its replacement stands
/// once, and is an error where that does not stand either.
pub proof fn replaced_words_are_confirmed(
    text: Seq<char>,
    needle: Seq<char>,
    replacement: Seq<char>,
    place: int,
)
    requires
        replacement.len() > 0,
        forall|at: int| !stands_at(text, needle, at),
    ensures
        stands_at(text, replacement, place) && (forall|at: int|
            #[trigger] stands_at(text, replacement, at) ==> at == place) ==> replaced_once(
            text,
            needle,
            replacement,
        ) == Ok::<Seq<char>, Seq<char>>(text),
        (forall|at: int| !stands_at(text, replacement, at)) ==> replaced_once(
            text,
            needle,
            replacement,
        ) is Err,
{
    none_counted(text, needle, 0);
    if stands_at(text, replacement, place) && (forall|at: int|
        #[trigger] stands_at(text, replacement, at) ==> at == place) {
        one_counted(text, replacement, place, 0);
    }
    if forall|at: int| !stands_at(text, replacement, at) {
        none_counted(text, replacement, 0);
    }
}

/// A stub is narrowed where the naming strategy is read, and then where it is set, from any
/// text to the four names that there are.
pub proof fn stubs_are_narrowed_in_both_places(stub: Seq<char>)
    ensures
        ({
            let names =
                "typing.Literal[\"content_hash\", \"url_based\", \"sequential\", \"file_header\"]"@;
            let read = replaced_once(
                stub,
                "def naming_strategy(self) -> builtins.str: ..."@,
                "def naming_strategy(self) -> "@ + names + ": ..."@,
            );
            &&& read matches Err(message) ==> narrowed(stub) == Err::<Seq<char>, Seq<char>>(message)
            &&& read matches Ok(once) ==> narrowed(stub) == replaced_once(
                once,
                "naming_strategy: builtins.str = 'url_based'"@,
                "naming_strategy: "@ + names + " = 'url_based'"@,
            )
        }),
{
}

} // verus!
