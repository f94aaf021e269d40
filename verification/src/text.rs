//! Text, character by character: searching, numbers, and building strings.

use vstd::prelude::*;
use vstd::string::StringExecFns;

verus! {

/// `String::push` of the standard library: appends one character.
pub assume_specification[ String::push ](s: &mut String, c: char)
    ensures
        final(s)@ == old(s)@.push(c),
;

/// The characters of a string, in order.
pub fn to_chars(s: &str) -> (chars: Vec<char>)
    ensures
        chars@ == s@,
{
    let mut chars: Vec<char> = Vec::new();
    for c in it: s.chars()
        invariant
            chars@ == it.seq().take(it.index() as int),
            it.seq() == s@,
    {
        chars.push(c);
    }
    chars
}

/// The string made of the given characters.
pub fn from_chars(chars: &[char]) -> (s: String)
    ensures
        s@ == chars@,
{
    let mut s = String::new();
    let mut i: usize = 0;
    while i < chars.len()
        invariant
            i <= chars@.len(),
            s@ == chars@.take(i as int),
        decreases chars@.len() - i,
    {
        s.push(chars[i]);
        i += 1;
    }
    s
}

/// The position of the first `c` in `s`, or the length of `s` where there is none.
pub open spec fn first_index(s: Seq<char>, c: char) -> int
    decreases s.len(),
{
    if s.len() == 0 || s[0] == c {
        0
    } else {
        1 + first_index(s.drop_first(), c)
    }
}

/// The position of the last `c` in `s`, or -1 where there is none.
pub open spec fn last_index(s: Seq<char>, c: char) -> int
    decreases s.len(),
{
    if s.len() == 0 {
        -1
    } else if s.last() == c {
        s.len() - 1
    } else {
        last_index(s.drop_last(), c)
    }
}

/// What stands before the first `c`: all of `s` where there is none.
pub open spec fn before_first(s: Seq<char>, c: char) -> Seq<char> {
    s.take(first_index(s, c))
}

/// What stands after the last `c`: all of `s` where there is none.
pub open spec fn after_last(s: Seq<char>, c: char) -> Seq<char> {
    s.skip(last_index(s, c) + 1)
}

/// A position is the first one of `c` exactly when `c` stands there, or the text
/// ends there, and `c` stands nowhere before it.
pub proof fn first_index_is(s: Seq<char>, c: char, i: int)
    requires
        0 <= i <= s.len(),
        forall|j: int| 0 <= j < i ==> s[j] != c,
        i < s.len() ==> s[i] == c,
    ensures
        first_index(s, c) == i,
    decreases i,
{
    if i > 0 {
        assert forall|j: int| 0 <= j < i - 1 implies s.drop_first()[j] != c by {
            assert(s[j + 1] != c);
        }
        first_index_is(s.drop_first(), c, i - 1);
    }
}

/// What `first_index` finds: the first place of `c`, or the end.
pub proof fn first_index_finds(s: Seq<char>, c: char)
    ensures
        0 <= first_index(s, c) <= s.len(),
        first_index(s, c) < s.len() ==> s[first_index(s, c)] == c,
        s.contains(c) == (first_index(s, c) < s.len()),
        forall|j: int| 0 <= j < first_index(s, c) ==> s[j] != c,
    decreases s.len(),
{
    if s.len() > 0 && s[0] != c {
        let rest = s.drop_first();
        first_index_finds(rest, c);
        assert forall|j: int| 0 <= j < first_index(s, c) implies s[j] != c by {
            if j > 0 {
                assert(rest[j - 1] == s[j]);
            }
        }
        if s.contains(c) {
            let i = choose|i: int| 0 <= i < s.len() && s[i] == c;
            assert(rest[i - 1] == c);
        }
    }
}

/// A position is the last one of `c` exactly when `c` stands there, or the position
/// is -1, and `c` stands nowhere after it.
pub proof fn last_index_is(s: Seq<char>, c: char, i: int)
    requires
        -1 <= i < s.len(),
        forall|j: int| i < j < s.len() ==> s[j] != c,
        i >= 0 ==> s[i] == c,
    ensures
        last_index(s, c) == i,
    decreases s.len(),
{
    if s.len() > 0 && i < s.len() - 1 {
        last_index_is(s.drop_last(), c, i);
    }
}

/// What `last_index` finds: the last place of `c`, or -1.
pub proof fn last_index_finds(s: Seq<char>, c: char)
    ensures
        -1 <= last_index(s, c) < s.len(),
        last_index(s, c) >= 0 ==> s[last_index(s, c)] == c,
        forall|j: int| last_index(s, c) < j < s.len() ==> s[j] != c,
    decreases s.len(),
{
    if s.len() > 0 && s.last() != c {
        last_index_finds(s.drop_last(), c);
        assert forall|j: int| last_index(s, c) < j < s.len() implies s[j] != c by {
            if j < s.len() - 1 {
                assert(s.drop_last()[j] == s[j]);
            }
        }
    }
}

/// Finds the first `c`, or the end of the text.
pub fn find_first(s: &[char], c: char) -> (i: usize)
    ensures
        i == first_index(s@, c),
        i <= s@.len(),
{
    let mut i: usize = 0;
    while i < s.len() && s[i] != c
        invariant
            i <= s@.len(),
            forall|j: int| 0 <= j < i ==> s@[j] != c,
        decreases s@.len() - i,
    {
        i += 1;
    }
    proof {
        first_index_is(s@, c, i as int);
    }
    i
}

/// Whether two slashes stand at position `i`.
pub open spec fn slashes_at(s: Seq<char>, i: int) -> bool {
    0 <= i && i + 1 < s.len() && s[i] == '/' && s[i + 1] == '/'
}

/// The first position of two slashes, or the length of `s` where there are none.
pub open spec fn first_slashes(s: Seq<char>) -> int
    decreases s.len(),
{
    if s.len() == 0 || slashes_at(s, 0) {
        0
    } else {
        1 + first_slashes(s.drop_first())
    }
}

proof fn first_slashes_is(s: Seq<char>, i: int)
    requires
        0 <= i <= s.len(),
        forall|j: int| 0 <= j < i ==> !#[trigger] slashes_at(s, j),
        i < s.len() ==> slashes_at(s, i),
    ensures
        first_slashes(s) == i,
    decreases i,
{
    if i > 0 {
        assert(!slashes_at(s, 0));
        assert forall|j: int| 0 <= j < i - 1 implies !#[trigger] slashes_at(s.drop_first(), j) by {
            assert(!slashes_at(s, j + 1));
        }
        first_slashes_is(s.drop_first(), i - 1);
    }
}

/// Finds the first two slashes, or the end of the text.
pub fn find_slashes(s: &[char]) -> (i: usize)
    ensures
        i == first_slashes(s@),
        i < s@.len() ==> slashes_at(s@, i as int),
        i <= s@.len(),
{
    let count = s.len();
    let mut i: usize = 0;
    while i < count
        invariant
            count == s@.len(),
            i <= count,
            forall|j: int| 0 <= j < i ==> !#[trigger] slashes_at(s@, j),
        decreases count - i,
    {
        if i + 1 < count && s[i] == '/' && s[i + 1] == '/' {
            assert(slashes_at(s@, i as int));
            proof {
                first_slashes_is(s@, i as int);
            }
            return i;
        }
        assert(!slashes_at(s@, i as int));
        i += 1;
    }
    proof {
        first_slashes_is(s@, i as int);
    }
    i
}

/// Finds the last `c`.
pub fn find_last(s: &[char], c: char) -> (found: Option<usize>)
    ensures
        match found {
            Some(i) => i == last_index(s@, c) && i < s@.len(),
            None => last_index(s@, c) == -1,
        },
{
    let mut i: usize = s.len();
    while i > 0
        invariant
            i <= s@.len(),
            forall|j: int| i <= j < s@.len() ==> s@[j] != c,
        decreases i,
    {
        if s[i - 1] == c {
            proof {
                last_index_is(s@, c, i - 1);
            }
            return Some(i - 1);
        }
        i -= 1;
    }
    proof {
        last_index_is(s@, c, -1);
    }
    None
}

/// The decimal digit that stands for `d`.
pub open spec fn digit_char(d: nat) -> char {
    (48 + d) as char
}

/// `n` in decimal, without leading zeros.
pub open spec fn decimal_digits(n: nat) -> Seq<char>
    decreases n,
{
    if n < 10 {
        seq![digit_char(n)]
    } else {
        decimal_digits(n / 10).push(digit_char(n % 10))
    }
}

/// Writes `n` in decimal behind what `out` holds.
pub fn push_decimal(out: &mut String, n: u128)
    ensures
        final(out)@ == old(out)@ + decimal_digits(n as nat),
    decreases n,
{
    if n >= 10 {
        push_decimal(out, n / 10);
    }
    let d: u8 = (n % 10) as u8;
    out.push((48u8 + d) as char);
    proof {
        reveal_with_fuel(decimal_digits, 2);
        assert(out@ =~= old(out)@ + decimal_digits(n as nat));
    }
}

/// A decimal digit.
pub open spec fn is_digit(c: char) -> bool {
    '0' <= c <= '9'
}

/// The number that a row of decimal digits stands for.
pub open spec fn decimal_value(s: Seq<char>) -> nat
    decreases s.len(),
{
    if s.len() == 0 {
        0
    } else {
        10 * decimal_value(s.drop_last()) + (s.last() as nat - 48) as nat
    }
}

/// What stands behind one leading plus sign, or all of `s` where there is none.
pub open spec fn without_plus(s: Seq<char>) -> Seq<char> {
    if s.len() > 0 && s[0] == '+' {
        s.skip(1)
    } else {
        s
    }
}

/// The number that `s` spells: one or more decimal digits, with at most one plus sign
/// before them, and a value of at most `max`.
pub open spec fn parsed_decimal(s: Seq<char>, max: nat) -> Option<nat> {
    let digits = without_plus(s);
    if digits.len() > 0 && (forall|i: int| 0 <= i < digits.len() ==> is_digit(#[trigger] digits[i]))
        && decimal_value(digits) <= max {
        Some(decimal_value(digits))
    } else {
        None
    }
}

proof fn decimal_value_grows(s: Seq<char>, i: int)
    requires
        0 <= i <= s.len(),
        forall|j: int| 0 <= j < s.len() ==> is_digit(#[trigger] s[j]),
    ensures
        decimal_value(s.take(i)) <= decimal_value(s),
    decreases s.len(),
{
    if i == s.len() {
        assert(s.take(i) =~= s);
    } else {
        assert(s.drop_last().take(i) =~= s.take(i));
        assert forall|j: int| 0 <= j < s.drop_last().len() implies is_digit(
            #[trigger] s.drop_last()[j],
        ) by {
            assert(is_digit(s[j]));
        }
        decimal_value_grows(s.drop_last(), i);
        assert(is_digit(s[s.len() - 1]));
    }
}

/// Reads a number of at most `max`.
pub fn parse_decimal(s: &str, max: u64) -> (n: Option<u64>)
    ensures
        match n {
            Some(v) => parsed_decimal(s@, max as nat) == Some(v as nat),
            None => parsed_decimal(s@, max as nat) is None,
        },
{
    let chars = to_chars(s);
    let start: usize = if chars.len() > 0 && chars[0] == '+' {
        1
    } else {
        0
    };
    let ghost digits = without_plus(s@);
    assert(digits =~= s@.skip(start as int));
    if chars.len() == start {
        return None;
    }
    let mut value: u64 = 0;
    let mut i: usize = start;
    assert(digits.take(0).len() == 0);
    while i < chars.len()
        invariant
            chars@ == s@,
            start <= i <= chars@.len(),
            digits == without_plus(s@),
            digits == s@.skip(start as int),
            forall|j: int| 0 <= j < i - start ==> is_digit(#[trigger] digits[j]),
            value == decimal_value(digits.take(i - start)),
            value <= max,
        decreases chars@.len() - i,
    {
        let c = chars[i];
        assert(c == digits[i - start]);
        if !('0' <= c && c <= '9') {
            assert(!is_digit(digits[i - start]));
            return None;
        }
        let next: u128 = value as u128 * 10 + (c as u128 - 48);
        proof {
            let longer = digits.take(i - start + 1);
            assert(longer.drop_last() =~= digits.take(i - start));
            assert(longer.last() == c);
            assert(next == decimal_value(longer));
        }
        if next > max as u128 {
            proof {
                if forall|j: int| 0 <= j < digits.len() ==> is_digit(#[trigger] digits[j]) {
                    decimal_value_grows(digits, i - start + 1);
                }
            }
            return None;
        }
        value = next as u64;
        i += 1;
    }
    assert(digits.take(i - start) =~= digits);
    Some(value)
}

/// A row of digits that writes out `n` is not empty, holds only digits, and has the
/// value `n`.
pub proof fn decimal_value_of_digits(n: nat)
    ensures
        decimal_digits(n).len() > 0,
        forall|i: int| 0 <= i < decimal_digits(n).len() ==> is_digit(#[trigger] decimal_digits(n)[i]),
        decimal_value(decimal_digits(n)) == n,
    decreases n,
{
    reveal_with_fuel(decimal_value, 2);
    if n < 10 {
        assert(decimal_digits(n).drop_last() =~= Seq::<char>::empty());
    } else {
        decimal_value_of_digits(n / 10);
        assert(decimal_digits(n).drop_last() =~= decimal_digits(n / 10));
    }
}

/// A zero before a row of digits leaves its value as it is.
pub proof fn leading_zero(s: Seq<char>)
    ensures
        decimal_value(seq!['0'] + s) == decimal_value(s),
    decreases s.len(),
{
    reveal_with_fuel(decimal_value, 2);
    let longer = seq!['0'] + s;
    if s.len() == 0 {
        assert(longer.drop_last() =~= Seq::<char>::empty());
    } else {
        leading_zero(s.drop_last());
        assert(longer.drop_last() =~= seq!['0'] + s.drop_last());
    }
}

/// A number written in decimal is read back as itself.
pub proof fn decimal_round_trip(n: nat, max: nat)
    requires
        n <= max,
    ensures
        parsed_decimal(decimal_digits(n), max) == Some(n),
{
    decimal_value_of_digits(n);
    assert(is_digit(decimal_digits(n)[0]));
}

/// The lower-case hexadecimal digit that stands for `d`.
pub open spec fn hex_char(d: nat) -> char {
    if d < 10 {
        (48 + d) as char
    } else {
        (87 + d) as char
    }
}

/// The bytes in lower-case hexadecimal, two digits each, the high half first.
pub open spec fn hex_digits(bytes: Seq<u8>) -> Seq<char> {
    Seq::new(
        2 * bytes.len(),
        |i: int|
            if i % 2 == 0 {
                hex_char((bytes[i / 2] / 16) as nat)
            } else {
                hex_char((bytes[i / 2] % 16) as nat)
            },
    )
}

fn hex_digit(d: u8) -> (c: char)
    requires
        d < 16,
    ensures
        c == hex_char(d as nat),
{
    if d < 10 {
        (48u8 + d) as char
    } else {
        (87u8 + d) as char
    }
}

/// The bytes in lower-case hexadecimal.
pub fn hex(bytes: &[u8]) -> (s: String)
    ensures
        s@ == hex_digits(bytes@),
{
    let mut s = String::new();
    let mut i: usize = 0;
    while i < bytes.len()
        invariant
            i <= bytes@.len(),
            s@ == hex_digits(bytes@.take(i as int)),
        decreases bytes@.len() - i,
    {
        let b = bytes[i];
        s.push(hex_digit(b / 16));
        s.push(hex_digit(b % 16));
        i += 1;
        assert(s@ =~= hex_digits(bytes@.take(i as int)));
    }
    assert(bytes@.take(i as int) =~= bytes@);
    s
}

/// An ASCII letter or digit.
pub open spec fn is_alphanumeric(c: char) -> bool {
    'a' <= c <= 'z' || 'A' <= c <= 'Z' || '0' <= c <= '9'
}

/// Whether `c` is an ASCII letter or digit.
pub fn alphanumeric(c: char) -> (r: bool)
    ensures
        r == is_alphanumeric(c),
{
    ('a' <= c && c <= 'z') || ('A' <= c && c <= 'Z') || ('0' <= c && c <= '9')
}

/// `c` with an upper-case ASCII letter put in lower case.
pub open spec fn lower_char(c: char) -> char {
    if 'A' <= c <= 'Z' {
        (c as nat + 32) as char
    } else {
        c
    }
}

/// `s` with its upper-case ASCII letters put in lower case.
pub open spec fn lower_text(s: Seq<char>) -> Seq<char> {
    s.map_values(|c: char| lower_char(c))
}

/// `c` with an upper-case ASCII letter put in lower case.
pub fn lower(c: char) -> (r: char)
    ensures
        r == lower_char(c),
{
    if 'A' <= c && c <= 'Z' {
        (c as u8 + 32u8) as char
    } else {
        c
    }
}

/// Whether two texts are the same but for the case of their ASCII letters.
pub fn equal_ignoring_case(a: &str, b: &str) -> (r: bool)
    ensures
        r == (lower_text(a@) == lower_text(b@)),
{
    let x = to_chars(a);
    let y = to_chars(b);
    if x.len() != y.len() {
        assert(lower_text(a@).len() != lower_text(b@).len());
        return false;
    }
    let mut i: usize = 0;
    while i < x.len()
        invariant
            i <= x@.len(),
            x@ == a@,
            y@ == b@,
            x@.len() == y@.len(),
            forall|j: int| 0 <= j < i ==> lower_char(x@[j]) == lower_char(y@[j]),
        decreases x@.len() - i,
    {
        if lower(x[i]) != lower(y[i]) {
            assert(lower_text(a@)[i as int] != lower_text(b@)[i as int]);
            return false;
        }
        i += 1;
    }
    assert(lower_text(a@) =~= lower_text(b@));
    true
}

/// Whether two texts are the same.
pub fn equal(a: &str, b: &str) -> (r: bool)
    ensures
        r == (a@ == b@),
{
    let x = to_chars(a);
    let y = to_chars(b);
    if x.len() != y.len() {
        return false;
    }
    let mut i: usize = 0;
    while i < x.len()
        invariant
            i <= x@.len(),
            x@ == a@,
            y@ == b@,
            x@.len() == y@.len(),
            forall|j: int| 0 <= j < i ==> x@[j] == y@[j],
        decreases x@.len() - i,
    {
        if x[i] != y[i] {
            return false;
        }
        i += 1;
    }
    assert(x@ =~= y@);
    true
}

/// Two texts, one behind the other.
pub fn join(a: &str, b: &str) -> (s: String)
    ensures
        s@ == a@ + b@,
{
    let mut s = a.to_string();
    s.append(b);
    s
}

/// The characters of a text that may be missing.
pub open spec fn optional_text(s: Option<String>) -> Option<Seq<char>> {
    match s {
        Some(t) => Some(t@),
        None => None,
    }
}

/// A copy of a text that may be missing.
pub fn clone_optional(s: &Option<String>) -> (copy: Option<String>)
    ensures
        copy == *s,
{
    match s {
        Some(t) => Some(t.clone()),
        None => None,
    }
}

/// A text is cut at the first of several occurrences: what stands before it is all that is
/// left, whatever follows. A text without the character is left whole.
pub proof fn text_is_cut_at_the_first(before: Seq<char>, c: char, rest: Seq<char>)
    requires
        !before.contains(c),
    ensures
        before_first(before + seq![c] + rest, c) == before,
        before_first(before, c) == before,
        first_index(before + seq![c] + rest, c) == before.len(),
{
    let whole = before + seq![c] + rest;
    assert forall|j: int| 0 <= j < before.len() implies before[j] != c by {
        assert(before.contains(before[j]));
    }
    first_index_is(whole, c, before.len() as int);
    assert(whole.take(before.len() as int) =~= before);
    first_index_is(before, c, before.len() as int);
    assert(before.take(before.len() as int) =~= before);
}

/// A text is cut behind the last of several occurrences: what stands behind it is all that
/// is left, whatever comes before. A text without the character is left whole.
pub proof fn text_is_cut_behind_the_last(rest: Seq<char>, c: char, after: Seq<char>)
    requires
        !after.contains(c),
    ensures
        after_last(rest + seq![c] + after, c) == after,
        after_last(after, c) == after,
        last_index(rest + seq![c] + after, c) == rest.len(),
{
    let whole = rest + seq![c] + after;
    assert forall|j: int| 0 <= j < after.len() implies after[j] != c by {
        assert(after.contains(after[j]));
    }
    assert forall|j: int| rest.len() < j < whole.len() implies whole[j] != c by {
        assert(whole[j] == after[j - rest.len() - 1]);
    }
    last_index_is(whole, c, rest.len() as int);
    assert(whole.skip(rest.len() as int + 1) =~= after);
    last_index_is(after, c, -1);
    assert(after.skip(0) =~= after);
}

/// The first two slashes are those behind a text that holds none, whatever follows them. A
/// text without a slash has none.
pub proof fn first_slashes_are_found(before: Seq<char>, rest: Seq<char>)
    requires
        !before.contains('/'),
    ensures
        first_slashes(before + seq!['/', '/'] + rest) == before.len(),
        first_slashes(before) == before.len(),
{
    let whole = before + seq!['/', '/'] + rest;
    assert forall|j: int| 0 <= j < before.len() implies before[j] != '/' by {
        assert(before.contains(before[j]));
    }
    assert forall|j: int| 0 <= j < before.len() implies !#[trigger] slashes_at(whole, j) by {
        assert(whole[j] == before[j]);
    }
    assert(whole[before.len() as int] == '/' && whole[before.len() as int + 1] == '/');
    first_slashes_is(whole, before.len() as int);
    first_slashes_is(before, before.len() as int);
}

/// Numbers are written digit by digit, the highest first, and with no zero before them.
pub proof fn decimal_digits_are_positional(n: nat, d: nat)
    requires
        d < 10,
    ensures
        decimal_digits(d) == seq![(48 + d) as char],
        n > 0 ==> decimal_digits(10 * n + d) == decimal_digits(n).push((48 + d) as char),
        n > 0 ==> decimal_digits(n)[0] != '0',
    decreases n,
{
    if n >= 10 {
        decimal_digits_are_positional(n / 10, d);
        decimal_value_of_digits(n / 10);
        assert(decimal_digits(n)[0] == decimal_digits(n / 10)[0]);
    }
    assert((10 * n + d) / 10 == n && (10 * n + d) % 10 == d);
}

/// A row of digits is worth ten times what stands before its last digit, and that digit.
pub proof fn decimal_values_are_positional(s: Seq<char>, d: nat)
    requires
        d < 10,
    ensures
        decimal_value(Seq::empty()) == 0,
        decimal_value(s.push((48 + d) as char)) == 10 * decimal_value(s) + d,
{
    assert(s.push((48 + d) as char).drop_last() =~= s);
}

/// A number is read from one or more of the digits 0 to 9, with at most one plus sign
/// before them, as long as it is not too large. Nothing else is a number.
pub proof fn only_numbers_are_read(s: Seq<char>, max: nat)
    ensures
        s.len() > 0 && (forall|i: int| 0 <= i < s.len() ==> 48 <= #[trigger] s[i] as int <= 57)
            && decimal_value(s) <= max ==> parsed_decimal(s, max) == Some(decimal_value(s))
            && parsed_decimal(seq!['+'] + s, max) == Some(decimal_value(s)),
        (exists|i: int|
            0 <= i < s.len() && !(48 <= #[trigger] s[i] as int <= 57) && !(i == 0 && s[i] == '+'))
            ==> parsed_decimal(s, max) is None,
        parsed_decimal(Seq::empty(), max) is None,
        parsed_decimal(seq!['+'], max) is None,
        parsed_decimal(s, max) matches Some(n) ==> n <= max,
{
    if s.len() > 0 && (forall|i: int| 0 <= i < s.len() ==> 48 <= #[trigger] s[i] as int <= 57)
        && decimal_value(s) <= max {
        assert(s[0] != '+');
        assert(without_plus(s) == s);
        assert((seq!['+'] + s).skip(1) =~= s);
    }
    if exists|i: int|
        0 <= i < s.len() && !(48 <= #[trigger] s[i] as int <= 57) && !(i == 0 && s[i] == '+') {
        let i = choose|i: int|
            0 <= i < s.len() && !(48 <= #[trigger] s[i] as int <= 57) && !(i == 0 && s[i] == '+');
        let digits = without_plus(s);
        let at = if s[0] == '+' {
            i - 1
        } else {
            i
        };
        assert(digits[at] == s[i]);
        assert(!is_digit(digits[at]));
    }
    assert(seq!['+'].skip(1) =~= Seq::<char>::empty());
}

/// Each byte is written as two of the digits `0123456789abcdef`, the high half first.
pub proof fn hex_digits_are_lower_case(bytes: Seq<u8>)
    ensures
        hex_digits(bytes).len() == 2 * bytes.len(),
        forall|i: int|
            0 <= i < bytes.len() ==> {
                &&& hex_digits(bytes)[2 * i] == "0123456789abcdef"@[(#[trigger] bytes[i] / 16) as int]
                &&& hex_digits(bytes)[2 * i + 1] == "0123456789abcdef"@[(bytes[i] % 16) as int]
            },
{
    reveal_strlit("0123456789abcdef");
    assert forall|i: int| 0 <= i < bytes.len() implies {
        &&& hex_digits(bytes)[2 * i] == "0123456789abcdef"@[(#[trigger] bytes[i] / 16) as int]
        &&& hex_digits(bytes)[2 * i + 1] == "0123456789abcdef"@[(bytes[i] % 16) as int]
    } by {
        assert((2 * i) / 2 == i && (2 * i + 1) / 2 == i);
        assert((2 * i) % 2 == 0 && (2 * i + 1) % 2 == 1);
        hex_char_is(bytes[i] as nat / 16);
        hex_char_is(bytes[i] as nat % 16);
    }
}

proof fn hex_char_is(d: nat)
    requires
        d < 16,
    ensures
        hex_char(d) == "0123456789abcdef"@[d as int],
{
    reveal_strlit("0123456789abcdef");
}

/// Lower case leaves a text as long as it was, moves the letters A to Z by 32 places, and
/// changes no other character.
pub proof fn lower_case_moves_letters_alone(s: Seq<char>)
    ensures
        lower_text(s).len() == s.len(),
        forall|i: int|
            0 <= i < s.len() ==> {
                let c = #[trigger] s[i] as int;
                lower_text(s)[i] as int == if 65 <= c <= 90 {
                    c + 32
                } else {
                    c
                }
            },
{
}

/// Two texts are the same in lower case exactly when they are of one length and each pair
/// of characters is equal, or is the same ASCII letter in two cases.
pub proof fn same_but_for_case(a: Seq<char>, b: Seq<char>)
    ensures
        lower_text(a) == lower_text(b) <==> a.len() == b.len() && forall|i: int|
            #![trigger a[i]]
            #![trigger b[i]]
            0 <= i < a.len() ==> {
                ||| a[i] == b[i]
                ||| 65 <= a[i] as int <= 90 && b[i] as int == a[i] as int + 32
                ||| 65 <= b[i] as int <= 90 && a[i] as int == b[i] as int + 32
            },
{
    lower_case_moves_letters_alone(a);
    lower_case_moves_letters_alone(b);
    if lower_text(a) == lower_text(b) {
        assert forall|i: int|
            #![trigger a[i]]
            #![trigger b[i]]
            0 <= i < a.len() implies {
            ||| a[i] == b[i]
            ||| 65 <= a[i] as int <= 90 && b[i] as int == a[i] as int + 32
            ||| 65 <= b[i] as int <= 90 && a[i] as int == b[i] as int + 32
        } by {
            assert(lower_text(a)[i] == lower_text(b)[i]);
        }
    }
    if a.len() == b.len() && forall|i: int|
        #![trigger a[i]]
        #![trigger b[i]]
        0 <= i < a.len() ==> {
            ||| a[i] == b[i]
            ||| 65 <= a[i] as int <= 90 && b[i] as int == a[i] as int + 32
            ||| 65 <= b[i] as int <= 90 && a[i] as int == b[i] as int + 32
        } {
        assert forall|i: int| 0 <= i < a.len() implies lower_text(a)[i] == lower_text(b)[i] by {
            assert(a[i] == a[i]);
        }
        assert(lower_text(a) =~= lower_text(b));
    }
}

/// The letters and digits are those of ASCII, and no others.
pub proof fn letters_and_digits_are_ascii(c: char)
    ensures
        is_alphanumeric(c) <==> 48 <= c as int <= 57 || 65 <= c as int <= 90 || 97 <= c as int
            <= 122,
{
}

/// A character that stands nowhere in the first part of a text is cut at in the second, as
/// it is there.
pub proof fn cutting_passes_over_what_does_not_matter(start: Seq<char>, rest: Seq<char>, c: char)
    requires
        !start.contains(c),
    ensures
        before_first(start + rest, c) == start + before_first(rest, c),
{
    let whole = start + rest;
    first_index_finds(rest, c);
    let at = start.len() + first_index(rest, c);
    assert forall|j: int| 0 <= j < at implies whole[j] != c by {
        if j < start.len() {
            assert(start.contains(start[j]));
        } else {
            assert(whole[j] == rest[j - start.len()]);
        }
    }
    first_index_is(whole, c, at);
    assert(whole.take(at) =~= start + before_first(rest, c));
}

} // verus!
