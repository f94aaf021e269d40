//! What downloaded files are called.

use vstd::prelude::*;
use vstd::slice::{slice_subrange, slice_to_vec};
use vstd::string::{StrSliceExecFns, StringExecFns};

use crate::config::NamingStrategy;
use crate::hash;
use crate::text;

verus! {

/// The longest file name, in characters.
pub const MAX_NAME_CHARS: usize = 200;

/// Whether `bytes` holds `pattern` at position `at`.
pub open spec fn has_at(bytes: Seq<u8>, at: int, pattern: Seq<u8>) -> bool {
    at + pattern.len() <= bytes.len() && bytes.subrange(at, at + pattern.len() as int) == pattern
}

/// The extension, with its leading dot, that belongs to the format which the first
/// bytes of an image give away.
pub open spec fn magic_extension(bytes: Seq<u8>) -> Seq<char> {
    if has_at(bytes, 0, seq![0xFFu8, 0xD8, 0xFF]) {
        ".jpg"@
    } else if has_at(bytes, 0, seq![0x89u8, 0x50, 0x4E, 0x47]) {
        ".png"@
    } else if has_at(bytes, 0, seq![0x47u8, 0x49, 0x46, 0x38]) {
        ".gif"@
    } else if has_at(bytes, 0, seq![0x52u8, 0x49, 0x46, 0x46]) && has_at(
        bytes,
        8,
        seq![0x57u8, 0x45, 0x42, 0x50],
    ) {
        ".webp"@
    } else if has_at(bytes, 4, seq![0x66u8, 0x74, 0x79, 0x70]) {
        ".avif"@
    } else {
        ".bin"@
    }
}

fn four_at(bytes: &[u8], at: usize, a: u8, b: u8, c: u8, d: u8) -> (r: bool)
    requires
        at <= 8,
    ensures
        r == has_at(bytes@, at as int, seq![a, b, c, d]),
{
    let r = bytes.len() >= at + 4 && bytes[at] == a && bytes[at + 1] == b && bytes[at + 2] == c
        && bytes[at + 3] == d;
    proof {
        let pattern = seq![a, b, c, d];
        if bytes@.len() >= at + 4 {
            let part = bytes@.subrange(at as int, at + 4);
            assert(part[0] == bytes@[at as int]);
            assert(part[1] == bytes@[at + 1]);
            assert(part[2] == bytes@[at + 2]);
            assert(part[3] == bytes@[at + 3]);
            if r {
                assert(part =~= pattern);
            }
        }
    }
    r
}

/// Detect image format from magic bytes, returning the file extension (with leading
/// dot).
pub fn detect_extension_from_magic_bytes(bytes: &[u8]) -> (ext: &'static str)
    ensures
        ext@ == magic_extension(bytes@),
{
    proof {
        if bytes@.len() >= 3 {
            let part = bytes@.subrange(0, 3);
            assert(part[0] == bytes@[0]);
            assert(part[1] == bytes@[1]);
            assert(part[2] == bytes@[2]);
            if bytes@[0] == 0xFF && bytes@[1] == 0xD8 && bytes@[2] == 0xFF {
                assert(part =~= seq![0xFFu8, 0xD8, 0xFF]);
            }
        }
    }
    if bytes.len() >= 3 && bytes[0] == 0xFF && bytes[1] == 0xD8 && bytes[2] == 0xFF {
        return ".jpg";
    }
    if four_at(bytes, 0, 0x89, 0x50, 0x4E, 0x47) {
        return ".png";
    }
    if four_at(bytes, 0, 0x47, 0x49, 0x46, 0x38) {
        return ".gif";
    }
    if four_at(bytes, 0, 0x52, 0x49, 0x46, 0x46) && four_at(bytes, 8, 0x57, 0x45, 0x42, 0x50) {
        return ".webp";
    }
    if four_at(bytes, 4, 0x66, 0x74, 0x79, 0x70) {
        return ".avif";
    }
    ".bin"
}

/// A URL without its query and fragment.
pub open spec fn without_query_and_fragment(url: Seq<char>) -> Seq<char> {
    text::before_first(text::before_first(url, '?'), '#')
}

/// Strip query parameters and fragment from a URL, so that it ends with its path.
pub fn strip_url_query_and_fragment(url: &str) -> (kept: &str)
    ensures
        kept@ == without_query_and_fragment(url@),
{
    let chars = text::to_chars(url);
    let query = text::find_first(chars.as_slice(), '?');
    let before = slice_subrange(chars.as_slice(), 0, query);
    let end = text::find_first(before, '#');
    assert(url@.take(query as int).take(end as int) =~= url@.take(end as int));
    url.substring_char(0, end)
}

/// Where the host of a URL begins: behind two slashes that no other slash comes before, at
/// the start of the URL or behind the colon of its scheme.
pub open spec fn host_start(kept: Seq<char>) -> Option<int> {
    let slash = text::first_index(kept, '/');
    if text::slashes_at(kept, slash) && (slash == 0 || kept[slash - 1] == ':') {
        Some(slash + 2)
    } else {
        None
    }
}

/// The path of a URL: what begins with the first slash behind the host. A text without a
/// host is all path.
pub open spec fn url_path(url: Seq<char>) -> Seq<char> {
    let kept = without_query_and_fragment(url);
    match host_start(kept) {
        Some(start) => {
            let rest = kept.skip(start);
            rest.skip(text::first_index(rest, '/'))
        },
        None => kept,
    }
}

/// The part of a URL's path behind the last slash: nothing where the URL ends with its
/// host.
pub open spec fn last_segment(url: Seq<char>) -> Seq<char> {
    text::after_last(url_path(url), '/')
}

/// What stands behind the last slash of a URL's path.
fn segment_of(url: &str) -> (segment: Vec<char>)
    ensures
        segment@ == last_segment(url@),
{
    let kept = text::to_chars(strip_url_query_and_fragment(url));
    let end = kept.len();
    let slash = text::find_first(kept.as_slice(), '/');
    proof {
        text::first_index_finds(kept@, '/');
    }
    let has_host = slash < end && end - slash >= 2 && kept[slash + 1] == '/' && (slash == 0
        || kept[slash - 1] == ':');
    let host_end: usize = if has_host {
        let rest = slice_subrange(kept.as_slice(), slash + 2, end);
        assert(rest@ =~= kept@.skip(slash + 2));
        slash + 2 + text::find_first(rest, '/')
    } else {
        0
    };
    let path = slice_subrange(kept.as_slice(), host_end, end);
    assert(path@ =~= url_path(url@));
    let start: usize = match text::find_last(path, '/') {
        Some(i) => i + 1,
        None => 0,
    };
    let rest = slice_subrange(path, start, path.len());
    assert(rest@ =~= last_segment(url@));
    slice_to_vec(rest)
}

/// The extension that a URL names, in lower case: what stands behind the last dot of its
/// last segment, where that is 1 to 10 ASCII letters and digits.
pub open spec fn url_extension(url: Seq<char>) -> Option<Seq<char>> {
    let segment = last_segment(url);
    let ext = text::after_last(segment, '.');
    if segment.contains('.') && 0 < ext.len() <= 10 && (forall|i: int|
        0 <= i < ext.len() ==> text::is_alphanumeric(#[trigger] ext[i])) {
        Some(text::lower_text(ext))
    } else {
        None
    }
}

/// Extract file extension from URL path, returning None if not found.
pub fn extension_from_url(url: &str) -> (ext: Option<String>)
    ensures
        match ext {
            Some(e) => url_extension(url@) == Some(e@),
            None => url_extension(url@) is None,
        },
{
    let segment = segment_of(url);
    let ghost seg = last_segment(url@);
    proof {
        text::last_index_finds(seg, '.');
    }
    let dot = match text::find_last(segment.as_slice(), '.') {
        Some(i) => i,
        None => {
            return None;
        },
    };
    assert(seg[dot as int] == '.');
    let ext = slice_subrange(segment.as_slice(), dot + 1, segment.len());
    assert(ext@ =~= text::after_last(seg, '.'));
    if ext.len() == 0 || ext.len() > 10 {
        return None;
    }
    let mut lowered = String::new();
    let mut i: usize = 0;
    while i < ext.len()
        invariant
            i <= ext@.len(),
            ext@ == text::after_last(seg, '.'),
            seg == last_segment(url@),
            forall|j: int| 0 <= j < i ==> text::is_alphanumeric(#[trigger] ext@[j]),
            lowered@ == text::lower_text(ext@.take(i as int)),
        decreases ext@.len() - i,
    {
        let c = ext[i];
        if !text::alphanumeric(c) {
            return None;
        }
        lowered.push(text::lower(c));
        i += 1;
        assert(lowered@ =~= text::lower_text(ext@.take(i as int)));
    }
    assert(ext@.take(i as int) =~= ext@);
    Some(lowered)
}

/// The characters that a file name may hold.
pub open spec fn is_safe(c: char) -> bool {
    text::is_alphanumeric(c) || c == '.' || c == '-' || c == '_'
}

/// What `c` becomes in a file name.
pub open spec fn safe_char(c: char) -> char {
    if text::is_alphanumeric(c) || c == '.' || c == '-' {
        c
    } else {
        '_'
    }
}

/// `name` with every character that is not an ASCII letter or digit, a dot or a hyphen
/// replaced by an underscore.
pub open spec fn sanitized(name: Seq<char>) -> Seq<char> {
    name.map_values(|c: char| safe_char(c))
}

/// Sanitize a filename by replacing special characters with underscores.
pub fn sanitize(name: &str) -> (s: String)
    ensures
        s@ == sanitized(name@),
{
    let chars = text::to_chars(name);
    sanitize_chars(chars.as_slice())
}

fn sanitize_chars(name: &[char]) -> (s: String)
    ensures
        s@ == sanitized(name@),
{
    let mut s = String::new();
    let mut i: usize = 0;
    while i < name.len()
        invariant
            i <= name@.len(),
            s@ == sanitized(name@.take(i as int)),
        decreases name@.len() - i,
    {
        let c = name[i];
        if text::alphanumeric(c) || c == '.' || c == '-' {
            s.push(c);
        } else {
            s.push('_');
        }
        i += 1;
        assert(s@ =~= sanitized(name@.take(i as int)));
    }
    assert(name@.take(i as int) =~= name@);
    s
}

/// `name` cut down to 200 characters. The extension, from the last dot on, is kept where
/// that leaves room for at least one character before it; otherwise the first 200
/// characters are.
pub open spec fn truncated(name: Seq<char>) -> Seq<char> {
    let dot = text::last_index(name, '.');
    let ext_len = name.len() - dot;
    if name.len() <= MAX_NAME_CHARS {
        name
    } else if dot >= 0 && ext_len < MAX_NAME_CHARS {
        name.take(MAX_NAME_CHARS - ext_len) + name.skip(dot)
    } else {
        name.take(MAX_NAME_CHARS as int)
    }
}

/// Truncate a filename to 200 characters (preserving extension).
pub fn truncate_filename(name: &str) -> (s: String)
    ensures
        s@ == truncated(name@),
        s@.len() <= MAX_NAME_CHARS,
{
    let chars = text::to_chars(name);
    if chars.len() <= MAX_NAME_CHARS {
        return name.to_string();
    }
    if let Some(dot) = text::find_last(chars.as_slice(), '.') {
        let ext_len = chars.len() - dot;
        if ext_len < MAX_NAME_CHARS {
            let mut s = text::from_chars(
                slice_subrange(chars.as_slice(), 0, MAX_NAME_CHARS - ext_len),
            );
            s.append(name.substring_char(dot, chars.len()));
            assert(s@ =~= truncated(name@));
            return s;
        }
    }
    let s = text::from_chars(slice_subrange(chars.as_slice(), 0, MAX_NAME_CHARS));
    assert(s@ =~= truncated(name@));
    s
}

/// Whether a segment can serve as a file name: it holds a dot.
pub open spec fn names_a_file(segment: Seq<char>) -> bool {
    segment.contains('.')
}

fn holds_dot(segment: &[char]) -> (r: bool)
    ensures
        r == names_a_file(segment@),
{
    proof {
        text::last_index_finds(segment@, '.');
    }
    match text::find_last(segment, '.') {
        Some(i) => {
            assert(segment@[i as int] == '.');
            true
        },
        None => false,
    }
}

/// The name taken from the URL, where `digest` is the digest of the URL: its last
/// segment, or 32 hexadecimal digits and `.bin` where that segment holds no dot.
pub open spec fn url_based(url: Seq<char>, digest: Seq<u8>) -> Seq<char> {
    let segment = last_segment(url);
    if names_a_file(segment) {
        sanitized(segment)
    } else {
        hash::hex_prefix(digest, 16) + ".bin"@
    }
}

/// The name taken from the URL, where `digest` is the digest of the URL.
pub fn url_based_name_from(url: &str, digest: &[u8]) -> (s: String)
    ensures
        s@ == url_based(url@, digest@),
{
    let segment = segment_of(url);
    if !holds_dot(segment.as_slice()) {
        let mut s = hash::short_hex(digest, 16);
        s.append(".bin");
        return s;
    }
    sanitize_chars(segment.as_slice())
}

/// The name taken from the URL.
pub fn url_based_name(url: &str) -> (s: String)
    ensures
        s@ == url_based(url@, hash::sha256_digest(vstd::utf8::encode_utf8(url@))),
{
    let digest = hash::sha256(url.as_bytes());
    url_based_name_from(url, digest.as_slice())
}

/// The extension, without its dot, that the URL names or else the bytes give away.
pub open spec fn inferred_extension(url: Seq<char>, bytes: Seq<u8>) -> Seq<char> {
    match url_extension(url) {
        Some(ext) => ext,
        None => magic_extension(bytes).skip(1),
    }
}

fn infer_extension(url: &str, bytes: &[u8]) -> (ext: String)
    ensures
        ext@ == inferred_extension(url@, bytes@),
{
    match extension_from_url(url) {
        Some(ext) => ext,
        None => {
            let detected = detect_extension_from_magic_bytes(bytes);
            proof {
                magic_extension_shape(bytes@);
            }
            let rest = detected.substring_char(1, detected.unicode_len());
            assert(rest@ =~= detected@.skip(1));
            rest.to_string()
        },
    }
}

/// `n` in decimal, with zeros put before it up to three digits.
pub open spec fn padded_index(n: nat) -> Seq<char> {
    if n < 10 {
        "00"@ + text::decimal_digits(n)
    } else if n < 100 {
        "0"@ + text::decimal_digits(n)
    } else {
        text::decimal_digits(n)
    }
}

/// The name made of the position in the batch and the inferred extension.
pub open spec fn sequential(index: nat, url: Seq<char>, bytes: Seq<u8>) -> Seq<char> {
    padded_index(index) + "."@ + inferred_extension(url, bytes)
}

/// The name made of the position in the batch and the inferred extension.
pub fn sequential_name(index: usize, url: &str, bytes: &[u8]) -> (s: String)
    ensures
        s@ == sequential(index as nat, url@, bytes@),
{
    let mut s = if index < 10 {
        "00".to_string()
    } else if index < 100 {
        "0".to_string()
    } else {
        String::new()
    };
    text::push_decimal(&mut s, index as u128);
    assert(s@ =~= padded_index(index as nat));
    s.append(".");
    let ext = infer_extension(url, bytes);
    s.append(ext.as_str());
    s
}

/// The name made of the digest of the content and the inferred extension.
pub open spec fn content_hashed(bytes: Seq<u8>, url: Seq<char>, digest: Seq<u8>) -> Seq<char> {
    hash::hex_prefix(digest, 16) + "."@ + inferred_extension(url, bytes)
}

/// The name made of `digest`, the digest of the content, and the inferred extension.
pub fn content_hash_name_from(bytes: &[u8], url: &str, digest: &[u8]) -> (s: String)
    ensures
        s@ == content_hashed(bytes@, url@, digest@),
{
    let mut s = hash::short_hex(digest, 16);
    s.append(".");
    let ext = infer_extension(url, bytes);
    s.append(ext.as_str());
    s
}

/// The name made of the digest of the content and the inferred extension.
pub fn content_hash_name(bytes: &[u8], url: &str) -> (s: String)
    ensures
        s@ == content_hashed(bytes@, url@, hash::sha256_digest(bytes@)),
{
    let digest = hash::sha256(bytes);
    content_hash_name_from(bytes, url, digest.as_slice())
}

/// The name taken from the URL with the extension that the bytes give away, where
/// `digest` is the digest of the URL: 16 hexadecimal digits stand in for a last segment
/// that holds no dot.
pub open spec fn file_header(url: Seq<char>, bytes: Seq<u8>, digest: Seq<u8>) -> Seq<char> {
    let segment = last_segment(url);
    if names_a_file(segment) {
        let clean = sanitized(segment);
        clean.take(text::last_index(clean, '.')) + magic_extension(bytes)
    } else {
        hash::hex_prefix(digest, 8) + magic_extension(bytes)
    }
}

/// The name taken from the URL with the extension that the bytes give away, where
/// `digest` is the digest of the URL.
pub fn file_header_name_from(url: &str, bytes: &[u8], digest: &[u8]) -> (s: String)
    ensures
        s@ == file_header(url@, bytes@, digest@),
{
    let detected = detect_extension_from_magic_bytes(bytes);
    let segment = segment_of(url);
    if !holds_dot(segment.as_slice()) {
        let mut s = hash::short_hex(digest, 8);
        s.append(detected);
        return s;
    }
    let clean = text::to_chars(sanitize_chars(segment.as_slice()).as_str());
    proof {
        sanitized_last_dot(segment@);
    }
    let dot: usize = match text::find_last(clean.as_slice(), '.') {
        Some(i) => i,
        None => clean.len(),
    };
    let stem = slice_subrange(clean.as_slice(), 0, dot);
    let mut s = text::from_chars(stem);
    s.append(detected);
    s
}

/// The name taken from the URL with the extension that the bytes give away.
pub fn file_header_name(url: &str, bytes: &[u8]) -> (s: String)
    ensures
        s@ == file_header(url@, bytes@, hash::sha256_digest(vstd::utf8::encode_utf8(url@))),
{
    let digest = hash::sha256(url.as_bytes());
    file_header_name_from(url, bytes, digest.as_slice())
}

/// The name of a downloaded file before it is cut to length, where `url_digest` and
/// `body_digest` are the digests of the URL and of the content.
pub open spec fn raw_name(
    url: Seq<char>,
    index: nat,
    bytes: Seq<u8>,
    strategy: NamingStrategy,
    url_digest: Seq<u8>,
    body_digest: Seq<u8>,
) -> Seq<char> {
    match strategy {
        NamingStrategy::UrlBased => url_based(url, url_digest),
        NamingStrategy::Sequential => sequential(index, url, bytes),
        NamingStrategy::ContentHash => content_hashed(bytes, url, body_digest),
        NamingStrategy::FileHeader => file_header(url, bytes, url_digest),
    }
}

/// The name of a downloaded file.
pub open spec fn filename(
    url: Seq<char>,
    index: nat,
    bytes: Seq<u8>,
    strategy: NamingStrategy,
) -> Seq<char> {
    truncated(
        raw_name(
            url,
            index,
            bytes,
            strategy,
            hash::sha256_digest(vstd::utf8::encode_utf8(url)),
            hash::sha256_digest(bytes),
        ),
    )
}

/// Generate a filename for a downloaded image based on the configured naming strategy.
pub fn generate_filename(url: &str, index: usize, bytes: &[u8], strategy: &NamingStrategy) -> (s:
    String)
    ensures
        s@ == filename(url@, index as nat, bytes@, *strategy),
{
    let raw = match strategy {
        NamingStrategy::UrlBased => url_based_name(url),
        NamingStrategy::Sequential => sequential_name(index, url, bytes),
        NamingStrategy::ContentHash => content_hash_name(bytes, url),
        NamingStrategy::FileHeader => file_header_name(url, bytes),
    };
    truncate_filename(raw.as_str())
}

proof fn magic_extension_shape(bytes: Seq<u8>)
    ensures
        4 <= magic_extension(bytes).len() <= 5,
        magic_extension(bytes)[0] == '.',
        forall|i: int|
            1 <= i < magic_extension(bytes).len() ==> text::is_alphanumeric(
                #[trigger] magic_extension(bytes)[i],
            ),
{
    reveal_strlit(".jpg");
    reveal_strlit(".png");
    reveal_strlit(".gif");
    reveal_strlit(".webp");
    reveal_strlit(".avif");
    reveal_strlit(".bin");
}

/// Sanitizing moves no dot.
proof fn sanitized_last_dot(name: Seq<char>)
    ensures
        text::last_index(sanitized(name), '.') == text::last_index(name, '.'),
        names_a_file(name) ==> 0 <= text::last_index(name, '.') < name.len(),
{
    text::last_index_finds(name, '.');
    if names_a_file(name) {
        let at = choose|i: int| 0 <= i < name.len() && name[i] == '.';
        assert(text::last_index(name, '.') >= at);
    }
    text::last_index_is(sanitized(name), '.', text::last_index(name, '.'));
}

proof fn hex_prefix_shape(digest: Seq<u8>, count: nat)
    ensures
        hash::hex_prefix(digest, count).len() <= 2 * count,
        forall|i: int|
            0 <= i < hash::hex_prefix(digest, count).len() ==> text::is_alphanumeric(
                #[trigger] hash::hex_prefix(digest, count)[i],
            ),
{
}

proof fn url_extension_shape(url: Seq<char>)
    ensures
        url_extension(url) matches Some(ext) ==> 0 < ext.len() <= 10 && forall|i: int|
            0 <= i < ext.len() ==> text::is_alphanumeric(#[trigger] ext[i]),
{
    if let Some(ext) = url_extension(url) {
        let raw = text::after_last(last_segment(url), '.');
        assert forall|i: int| 0 <= i < ext.len() implies text::is_alphanumeric(
            #[trigger] ext[i],
        ) by {
            assert(text::is_alphanumeric(raw[i]));
        }
    }
}

proof fn inferred_extension_shape(url: Seq<char>, bytes: Seq<u8>)
    ensures
        0 < inferred_extension(url, bytes).len() <= 10,
        forall|i: int|
            0 <= i < inferred_extension(url, bytes).len() ==> text::is_alphanumeric(
                #[trigger] inferred_extension(url, bytes)[i],
            ),
{
    url_extension_shape(url);
    magic_extension_shape(bytes);
}

/// A number below the given power of ten has at most so many decimal digits, and its text
/// holds nothing else.
proof fn decimal_digits_shape(n: nat, count: nat)
    requires
        count > 0,
        n < vstd::arithmetic::power::pow(10, count),
    ensures
        0 < text::decimal_digits(n).len() <= count,
        forall|i: int|
            0 <= i < text::decimal_digits(n).len() ==> text::is_digit(
                #[trigger] text::decimal_digits(n)[i],
            ),
    decreases count,
{
    vstd::arithmetic::power::lemma_pow0(10);
    vstd::arithmetic::power::lemma_pow1(10);
    if n >= 10 {
        let less = (count - 1) as nat;
        assert(count > 1);
        assert(vstd::arithmetic::power::pow(10, count) == 10 * vstd::arithmetic::power::pow(
            10,
            less,
        )) by {
            reveal(vstd::arithmetic::power::pow);
        }
        assert(n / 10 < vstd::arithmetic::power::pow(10, less));
        decimal_digits_shape(n / 10, less);
    }
}

proof fn padded_index_shape(n: nat)
    requires
        n <= usize::MAX,
    ensures
        0 < padded_index(n).len() <= 20,
        forall|i: int|
            0 <= i < padded_index(n).len() ==> text::is_digit(#[trigger] padded_index(n)[i]),
        text::decimal_value(padded_index(n)) == n,
{
    reveal_strlit("00");
    reveal_strlit("0");
    assert(usize::MAX < vstd::arithmetic::power::pow(10, 20)) by {
        reveal(vstd::arithmetic::power::pow);
        reveal_with_fuel(vstd::arithmetic::power::pow, 21);
    }
    decimal_digits_shape(n, 20);
    if n < 100 {
        assert(n < vstd::arithmetic::power::pow(10, 2)) by {
            reveal(vstd::arithmetic::power::pow);
            reveal_with_fuel(vstd::arithmetic::power::pow, 3);
        }
        decimal_digits_shape(n, 2);
    }
    text::decimal_value_of_digits(n);
    if n < 10 {
        text::leading_zero(text::decimal_digits(n));
        text::leading_zero("0"@ + text::decimal_digits(n));
        assert("00"@ + text::decimal_digits(n) =~= seq!['0'] + (seq!['0'] + text::decimal_digits(
            n,
        )));
        assert("0"@ + text::decimal_digits(n) =~= seq!['0'] + text::decimal_digits(n));
    } else if n < 100 {
        text::leading_zero(text::decimal_digits(n));
        assert("0"@ + text::decimal_digits(n) =~= seq!['0'] + text::decimal_digits(n));
    }
}

/// Every name has at least one character and at most 200, and holds nothing but ASCII
/// letters and digits, dots, hyphens and underscores.
pub proof fn names_are_short_and_safe(
    url: Seq<char>,
    index: nat,
    bytes: Seq<u8>,
    strategy: NamingStrategy,
)
    requires
        index <= usize::MAX,
    ensures
        0 < filename(url, index, bytes, strategy).len() <= MAX_NAME_CHARS,
        forall|i: int|
            0 <= i < filename(url, index, bytes, strategy).len() ==> is_safe(
                #[trigger] filename(url, index, bytes, strategy)[i],
            ),
{
    let url_digest = hash::sha256_digest(vstd::utf8::encode_utf8(url));
    let body_digest = hash::sha256_digest(bytes);
    let raw = raw_name(url, index, bytes, strategy, url_digest, body_digest);
    reveal_strlit(".bin");
    reveal_strlit(".");
    hex_prefix_shape(url_digest, 16);
    hex_prefix_shape(url_digest, 8);
    hex_prefix_shape(body_digest, 16);
    inferred_extension_shape(url, bytes);
    magic_extension_shape(bytes);
    padded_index_shape(index);
    let segment = last_segment(url);
    sanitized_last_dot(segment);
    assert(raw.len() > 0);
    assert forall|i: int| 0 <= i < raw.len() implies is_safe(#[trigger] raw[i]) by {
        let ext = inferred_extension(url, bytes);
        match strategy {
            NamingStrategy::UrlBased => {
                let stem = hash::hex_prefix(url_digest, 16);
                if !names_a_file(segment) && i < stem.len() {
                    assert(raw[i] == stem[i]);
                }
            },
            NamingStrategy::Sequential => {
                let stem = padded_index(index);
                if i < stem.len() {
                    assert(raw[i] == stem[i]);
                } else if i > stem.len() {
                    assert(raw[i] == ext[i - stem.len() - 1]);
                }
            },
            NamingStrategy::ContentHash => {
                let stem = hash::hex_prefix(body_digest, 16);
                if i < stem.len() {
                    assert(raw[i] == stem[i]);
                } else if i > stem.len() {
                    assert(raw[i] == ext[i - stem.len() - 1]);
                }
            },
            NamingStrategy::FileHeader => {
                let detected = magic_extension(bytes);
                let cut = raw.len() - detected.len();
                if i < cut {
                    let stem = hash::hex_prefix(url_digest, 8);
                    if names_a_file(segment) {
                        assert(raw[i] == sanitized(segment)[i]);
                    } else {
                        assert(raw[i] == stem[i]);
                    }
                } else {
                    assert(raw[i] == detected[i - cut]);
                }
            },
        }
    }
    text::last_index_finds(raw, '.');
}

/// Cutting a name to length keeps its extension, where the extension with its dot is
/// shorter than 200 characters.
pub proof fn truncation_keeps_extension(name: Seq<char>)
    requires
        name.contains('.'),
        text::after_last(name, '.').len() + 1 < MAX_NAME_CHARS,
    ensures
        truncated(name).contains('.'),
        text::after_last(truncated(name), '.') == text::after_last(name, '.'),
{
    text::last_index_finds(name, '.');
    let dot = text::last_index(name, '.');
    let first = choose|i: int| 0 <= i < name.len() && name[i] == '.';
    assert(dot >= first);
    let ext_len = name.len() - dot;
    if name.len() > MAX_NAME_CHARS {
        let short = truncated(name);
        assert(short[MAX_NAME_CHARS - ext_len] == '.');
        assert forall|j: int| MAX_NAME_CHARS - ext_len < j < short.len() implies short[j] != '.' by {
            assert(short[j] == name[j - (MAX_NAME_CHARS - ext_len) + dot]);
        }
        text::last_index_is(short, '.', MAX_NAME_CHARS - ext_len);
        assert(text::after_last(short, '.') =~= text::after_last(name, '.'));
    }
}

/// A name taken from the URL keeps the extension of the URL's last segment, with its
/// special characters replaced, where the extension with its dot is shorter than 200
/// characters.
pub proof fn url_based_names_keep_their_extension(url: Seq<char>, index: nat, bytes: Seq<u8>)
    requires
        names_a_file(last_segment(url)),
        text::after_last(last_segment(url), '.').len() + 1 < MAX_NAME_CHARS,
    ensures
        text::after_last(filename(url, index, bytes, NamingStrategy::UrlBased), '.') == sanitized(
            text::after_last(last_segment(url), '.'),
        ),
{
    let segment = last_segment(url);
    let name = sanitized(segment);
    sanitized_last_dot(segment);
    text::last_index_finds(name, '.');
    assert(name[text::last_index(name, '.')] == '.');
    assert(text::after_last(name, '.') =~= sanitized(text::after_last(segment, '.')));
    truncation_keeps_extension(name);
}

/// A URL that ends with its host names no file and no extension: its host is never taken
/// for either.
pub proof fn hosts_are_no_file_names(url: Seq<char>, index: nat, bytes: Seq<u8>)
    requires
        ({
            let kept = without_query_and_fragment(url);
            host_start(kept) matches Some(start) && !kept.skip(start).contains('/')
        }),
    ensures
        last_segment(url).len() == 0,
        url_extension(url) is None,
        filename(url, index, bytes, NamingStrategy::UrlBased) == hash::hex_prefix(
            hash::sha256_digest(vstd::utf8::encode_utf8(url)),
            16,
        ) + ".bin"@,
{
    let kept = without_query_and_fragment(url);
    text::first_index_finds(kept, '/');
    text::first_index_finds(kept.skip(host_start(kept).unwrap()), '/');
    assert(url_path(url).len() == 0);
    text::last_index_finds(url_path(url), '/');
    reveal_strlit(".bin");
    hex_prefix_shape(hash::sha256_digest(vstd::utf8::encode_utf8(url)), 16);
}

/// What a query or a fragment adds to a URL does not change the name, where the last
/// segment of the URL's path holds a dot, or else where the name is not taken from the URL.
pub proof fn query_and_fragment_do_not_reach_names(
    url: Seq<char>,
    added: Seq<char>,
    index: nat,
    bytes: Seq<u8>,
    strategy: NamingStrategy,
)
    requires
        !url.contains('?'),
        !url.contains('#'),
        added.len() > 0,
        added[0] == '?' || added[0] == '#',
        names_a_file(last_segment(url)) || strategy is Sequential || strategy is ContentHash,
    ensures
        filename(url + added, index, bytes, strategy) == filename(url, index, bytes, strategy),
{
    let whole = url + added;
    let before = text::before_first(whole, '?');
    text::first_index_finds(whole, '?');
    let query = text::first_index(whole, '?');
    if query < url.len() {
        assert(url[query] == '?');
    }
    assert forall|j: int| 0 <= j < url.len() implies url[j] != '?' && url[j] != '#' by {
        assert(url.contains(url[j]));
    }
    if added[0] == '?' {
        text::first_index_is(whole, '?', url.len() as int);
        assert(before =~= url);
    } else {
        assert(whole[url.len() as int] == '#');
    }
    text::first_index_is(before, '#', url.len() as int);
    text::first_index_is(url, '?', url.len() as int);
    text::first_index_is(url, '#', url.len() as int);
    assert(url.take(url.len() as int) =~= url);
    assert(without_query_and_fragment(whole) =~= url);
    assert(without_query_and_fragment(url) =~= url);
}

/// A name by content hash is the hash, a dot and the inferred extension, so that equal
/// contents give equal names up to the first dot, whatever their URLs.
pub proof fn content_hash_names_share_their_stem(url: Seq<char>, index: nat, bytes: Seq<u8>)
    ensures
        filename(url, index, bytes, NamingStrategy::ContentHash) == hash::hex_prefix(
            hash::sha256_digest(bytes),
            16,
        ) + "."@ + inferred_extension(url, bytes),
        text::before_first(filename(url, index, bytes, NamingStrategy::ContentHash), '.')
            == hash::hex_prefix(hash::sha256_digest(bytes), 16),
{
    let stem = hash::hex_prefix(hash::sha256_digest(bytes), 16);
    let name = stem + "."@ + inferred_extension(url, bytes);
    reveal_strlit(".");
    hex_prefix_shape(hash::sha256_digest(bytes), 16);
    inferred_extension_shape(url, bytes);
    assert(name.len() <= MAX_NAME_CHARS);
    assert forall|j: int| 0 <= j < stem.len() implies name[j] != '.' by {
        assert(text::is_alphanumeric(stem[j]));
    }
    text::first_index_is(name, '.', stem.len() as int);
    assert(name.take(stem.len() as int) =~= stem);
}

/// A name by file header ends in the extension that the bytes give away.
pub proof fn file_header_names_end_in_detected_extension(
    url: Seq<char>,
    index: nat,
    bytes: Seq<u8>,
)
    ensures
        ({
            let name = filename(url, index, bytes, NamingStrategy::FileHeader);
            let ext = magic_extension(bytes);
            name.len() >= ext.len() && name.skip(name.len() - ext.len()) == ext
        }),
{
    let url_digest = hash::sha256_digest(vstd::utf8::encode_utf8(url));
    let raw = file_header(url, bytes, url_digest);
    let ext = magic_extension(bytes);
    magic_extension_shape(bytes);
    let dot = raw.len() - ext.len();
    assert(raw.skip(dot) =~= ext);
    assert(raw[dot] == ext[0]);
    assert forall|j: int| dot < j < raw.len() implies raw[j] != '.' by {
        assert(raw[j] == ext[j - dot]);
    }
    text::last_index_is(raw, '.', dot);
    let name = truncated(raw);
    assert(name.skip(name.len() - ext.len()) =~= ext);
}

/// Sequential names of different positions differ.
pub proof fn sequential_names_differ(
    url: Seq<char>,
    index: nat,
    bytes: Seq<u8>,
    other_url: Seq<char>,
    other_index: nat,
    other_bytes: Seq<u8>,
)
    requires
        index <= usize::MAX,
        other_index <= usize::MAX,
        index != other_index,
    ensures
        filename(url, index, bytes, NamingStrategy::Sequential) != filename(
            other_url,
            other_index,
            other_bytes,
            NamingStrategy::Sequential,
        ),
{
    sequential_name_shape(url, index, bytes);
    sequential_name_shape(other_url, other_index, other_bytes);
    padded_index_shape(index);
    padded_index_shape(other_index);
}

proof fn sequential_name_shape(url: Seq<char>, index: nat, bytes: Seq<u8>)
    requires
        index <= usize::MAX,
    ensures
        filename(url, index, bytes, NamingStrategy::Sequential) == sequential(index, url, bytes),
        text::before_first(sequential(index, url, bytes), '.') == padded_index(index),
{
    let name = sequential(index, url, bytes);
    let stem = padded_index(index);
    reveal_strlit(".");
    padded_index_shape(index);
    inferred_extension_shape(url, bytes);
    assert forall|j: int| 0 <= j < stem.len() implies name[j] != '.' by {
        assert(text::is_digit(stem[j]));
    }
    text::first_index_is(name, '.', stem.len() as int);
    assert(name.take(stem.len() as int) =~= stem);
}

proof fn holds_four(bytes: Seq<u8>, at: int, a: u8, b: u8, c: u8, d: u8)
    requires
        0 <= at,
    ensures
        has_at(bytes, at, seq![a, b, c, d]) <==> at + 4 <= bytes.len() && bytes[at] == a
            && bytes[at + 1] == b && bytes[at + 2] == c && bytes[at + 3] == d,
{
    if at + 4 <= bytes.len() {
        let part = bytes.subrange(at, at + 4);
        assert(part[0] == bytes[at] && part[1] == bytes[at + 1] && part[2] == bytes[at + 2]
            && part[3] == bytes[at + 3]);
        if bytes[at] == a && bytes[at + 1] == b && bytes[at + 2] == c && bytes[at + 3] == d {
            assert(part =~= seq![a, b, c, d]);
        }
    }
}

/// A format is told by the bytes that it begins with, and by nothing else: a JPEG by FF D8
/// FF, a PNG by 89 and `PNG`, a GIF by `GIF8`, a WebP file by `RIFF` and, behind any four
/// bytes, `WEBP`. Of what is left, `ftyp` behind any four bytes tells an AVIF file. Anything
/// else is only bytes.
pub proof fn formats_are_told_by_their_first_bytes(bytes: Seq<u8>)
    ensures
        ({
            let n = bytes.len();
            let jpeg = n >= 3 && bytes[0] == 0xFF && bytes[1] == 0xD8 && bytes[2] == 0xFF;
            let png = n >= 4 && bytes[0] == 0x89 && bytes[1] == 0x50 && bytes[2] == 0x4E && bytes[3]
                == 0x47;
            let gif = n >= 4 && bytes[0] == 0x47 && bytes[1] == 0x49 && bytes[2] == 0x46 && bytes[3]
                == 0x38;
            let webp = n >= 12 && bytes[0] == 0x52 && bytes[1] == 0x49 && bytes[2] == 0x46
                && bytes[3] == 0x46 && bytes[8] == 0x57 && bytes[9] == 0x45 && bytes[10] == 0x42
                && bytes[11] == 0x50;
            let avif = n >= 8 && bytes[4] == 0x66 && bytes[5] == 0x74 && bytes[6] == 0x79
                && bytes[7] == 0x70;
            &&& jpeg ==> magic_extension(bytes) == seq!['.', 'j', 'p', 'g']
            &&& png ==> magic_extension(bytes) == seq!['.', 'p', 'n', 'g']
            &&& gif ==> magic_extension(bytes) == seq!['.', 'g', 'i', 'f']
            &&& webp ==> magic_extension(bytes) == seq!['.', 'w', 'e', 'b', 'p']
            &&& avif && !jpeg && !png && !gif && !webp ==> magic_extension(bytes) == seq![
                '.',
                'a',
                'v',
                'i',
                'f',
            ]
            &&& !jpeg && !png && !gif && !webp && !avif ==> magic_extension(bytes) == seq![
                '.',
                'b',
                'i',
                'n',
            ]
        }),
{
    reveal_strlit(".jpg");
    reveal_strlit(".png");
    reveal_strlit(".gif");
    reveal_strlit(".webp");
    reveal_strlit(".avif");
    reveal_strlit(".bin");
    assert(".jpg"@ =~= seq!['.', 'j', 'p', 'g']);
    assert(".png"@ =~= seq!['.', 'p', 'n', 'g']);
    assert(".gif"@ =~= seq!['.', 'g', 'i', 'f']);
    assert(".webp"@ =~= seq!['.', 'w', 'e', 'b', 'p']);
    assert(".avif"@ =~= seq!['.', 'a', 'v', 'i', 'f']);
    assert(".bin"@ =~= seq!['.', 'b', 'i', 'n']);
    if bytes.len() >= 3 {
        let part = bytes.subrange(0, 3);
        assert(part[0] == bytes[0] && part[1] == bytes[1] && part[2] == bytes[2]);
        if bytes[0] == 0xFF && bytes[1] == 0xD8 && bytes[2] == 0xFF {
            assert(part =~= seq![0xFFu8, 0xD8, 0xFF]);
        }
    }
    holds_four(bytes, 0, 0x89, 0x50, 0x4E, 0x47);
    holds_four(bytes, 0, 0x47, 0x49, 0x46, 0x38);
    holds_four(bytes, 0, 0x52, 0x49, 0x46, 0x46);
    holds_four(bytes, 8, 0x57, 0x45, 0x42, 0x50);
    holds_four(bytes, 4, 0x66, 0x74, 0x79, 0x70);
}

/// Sanitizing replaces characters one for one: ASCII letters and digits, dots and hyphens
/// stay, and every other character becomes an underscore.
pub proof fn sanitizing_is_character_by_character(name: Seq<char>)
    ensures
        sanitized(name).len() == name.len(),
        forall|i: int|
            0 <= i < name.len() ==> {
                let c = #[trigger] name[i] as int;
                let stays = 48 <= c <= 57 || 65 <= c <= 90 || 97 <= c <= 122 || c == 46 || c == 45;
                sanitized(name)[i] == if stays {
                    name[i]
                } else {
                    '_'
                }
            },
{
}

/// A name of at most 200 characters stays as it is. A longer one is cut to exactly 200: its
/// extension stays where it is shorter than 200 with its dot, and before that stand the
/// first characters of the name; otherwise the name keeps its first 200 characters.
pub proof fn names_are_cut_to_length(stem: Seq<char>, ext: Seq<char>, plain: Seq<char>)
    requires
        !ext.contains('.'),
        !plain.contains('.'),
    ensures
        ({
            let name = stem + seq!['.'] + ext;
            &&& name.len() <= 200 ==> truncated(name) == name
            &&& name.len() > 200 && ext.len() < 199 ==> truncated(name) == stem.take(
                199 - ext.len(),
            ) + seq!['.'] + ext
            &&& name.len() > 200 && ext.len() >= 199 ==> truncated(name) == name.take(200)
        }),
        plain.len() <= 200 ==> truncated(plain) == plain,
        plain.len() > 200 ==> truncated(plain) == plain.take(200),
{
    let name = stem + seq!['.'] + ext;
    text::text_is_cut_behind_the_last(stem, '.', ext);
    assert(name.skip(stem.len() as int) =~= seq!['.'] + ext);
    if name.len() > 200 && ext.len() < 199 {
        assert(truncated(name) =~= stem.take(199 - ext.len()) + seq!['.'] + ext);
    }
    text::last_index_finds(plain, '.');
    if text::last_index(plain, '.') >= 0 {
        assert(plain.contains('.'));
    }
}

proof fn nothing_to_strip(url: Seq<char>)
    requires
        !url.contains('?'),
        !url.contains('#'),
    ensures
        without_query_and_fragment(url) == url,
{
    text::text_is_cut_at_the_first(url, '?', Seq::empty());
    text::text_is_cut_at_the_first(url, '#', Seq::empty());
}

/// Whether a text holds no character that ends a part of a URL.
pub open spec fn is_part(text: Seq<char>) -> bool {
    !text.contains('/') && !text.contains('?') && !text.contains('#')
}

/// The path of a URL begins behind its scheme and host, where it has both.
pub proof fn paths_begin_behind_the_host(scheme: Seq<char>, host: Seq<char>, path: Seq<char>)
    requires
        is_part(scheme),
        is_part(host),
        !path.contains('?'),
        !path.contains('#'),
        path.len() > 0 ==> path[0] == '/',
    ensures
        url_path(scheme + seq![':', '/', '/'] + host + path) == path,
{
    let start = scheme + seq![':', '/', '/'];
    let url = start + host + path;
    assert forall|j: int| 0 <= j < url.len() implies url[j] != '?' && url[j] != '#' by {
        if j < scheme.len() {
            assert(scheme.contains(scheme[j]));
        } else if j >= start.len() + host.len() {
            assert(path.contains(path[j - start.len() - host.len()]));
        } else if j >= start.len() {
            assert(host.contains(host[j - start.len()]));
        }
    }
    nothing_to_strip(url);
    let named = scheme + seq![':'];
    assert forall|j: int| 0 <= j < named.len() implies named[j] != '/' by {
        if j < scheme.len() {
            assert(scheme.contains(scheme[j]));
        }
    }
    let behind = seq!['/'] + host + path;
    assert(named + seq!['/'] + behind =~= url);
    text::text_is_cut_at_the_first(named, '/', behind);
    assert(url[named.len() as int] == '/' && url[named.len() as int + 1] == '/');
    assert(url[named.len() as int - 1] == ':');
    assert(host_start(url) == Some(start.len() as int));
    let rest = url.skip(start.len() as int);
    assert(rest =~= host + path);
    if path.len() > 0 {
        assert(host + seq!['/'] + path.skip(1) =~= rest);
        text::text_is_cut_at_the_first(host, '/', path.skip(1));
    } else {
        assert(rest =~= host);
        text::text_is_cut_at_the_first(host, '/', Seq::empty());
        text::first_index_is(host, '/', host.len() as int);
    }
    assert(text::first_index(rest, '/') == host.len());
    assert(rest.skip(host.len() as int) =~= path);
}

/// What names a file is the last part of the path: of a URL with a scheme and a host, and of
/// a text without a slash, whatever stands before it in the path. A URL that ends with its
/// host has no such part.
pub proof fn the_last_part_of_the_path_counts(
    scheme: Seq<char>,
    host: Seq<char>,
    directory: Seq<char>,
    segment: Seq<char>,
)
    requires
        is_part(scheme),
        is_part(host),
        is_part(segment),
        !directory.contains('?'),
        !directory.contains('#'),
        directory.len() > 0 ==> directory[0] == '/',
    ensures
        last_segment(
            scheme + seq![':', '/', '/'] + host + (directory + seq!['/'] + segment),
        ) == segment,
        last_segment(scheme + seq![':', '/', '/'] + host) == Seq::<char>::empty(),
        last_segment(segment) == segment,
{
    let start = scheme + seq![':', '/', '/'];
    let path = directory + seq!['/'] + segment;
    assert forall|j: int| 0 <= j < path.len() implies path[j] != '?' && path[j] != '#' by {
        if j < directory.len() {
            assert(directory.contains(directory[j]));
        } else if j > directory.len() {
            assert(segment.contains(segment[j - directory.len() - 1]));
        }
    }
    paths_begin_behind_the_host(scheme, host, path);
    text::text_is_cut_behind_the_last(directory, '/', segment);
    paths_begin_behind_the_host(scheme, host, Seq::empty());
    assert(start + host + Seq::<char>::empty() =~= start + host);
    text::text_is_cut_behind_the_last(Seq::empty(), '/', Seq::empty());
    nothing_to_strip(segment);
    text::first_index_finds(segment, '/');
    text::text_is_cut_behind_the_last(Seq::empty(), '/', segment);
}

/// A query or a fragment takes no part in the path.
pub proof fn the_path_ends_before_query_and_fragment(url: Seq<char>, added: Seq<char>)
    requires
        !url.contains('?'),
        !url.contains('#'),
        added.len() > 0,
        added[0] == '?' || added[0] == '#',
    ensures
        without_query_and_fragment(url + added) == url,
        last_segment(url + added) == last_segment(url),
        url_extension(url + added) == url_extension(url),
{
    let whole = url + added;
    let rest = added.skip(1);
    nothing_to_strip(url);
    if added[0] == '?' {
        text::text_is_cut_at_the_first(url, '?', rest);
        assert(url + seq!['?'] + rest =~= whole);
    } else {
        let before = text::before_first(whole, '?');
        let query = text::first_index(whole, '?');
        text::first_index_finds(whole, '?');
        if query < url.len() {
            assert(url.contains(url[query]));
        }
        text::text_is_cut_at_the_first(url, '#', before.skip(url.len() as int + 1));
        assert(url + seq!['#'] + before.skip(url.len() as int + 1) =~= before);
    }
}

/// The extension of a URL is what stands behind the last dot of its last segment, in lower
/// case, exactly where that is 1 to 10 ASCII letters and digits. A last segment without a
/// dot has none.
pub proof fn extensions_stand_behind_the_last_dot(url: Seq<char>, stem: Seq<char>, ext: Seq<char>)
    requires
        !ext.contains('.'),
    ensures
        last_segment(url) == stem + seq!['.'] + ext ==> url_extension(url) == if 1 <= ext.len()
            <= 10 && forall|i: int|
            0 <= i < ext.len() ==> 48 <= #[trigger] ext[i] as int <= 57 || 65 <= ext[i] as int <= 90
                || 97 <= ext[i] as int <= 122 {
            Some(text::lower_text(ext))
        } else {
            None
        },
        last_segment(url) == ext ==> url_extension(url) is None,
{
    if last_segment(url) == stem + seq!['.'] + ext {
        let segment = last_segment(url);
        text::text_is_cut_behind_the_last(stem, '.', ext);
        assert(segment[stem.len() as int] == '.');
        assert forall|i: int| 0 <= i < ext.len() implies (text::is_alphanumeric(#[trigger] ext[i])
            <==> 48 <= ext[i] as int <= 57 || 65 <= ext[i] as int <= 90 || 97 <= ext[i] as int
            <= 122) by {
            text::letters_and_digits_are_ascii(ext[i]);
        }
    }
}

/// A name needs an extension: that of the URL, or else that of the format which the bytes
/// give away, without its dot.
pub proof fn extensions_fall_back_to_the_format(url: Seq<char>, bytes: Seq<u8>)
    ensures
        url_extension(url) matches Some(ext) ==> inferred_extension(url, bytes) == ext,
        url_extension(url) is None ==> seq!['.'] + inferred_extension(url, bytes)
            == magic_extension(bytes),
{
    magic_extension_shape(bytes);
    assert(seq!['.'] + magic_extension(bytes).skip(1) =~= magic_extension(bytes));
}

/// A name taken from the URL is its last segment, character by character, where that holds a
/// dot and has room. Without a dot it is the fingerprint of the URL, 32 digits, and `.bin`.
pub proof fn url_based_names_are_the_last_segment(
    url: Seq<char>,
    index: nat,
    bytes: Seq<u8>,
)
    ensures
        ({
            let segment = last_segment(url);
            let name = filename(url, index, bytes, NamingStrategy::UrlBased);
            &&& segment.contains('.') && segment.len() <= 200 ==> name.len() == segment.len()
                && forall|i: int|
                0 <= i < segment.len() ==> {
                    let c = #[trigger] segment[i] as int;
                    let stays = 48 <= c <= 57 || 65 <= c <= 90 || 97 <= c <= 122 || c == 46 || c
                        == 45;
                    name[i] == if stays {
                        segment[i]
                    } else {
                        '_'
                    }
                }
            &&& !segment.contains('.') ==> name == hash::hex_prefix(
                hash::sha256_digest(vstd::utf8::encode_utf8(url)),
                16,
            ) + seq!['.', 'b', 'i', 'n']
        }),
{
    let segment = last_segment(url);
    sanitizing_is_character_by_character(segment);
    reveal_strlit(".bin");
    assert(".bin"@ =~= seq!['.', 'b', 'i', 'n']);
    hex_prefix_shape(hash::sha256_digest(vstd::utf8::encode_utf8(url)), 16);
}

/// A sequential name begins with its own position in decimal, with zeros before it where it
/// has fewer than three digits, and goes on with a dot and the extension.
pub proof fn sequential_names_begin_with_their_position(
    url: Seq<char>,
    index: nat,
    bytes: Seq<u8>,
)
    requires
        index <= usize::MAX,
    ensures
        ({
            let name = filename(url, index, bytes, NamingStrategy::Sequential);
            let end = seq!['.'] + inferred_extension(url, bytes);
            &&& index < 10 ==> name == seq!['0', '0'] + text::decimal_digits(index) + end
            &&& 10 <= index < 100 ==> name == seq!['0'] + text::decimal_digits(index) + end
            &&& index >= 100 ==> name == text::decimal_digits(index) + end
        }),
{
    reveal_strlit("00");
    reveal_strlit("0");
    reveal_strlit(".");
    assert("00"@ =~= seq!['0', '0']);
    assert("0"@ =~= seq!['0']);
    assert("."@ =~= seq!['.']);
    sequential_name_shape(url, index, bytes);
    let name = sequential(index, url, bytes);
    let end = seq!['.'] + inferred_extension(url, bytes);
    assert(name =~= padded_index(index) + end);
}

/// A name by content hash is the fingerprint of the content, 32 digits, a dot and the
/// extension.
pub proof fn content_hash_names_are_fingerprints(url: Seq<char>, index: nat, bytes: Seq<u8>)
    ensures
        filename(url, index, bytes, NamingStrategy::ContentHash) == hash::hex_prefix(
            hash::sha256_digest(bytes),
            16,
        ) + seq!['.'] + inferred_extension(url, bytes),
{
    content_hash_names_share_their_stem(url, index, bytes);
    reveal_strlit(".");
    assert("."@ =~= seq!['.']);
}

/// A name by file header is the last segment of the URL up to its last dot, sanitized, and
/// the extension of the format that the bytes give away, where there is room. Where the last
/// segment has no dot, 16 digits of the fingerprint of the URL stand in for it.
pub proof fn file_header_names_keep_the_stem(
    url: Seq<char>,
    index: nat,
    bytes: Seq<u8>,
    stem: Seq<char>,
    ext: Seq<char>,
)
    requires
        !ext.contains('.'),
        stem.len() <= 195,
    ensures
        last_segment(url) == stem + seq!['.'] + ext ==> filename(
            url,
            index,
            bytes,
            NamingStrategy::FileHeader,
        ) == sanitized(stem) + magic_extension(bytes),
        last_segment(url) == ext ==> filename(url, index, bytes, NamingStrategy::FileHeader)
            == hash::hex_prefix(hash::sha256_digest(vstd::utf8::encode_utf8(url)), 8)
            + magic_extension(bytes),
{
    let segment = last_segment(url);
    magic_extension_shape(bytes);
    hex_prefix_shape(hash::sha256_digest(vstd::utf8::encode_utf8(url)), 8);
    if segment == stem + seq!['.'] + ext {
        assert(segment[stem.len() as int] == '.');
        text::text_is_cut_behind_the_last(stem, '.', ext);
        sanitized_last_dot(segment);
        assert(sanitized(segment).take(stem.len() as int) =~= sanitized(stem));
    }
}

/// However long they are, names taken from the URL are its last segment, sanitized and cut to
/// length, and names by file header are what stands before its last dot, sanitized, with the
/// extension of the format, cut to length.
pub proof fn long_names_are_cut_and_not_replaced(
    url: Seq<char>,
    index: nat,
    bytes: Seq<u8>,
    stem: Seq<char>,
    ext: Seq<char>,
)
    requires
        !ext.contains('.'),
        last_segment(url) == stem + seq!['.'] + ext,
    ensures
        filename(url, index, bytes, NamingStrategy::UrlBased) == truncated(
            sanitized(stem) + seq!['.'] + sanitized(ext),
        ),
        filename(url, index, bytes, NamingStrategy::FileHeader) == truncated(
            sanitized(stem) + magic_extension(bytes),
        ),
{
    let segment = last_segment(url);
    assert(segment[stem.len() as int] == '.');
    text::text_is_cut_behind_the_last(stem, '.', ext);
    sanitized_last_dot(segment);
    assert(sanitized(segment) =~= sanitized(stem) + seq!['.'] + sanitized(ext));
    assert(sanitized(segment).take(stem.len() as int) =~= sanitized(stem));
}

/// A text in which no host begins is all path: one whose first slash does not stand behind a
/// colon, or is not the first of two.
pub proof fn texts_without_a_host_are_all_path(first: Seq<char>, rest: Seq<char>)
    requires
        is_part(first),
        first.len() > 0,
        first.last() != ':' || rest.len() == 0 || rest[0] != '/',
        !rest.contains('?'),
        !rest.contains('#'),
    ensures
        url_path(first + seq!['/'] + rest) == first + seq!['/'] + rest,
{
    let text = first + seq!['/'] + rest;
    assert forall|j: int| 0 <= j < text.len() implies text[j] != '?' && text[j] != '#' by {
        if j < first.len() {
            assert(first.contains(first[j]));
        } else if j > first.len() {
            assert(rest.contains(rest[j - first.len() - 1]));
        }
    }
    nothing_to_strip(text);
    text::text_is_cut_at_the_first(first, '/', rest);
    assert(text[first.len() as int - 1] == first.last());
    if rest.len() > 0 {
        assert(text[first.len() as int + 1] == rest[0]);
    }
}

} // verus!
