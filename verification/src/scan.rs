//! Byte-level searching and trimming over UTF-8 text.
//!
//! Every delimiter the firmware looks for is ASCII, and in valid UTF-8 an
//! ASCII byte only ever encodes that ASCII character, so searching the bytes
//! of a string finds exactly the positions that `str::find` finds.

use vstd::prelude::*;
use vstd::utf8::*;
use vstd::string::StringSliceAdditionalSpecFns;

verus! {

/// `pat` occurs in `s` starting at byte index `i`.
pub open spec fn matches_at(s: Seq<u8>, pat: Seq<u8>, i: int) -> bool {
    0 <= i && i + pat.len() <= s.len() && s.subrange(i, i + pat.len()) == pat
}

/// `i` is the first position of `pat` in `s`.
pub open spec fn is_first_match(s: Seq<u8>, pat: Seq<u8>, i: int) -> bool {
    matches_at(s, pat, i) && forall|j: int| 0 <= j < i ==> !matches_at(s, pat, j)
}

/// Position of the first occurrence of `pat` in `s` (what `str::find` returns).
pub open spec fn first_match(s: Seq<u8>, pat: Seq<u8>) -> Option<int> {
    if exists|i: int| is_first_match(s, pat, i) {
        Some(choose|i: int| is_first_match(s, pat, i))
    } else {
        None
    }
}

/// A first occurrence is what `first_match` reports.
pub proof fn lemma_first_match_is(s: Seq<u8>, pat: Seq<u8>, i: int)
    requires
        is_first_match(s, pat, i),
    ensures
        first_match(s, pat) == Some(i),
{
    let k = choose|k: int| is_first_match(s, pat, k);
    assert(is_first_match(s, pat, k));
    if k < i {
        assert(!matches_at(s, pat, k));
    }
    if i < k {
        assert(!matches_at(s, pat, i));
    }
}

/// The first occurrence lies inside the text.
pub proof fn lemma_first_match_bounds(s: Seq<u8>, pat: Seq<u8>)
    ensures
        first_match(s, pat) matches Some(i) ==> 0 <= i && i + pat.len() <= s.len(),
        first_match(s, pat) matches Some(i) ==> is_first_match(s, pat, i),
{
    if exists|i: int| is_first_match(s, pat, i) {
        let i = choose|i: int| is_first_match(s, pat, i);
        assert(is_first_match(s, pat, i));
    }
}

/// Whether `pat` occurs in `s` at index `i`.
pub fn bytes_match_at(s: &[u8], pat: &[u8], i: usize) -> (b: bool)
    requires
        i + pat@.len() <= s@.len(),
    ensures
        b == matches_at(s@, pat@, i as int),
{
    let n = pat.len();
    let mut k: usize = 0;
    while k < n
        invariant
            n == pat@.len(),
            i + n <= s.len(),
            k <= n,
            forall|m: int| 0 <= m < k ==> s@[i + m] == pat@[m],
        decreases n - k,
    {
        if s[i + k] != pat[k] {
            proof {
                assert(s@.subrange(i as int, i + n)[k as int] != pat@[k as int]);
            }
            return false;
        }
        k = k + 1;
    }
    proof {
        assert(s@.subrange(i as int, i + n) =~= pat@);
    }
    true
}

/// First index at which `pat` occurs in `s`.
pub fn find_bytes(s: &[u8], pat: &[u8]) -> (r: Option<usize>)
    ensures
        match r {
            Some(i) => first_match(s@, pat@) == Some(i as int) && i + pat@.len() <= s@.len(),
            None => first_match(s@, pat@) == None::<int>,
        },
{
    if pat.len() > s.len() {
        return None;
    }
    let last = s.len() - pat.len();
    let mut i: usize = 0;
    loop
        invariant
            last == s@.len() - pat@.len(),
            i <= last,
            forall|j: int| 0 <= j < i ==> !matches_at(s@, pat@, j),
        decreases last - i,
    {
        if bytes_match_at(s, pat, i) {
            proof {
                lemma_first_match_is(s@, pat@, i as int);
            }
            return Some(i);
        }
        if i == last {
            return None;
        }
        i = i + 1;
    }
}

/// ASCII whitespace as `char::is_whitespace` sees it: tab, line feed,
/// vertical tab, form feed, carriage return and space.
pub open spec fn is_ascii_ws(b: u8) -> bool {
    b == 0x20 || (0x09 <= b && b <= 0x0d)
}

/// The three-byte UTF-8 encodings of the whitespace characters U+1680,
/// U+2000..=U+200A, U+2028, U+2029, U+202F, U+205F and U+3000.
pub open spec fn is_ws3(a: u8, b: u8, c: u8) -> bool {
    ||| (a == 0xe1 && b == 0x9a && c == 0x80)
    ||| (a == 0xe2 && b == 0x80 && ((0x80 <= c && c <= 0x8a) || c == 0xa8 || c == 0xa9
        || c == 0xaf))
    ||| (a == 0xe2 && b == 0x81 && c == 0x9f)
    ||| (a == 0xe3 && b == 0x80 && c == 0x80)
}

/// The two-byte UTF-8 encodings of the whitespace characters U+0085 and U+00A0.
pub open spec fn is_ws2(a: u8, b: u8) -> bool {
    a == 0xc2 && (b == 0x85 || b == 0xa0)
}

/// Length in bytes of the whitespace character (per `char::is_whitespace`)
/// whose encoding starts at byte `i` of `s`, or 0 when none starts there.
pub open spec fn ws_len_at(s: Seq<u8>, i: int) -> int {
    if 0 <= i < s.len() && is_ascii_ws(s[i]) {
        1
    } else if 0 <= i && i + 2 <= s.len() && is_ws2(s[i], s[i + 1]) {
        2
    } else if 0 <= i && i + 3 <= s.len() && is_ws3(s[i], s[i + 1], s[i + 2]) {
        3
    } else {
        0
    }
}

/// Length in bytes of the whitespace character whose encoding ends just
/// before byte `j` of `s`, or 0 when none ends there.
pub open spec fn ws_len_before(s: Seq<u8>, j: int) -> int {
    if 1 <= j <= s.len() && is_ascii_ws(s[j - 1]) {
        1
    } else if 2 <= j <= s.len() && is_ws2(s[j - 2], s[j - 1]) {
        2
    } else if 3 <= j <= s.len() && is_ws3(s[j - 3], s[j - 2], s[j - 1]) {
        3
    } else {
        0
    }
}

/// Start of the window `[lo, hi)` of `s` once its leading whitespace is
/// removed (what `str::trim_start` keeps).
pub open spec fn trim_start_from(s: Seq<u8>, lo: int, hi: int) -> int
    decreases hi - lo,
{
    if lo < hi && ws_len_at(s, lo) > 0 && lo + ws_len_at(s, lo) <= hi {
        trim_start_from(s, lo + ws_len_at(s, lo), hi)
    } else {
        lo
    }
}

/// End of the window `[lo, hi)` of `s` once its trailing whitespace is
/// removed (what `str::trim_end` keeps).
pub open spec fn trim_end_from(s: Seq<u8>, lo: int, hi: int) -> int
    decreases hi - lo,
{
    if lo < hi && ws_len_before(s, hi) > 0 && hi - ws_len_before(s, hi) >= lo {
        trim_end_from(s, lo, hi - ws_len_before(s, hi))
    } else {
        hi
    }
}

/// Trimming the start of a window stays inside the window.
pub proof fn lemma_trim_start_bounds(s: Seq<u8>, lo: int, hi: int)
    requires
        lo <= hi,
    ensures
        lo <= trim_start_from(s, lo, hi) <= hi,
    decreases hi - lo,
{
    if lo < hi && ws_len_at(s, lo) > 0 && lo + ws_len_at(s, lo) <= hi {
        lemma_trim_start_bounds(s, lo + ws_len_at(s, lo), hi);
    }
}

/// Trimming the end of a window stays inside the window.
pub proof fn lemma_trim_end_bounds(s: Seq<u8>, lo: int, hi: int)
    requires
        lo <= hi,
    ensures
        lo <= trim_end_from(s, lo, hi) <= hi,
    decreases hi - lo,
{
    if lo < hi && ws_len_before(s, hi) > 0 && hi - ws_len_before(s, hi) >= lo {
        lemma_trim_end_bounds(s, lo, hi - ws_len_before(s, hi));
    }
}

/// ASCII hexadecimal digit (`char::is_ascii_hexdigit`).
pub open spec fn is_hex_digit(b: u8) -> bool {
    (0x30 <= b && b <= 0x39) || (0x41 <= b && b <= 0x46) || (0x61 <= b && b <= 0x66)
}

/// Every byte of `s` in `[lo, hi)` is an ASCII hexadecimal digit.
pub open spec fn all_hex_digits(s: Seq<u8>, lo: int, hi: int) -> bool {
    forall|i: int| lo <= i < hi ==> is_hex_digit(#[trigger] s[i])
}

fn ws_len_at_exec(s: &[u8], i: usize) -> (r: usize)
    requires
        i <= s@.len(),
    ensures
        r as int == ws_len_at(s@, i as int),
{
    let n = s.len();
    if i < n && (s[i] == 0x20 || (0x09 <= s[i] && s[i] <= 0x0d)) {
        1
    } else if n >= 2 && i <= n - 2 && s[i] == 0xc2 && (s[i + 1] == 0x85 || s[i + 1] == 0xa0) {
        2
    } else if n >= 3 && i <= n - 3 && is_ws3_exec(s[i], s[i + 1], s[i + 2]) {
        3
    } else {
        0
    }
}

fn is_ws3_exec(a: u8, b: u8, c: u8) -> (r: bool)
    ensures
        r == is_ws3(a, b, c),
{
    (a == 0xe1 && b == 0x9a && c == 0x80) || (a == 0xe2 && b == 0x80 && ((0x80 <= c && c <= 0x8a)
        || c == 0xa8 || c == 0xa9 || c == 0xaf)) || (a == 0xe2 && b == 0x81 && c == 0x9f) || (a
        == 0xe3 && b == 0x80 && c == 0x80)
}

fn ws_len_before_exec(s: &[u8], j: usize) -> (r: usize)
    requires
        j <= s@.len(),
    ensures
        r as int == ws_len_before(s@, j as int),
{
    if 1 <= j && (s[j - 1] == 0x20 || (0x09 <= s[j - 1] && s[j - 1] <= 0x0d)) {
        1
    } else if 2 <= j && s[j - 2] == 0xc2 && (s[j - 1] == 0x85 || s[j - 1] == 0xa0) {
        2
    } else if 3 <= j && is_ws3_exec(s[j - 3], s[j - 2], s[j - 1]) {
        3
    } else {
        0
    }
}

/// Index where the window `[lo, hi)` of `s` starts after `trim_start`.
pub fn trim_start_index(s: &[u8], lo: usize, hi: usize) -> (r: usize)
    requires
        lo <= hi <= s@.len(),
    ensures
        r as int == trim_start_from(s@, lo as int, hi as int),
        lo <= r <= hi,
{
    let mut i = lo;
    loop
        invariant
            lo <= i <= hi,
            hi <= s@.len(),
            trim_start_from(s@, i as int, hi as int) == trim_start_from(s@, lo as int, hi as int),
        decreases hi - i,
    {
        let k = ws_len_at_exec(s, i);
        if i < hi && k > 0 && k <= hi - i {
            i = i + k;
        } else {
            return i;
        }
    }
}

/// Index where the window `[lo, hi)` of `s` ends after `trim_end`.
pub fn trim_end_index(s: &[u8], lo: usize, hi: usize) -> (r: usize)
    requires
        lo <= hi <= s@.len(),
    ensures
        r as int == trim_end_from(s@, lo as int, hi as int),
        lo <= r <= hi,
{
    let mut j = hi;
    loop
        invariant
            lo <= j <= hi,
            hi <= s@.len(),
            trim_end_from(s@, lo as int, j as int) == trim_end_from(s@, lo as int, hi as int),
        decreases j - lo,
    {
        let k = ws_len_before_exec(s, j);
        if lo < j && k > 0 && k <= j - lo {
            j = j - k;
        } else {
            return j;
        }
    }
}

/// Whether every byte of `s` in `[lo, hi)` is an ASCII hexadecimal digit.
pub fn all_hex_digits_exec(s: &[u8], lo: usize, hi: usize) -> (r: bool)
    requires
        lo <= hi <= s@.len(),
    ensures
        r == all_hex_digits(s@, lo as int, hi as int),
{
    let mut i = lo;
    while i < hi
        invariant
            lo <= i <= hi,
            hi <= s@.len(),
            all_hex_digits(s@, lo as int, i as int),
        decreases hi - i,
    {
        let b = s[i];
        if !((0x30 <= b && b <= 0x39) || (0x41 <= b && b <= 0x46) || (0x61 <= b && b <= 0x66)) {
            return false;
        }
        i = i + 1;
    }
    true
}

/// In valid UTF-8 the byte after an ASCII byte starts a new character.
pub proof fn lemma_after_ascii_not_continuation(bytes: Seq<u8>, i: int)
    requires
        valid_utf8(bytes),
        0 < i < bytes.len(),
        bytes[i - 1] <= 0x7f,
    ensures
        !is_continuation_byte(bytes[i]),
{
    is_char_boundary_iff_not_is_continuation_byte(bytes, i - 1);
    valid_utf8_split(bytes, i - 1);
    let suffix = bytes.subrange(i - 1, bytes.len() as int);
    assert(suffix[0] == bytes[i - 1]);
    assert(valid_first_scalar(suffix));
    assert(length_of_first_scalar(suffix) == 1);
    let rest = pop_first_scalar(suffix);
    assert(rest =~= bytes.subrange(i, bytes.len() as int));
    assert(valid_utf8(rest));
    assert(rest.len() > 0);
    assert(valid_first_scalar(rest));
    assert(rest[0] == bytes[i]);
}

/// A window of valid UTF-8 whose two ends are character boundaries is valid UTF-8.
pub proof fn lemma_valid_subrange(bytes: Seq<u8>, a: int, b: int)
    requires
        valid_utf8(bytes),
        0 <= a <= b <= bytes.len(),
        a == bytes.len() || !is_continuation_byte(bytes[a]),
        b == bytes.len() || !is_continuation_byte(bytes[b]),
    ensures
        valid_utf8(bytes.subrange(a, b)),
{
    is_char_boundary_start_end_of_seq(bytes);
    if a < bytes.len() {
        is_char_boundary_iff_not_is_continuation_byte(bytes, a);
    }
    valid_utf8_split(bytes, a);
    let t = bytes.subrange(a, bytes.len() as int);
    is_char_boundary_start_end_of_seq(t);
    if b < bytes.len() {
        assert(t[b - a] == bytes[b]);
        is_char_boundary_iff_not_is_continuation_byte(t, b - a);
    }
    valid_utf8_split(t, b - a);
    assert(t.subrange(0, b - a) =~= bytes.subrange(a, b));
}


/// Whether two byte slices hold the same bytes.
pub fn bytes_eq(a: &[u8], b: &[u8]) -> (r: bool)
    ensures
        r == (a@ == b@),
{
    if a.len() != b.len() {
        return false;
    }
    let n = a.len();
    let mut i: usize = 0;
    while i < n
        invariant
            n == a@.len(),
            n == b@.len(),
            i <= n,
            forall|j: int| 0 <= j < i ==> a@[j] == b@[j],
        decreases n - i,
    {
        if a[i] != b[i] {
            return false;
        }
        i = i + 1;
    }
    assert(a@ =~= b@);
    true
}

/// Whether two strings hold the same text.
pub fn str_eq(a: &str, b: &str) -> (r: bool)
    ensures
        r == (a@ == b@),
{
    let r = bytes_eq(a.as_bytes(), b.as_bytes());
    proof {
        encode_utf8_decode_utf8(a@);
        encode_utf8_decode_utf8(b@);
    }
    r
}

/// The text that `bytes` encodes, when they are valid UTF-8 (`core::str::from_utf8`).
#[verifier::external_body]
pub(crate) fn str_from_utf8<'a>(bytes: &'a [u8]) -> (r: Option<&'a str>)
    ensures
        r is Some <==> valid_utf8(bytes@),
        r matches Some(s) ==> s.spec_bytes() == bytes@,
{
    core::str::from_utf8(bytes).ok()
}

} // verus!
