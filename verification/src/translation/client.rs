//! Google Cloud Translation API v2 client: request framing and response parsing.
//!
//! The network round trip itself (writing the request over the TLS session
//! and reading the reply) is driven by the caller; this module builds the
//! exact bytes to send and interprets the bytes that came back.

use vstd::prelude::*;
use vstd::string::StringSliceAdditionalSpecFns;

use crate::networking;
use crate::scan;

verus! {

/// Maximum JSON request body length.
pub const MAX_BODY_LEN: usize = 512;

/// Size of the buffer the HTTP request head is built in.
pub const MAX_REQUEST_HEAD_LEN: usize = 1024;

/// Size of the buffer the HTTP response is read into.
pub const MAX_RESPONSE_LEN: usize = 2048;

/// Errors that can occur during translation.
#[derive(Debug, Clone, Copy, PartialEq, Eq, Structural)]
pub enum TranslateError {
    /// The request body exceeded the internal buffer size.
    BodyTooLong,
    /// The HTTP request failed.
    RequestFailed,
    /// The response body could not be read.
    ResponseReadFailed,
    /// Could not find `translatedText` in the response JSON.
    ParseFailed,
}

/// The bytes of `\r\n`.
pub open spec fn crlf() -> Seq<u8> {
    seq![0x0d, 0x0a]
}

pub(crate) fn crlf_bytes() -> (v: Vec<u8>)
    ensures
        v@ == crlf(),
{
    vec![0x0d, 0x0a]
}

/// The bytes of `"translatedText"`.
pub open spec fn translated_text_key() -> Seq<u8> {
    seq![0x22, 0x74, 0x72, 0x61, 0x6e, 0x73, 0x6c, 0x61, 0x74, 0x65, 0x64, 0x54, 0x65, 0x78, 0x74, 0x22]
}

fn translated_text_key_bytes() -> (v: Vec<u8>)
    ensures
        v@ == translated_text_key(),
{
    vec![0x22, 0x74, 0x72, 0x61, 0x6e, 0x73, 0x6c, 0x61, 0x74, 0x65, 0x64, 0x54, 0x65, 0x78, 0x74, 0x22]
}

/// The bytes of `"`.
pub open spec fn quote() -> Seq<u8> {
    seq![0x22]
}

pub(crate) fn quote_bytes() -> (v: Vec<u8>)
    ensures
        v@ == quote(),
{
    vec![0x22]
}
/// Value of an ASCII hexadecimal digit.
pub open spec fn hex_digit_value(b: u8) -> nat {
    if 0x30 <= b <= 0x39 {
        (b - 0x30) as nat
    } else if 0x41 <= b <= 0x46 {
        (b - 0x41 + 10) as nat
    } else {
        (b - 0x61 + 10) as nat
    }
}

/// Value of a sequence of ASCII hexadecimal digits.
pub open spec fn hex_value(d: Seq<u8>) -> nat
    decreases d.len(),
{
    if d.len() == 0 {
        0
    } else {
        hex_value(d.drop_last()) * 16 + hex_digit_value(d.last())
    }
}

/// The chunk-size line that starts at `p`, if that line (up to the next
/// `\r\n`) is a non-empty run of hexadecimal digits, possibly padded with
/// whitespace: the digits' range `[a, b)` and the start `d` of the chunk
/// data after the line's `\r\n`.
pub open spec fn size_line(s: Seq<u8>, p: int) -> Option<(int, int, int)> {
    if 0 <= p <= s.len() {
        match scan::first_match(s.subrange(p, s.len() as int), crlf()) {
            Some(c) => {
                let a = scan::trim_start_from(s, p, p + c);
                let b = scan::trim_end_from(s, a, p + c);
                if a < b && scan::all_hex_digits(s, a, b) {
                    Some((a, b, p + c + 2))
                } else {
                    None
                }
            },
            None => None,
        }
    } else {
        None
    }
}

/// A size line lies inside the text, its digits before its data.
pub proof fn lemma_size_line_bounds(s: Seq<u8>, p: int)
    ensures
        size_line(s, p) matches Some((a, b, d)) ==> p <= a < b && b + 2 <= d <= s.len(),
{
    if 0 <= p <= s.len() {
        let t = s.subrange(p, s.len() as int);
        if let Some(c) = scan::first_match(t, crlf()) {
            scan::lemma_first_match_bounds(t, crlf());
            scan::lemma_trim_start_bounds(s, p, p + c);
            let a = scan::trim_start_from(s, p, p + c);
            scan::lemma_trim_end_bounds(s, a, p + c);
        }
    }
}

/// The data of the chunks whose size line starts at `p`.
///
/// Each size line, and the `\r\n` that ends its chunk's data, is skipped
/// and the data of consecutive chunks is joined.  Decoding stops at the
/// zero-size last chunk, at a line that is not a size line, or after a chunk
/// not followed by `\r\n`; a chunk announced longer than what remains
/// keeps what remains, without its trailing whitespace.
pub open spec fn chunks_from(s: Seq<u8>, p: int) -> Seq<u8>
    decreases s.len() - p,
{
    proof {
        lemma_size_line_bounds(s, p);
    }
    match size_line(s, p) {
        None => Seq::empty(),
        Some((a, b, d)) => {
            let n = hex_value(s.subrange(a, b));
            if n == 0 {
                Seq::empty()
            } else if d + n > s.len() {
                s.subrange(d, scan::trim_end_from(s, d, s.len() as int))
            } else if d + n + 2 <= s.len() && s.subrange(d + n, d + n + 2) == crlf() {
                s.subrange(d, d + n) + chunks_from(s, d + n + 2)
            } else {
                s.subrange(d, d + n)
            }
        },
    }
}

/// A response body with any chunked transfer encoding removed.
///
/// A body whose first line (after leading whitespace) is a chunk-size line
/// is taken to be chunked and decoded to the joined data of its chunks; any
/// other body is kept whole.
pub open spec fn chunked_body(s: Seq<u8>) -> Seq<u8> {
    let t = scan::trim_start_from(s, 0, s.len() as int);
    if size_line(s, t) is Some {
        chunks_from(s, t)
    } else {
        s
    }
}

/// The hexadecimal digit for `d` (below 16), upper or lower case.
pub open spec fn hex_digit_char(d: int, upper: bool) -> u8 {
    if d < 10 {
        (0x30 + d) as u8
    } else if upper {
        (0x41 + d - 10) as u8
    } else {
        (0x61 + d - 10) as u8
    }
}

/// `n` written in hexadecimal, upper or lower case, without leading zeros.
pub open spec fn hex_digits(n: nat, upper: bool) -> Seq<u8>
    decreases n,
{
    if n < 16 {
        seq![hex_digit_char(n as int, upper)]
    } else {
        hex_digits(n / 16, upper).push(hex_digit_char((n % 16) as int, upper))
    }
}

/// `n` written in hexadecimal reads back as `n`, in either case.
proof fn lemma_hex_digits(n: nat, upper: bool)
    ensures
        hex_digits(n, upper).len() >= 1,
        forall|i: int|
            0 <= i < hex_digits(n, upper).len() ==> scan::is_hex_digit(#[trigger] hex_digits(n, upper)[i]),
        hex_value(hex_digits(n, upper)) == n,
    decreases n,
{
    let h = hex_digits(n, upper);
    if n < 16 {
        assert(h.drop_last() =~= Seq::<u8>::empty());
        assert(hex_digit_value(hex_digit_char(n as int, upper)) == n);
        assert(hex_value(h) == hex_value(h.drop_last()) * 16 + hex_digit_value(h.last()));
    } else {
        lemma_hex_digits(n / 16, upper);
        assert(h.drop_last() =~= hex_digits(n / 16, upper));
        assert(hex_digit_value(hex_digit_char((n % 16) as int, upper)) == n % 16);
        assert(hex_value(h) == hex_value(h.drop_last()) * 16 + hex_digit_value(h.last()));
        assert(forall|i: int| 0 <= i < h.len() - 1 ==> h[i] == hex_digits(n / 16, upper)[i]);
        assert((n / 16) * 16 + n % 16 == n);
    }
}

/// A chunk whose size line starts at `p` (size `data.len() > 0` in
/// hexadecimal, then its data and `\r\n`) contributes exactly its data, and
/// decoding goes on after it.
#[verifier::spinoff_prover]
#[verifier::rlimit(80)]
proof fn lemma_chunk_at(s: Seq<u8>, p: int, data: Seq<u8>, upper: bool)
    requires
        0 <= p,
        data.len() > 0,
        p + hex_digits(data.len(), upper).len() + data.len() + 4 <= s.len(),
        s.subrange(p, p + hex_digits(data.len(), upper).len() + data.len() + 4) == hex_digits(
            data.len(),
            upper,
        ) + crlf() + data + crlf(),
    ensures
        size_line(s, p) is Some,
        chunks_from(s, p) == data + chunks_from(s, p + hex_digits(data.len(), upper).len() + data.len() + 4),
{
    let h = hex_digits(data.len(), upper);
    lemma_hex_digits(data.len(), upper);
    let c = h.len() as int;
    let m = data.len() as int;
    let len = s.len() as int;
    let w = s.subrange(p, p + c + m + 4);
    let hc = h + crlf();
    let hcd = hc + data;
    assert(w == hcd + crlf());
    assert forall|i: int| 0 <= i < c implies s[p + i] == h[i] by {
        assert(s[p + i] == w[i]);
        assert(w[i] == hcd[i]);
        assert(hcd[i] == hc[i]);
        assert(hc[i] == h[i]);
    }
    assert(s[p + c] == 0x0d) by {
        assert(s[p + c] == w[c]);
        assert(w[c] == hcd[c]);
        assert(hcd[c] == hc[c]);
    }
    assert(s[p + c + 1] == 0x0a) by {
        assert(s[p + c + 1] == w[c + 1]);
        assert(w[c + 1] == hcd[c + 1]);
        assert(hcd[c + 1] == hc[c + 1]);
    }
    assert forall|i: int| 0 <= i < m implies s[p + c + 2 + i] == data[i] by {
        assert(s[p + c + 2 + i] == w[c + 2 + i]);
        assert(w[c + 2 + i] == hcd[c + 2 + i]);
    }
    assert(s[p + c + 2 + m] == 0x0d) by {
        assert(s[p + c + 2 + m] == w[c + 2 + m]);
    }
    assert(s[p + c + 3 + m] == 0x0a) by {
        assert(s[p + c + 3 + m] == w[c + 3 + m]);
    }
    assert(scan::is_hex_digit(h[0]));
    assert(scan::is_hex_digit(h[c - 1]));
    let t = s.subrange(p, len);
    assert(t.subrange(c, c + 2) =~= crlf());
    assert forall|j: int| 0 <= j < c implies !scan::matches_at(t, crlf(), j) by {
        assert(t.subrange(j, j + 2)[0] == t[j]);
        assert(t[j] == s[p + j]);
        assert(scan::is_hex_digit(h[j]));
    }
    scan::lemma_first_match_is(t, crlf(), c);
    assert(scan::ws_len_at(s, p) == 0);
    assert(scan::trim_start_from(s, p, p + c) == p);
    assert(scan::ws_len_before(s, p + c) == 0);
    assert(scan::trim_end_from(s, p, p + c) == p + c);
    assert forall|i: int| p <= i < p + c implies scan::is_hex_digit(#[trigger] s[i]) by {
        assert(s[p + (i - p)] == h[i - p]);
    }
    assert(scan::all_hex_digits(s, p, p + c));
    assert(size_line(s, p) == Some((p, p + c, p + c + 2)));
    assert(s.subrange(p, p + c) =~= h);
    let d = p + c + 2;
    assert(s.subrange(d, d + m) =~= data);
    assert(s.subrange(d + m, d + m + 2) =~= crlf());
    assert(chunks_from(s, p) == s.subrange(d, d + m) + chunks_from(s, d + m + 2));
}

/// The zero-size last chunk ends decoding.
proof fn lemma_last_chunk_at(s: Seq<u8>, p: int)
    requires
        0 <= p,
        p + 3 <= s.len(),
        s.subrange(p, p + 3) == seq![0x30u8] + crlf(),
    ensures
        size_line(s, p) is Some,
        chunks_from(s, p) == Seq::<u8>::empty(),
{
    let len = s.len() as int;
    let w = s.subrange(p, p + 3);
    assert(s[p] == w[0] && s[p + 1] == w[1] && s[p + 2] == w[2]);
    let t2 = s.subrange(p, len);
    assert(t2.subrange(1, 3) =~= crlf());
    assert(!scan::matches_at(t2, crlf(), 0)) by {
        assert(t2.subrange(0, 2)[0] == t2[0]);
    }
    scan::lemma_first_match_is(t2, crlf(), 1);
    assert(scan::ws_len_at(s, p) == 0);
    assert(scan::trim_start_from(s, p, p + 1) == p);
    assert(scan::ws_len_before(s, p + 1) == 0);
    assert(scan::trim_end_from(s, p, p + 1) == p + 1);
    assert(scan::all_hex_digits(s, p, p + 1));
    assert(size_line(s, p) == Some((p, p + 1, p + 3)));
    let zero = s.subrange(p, p + 1);
    assert(zero =~= seq![0x30u8]);
    assert(zero.drop_last() =~= Seq::<u8>::empty());
    assert(hex_value(zero) == hex_value(zero.drop_last()) * 16 + hex_digit_value(zero.last()));
    assert(hex_value(zero) == 0);
}

/// A body that starts with a size line is decoded from its start.
proof fn lemma_chunked_from_start(s: Seq<u8>)
    requires
        s.len() > 0,
        scan::is_hex_digit(s[0]),
        size_line(s, 0) is Some,
    ensures
        chunked_body(s) == chunks_from(s, 0),
{
    assert(scan::ws_len_at(s, 0) == 0);
    assert(scan::trim_start_from(s, 0, s.len() as int) == 0);
}

/// A chunk of any size is read whole, its size written in lower- or
/// upper-case hexadecimal alike: the body
/// `<size in hex>\r\n<data>\r\n0\r\n\r\n` decodes to exactly `data`.
pub proof fn chunked_body_reads_one_chunk(data: Seq<u8>, upper: bool)
    ensures
        chunked_body(
            hex_digits(data.len(), upper) + crlf() + data + crlf() + seq![0x30u8] + crlf() + crlf(),
        ) == data,
{
    let h = hex_digits(data.len(), upper);
    lemma_hex_digits(data.len(), upper);
    let s = h + crlf() + data + crlf() + seq![0x30u8] + crlf() + crlf();
    let q = h.len() + data.len() + 4;
    assert(s[0] == h[0]);
    if data.len() == 0 {
        // a zero size line at the start is the last chunk
        assert(h =~= seq![0x30u8]);
        assert(s.subrange(0, 3) =~= seq![0x30u8] + crlf());
        lemma_last_chunk_at(s, 0);
        lemma_chunked_from_start(s);
        assert(data =~= Seq::<u8>::empty());
    } else {
        assert(s.subrange(0, q as int) =~= h + crlf() + data + crlf());
        lemma_chunk_at(s, 0, data, upper);
        assert(s.subrange(q as int, q + 3 as int) =~= seq![0x30u8] + crlf());
        lemma_last_chunk_at(s, q as int);
        lemma_chunked_from_start(s);
        assert(data + Seq::<u8>::empty() =~= data);
    }
}

/// Where the parts of a two-chunk body lie.
proof fn lemma_two_chunk_layout(h1: Seq<u8>, d1: Seq<u8>, h2: Seq<u8>, d2: Seq<u8>)
    requires
        h1.len() > 0,
    ensures
        ({
            let s = h1 + crlf() + d1 + crlf() + h2 + crlf() + d2 + crlf() + seq![0x30u8] + crlf()
                + crlf();
            let q1 = h1.len() + d1.len() + 4int;
            let q2 = q1 + h2.len() + d2.len() + 4int;
            &&& s.len() == q2 + 5
            &&& s[0] == h1[0]
            &&& s.subrange(0, q1) == h1 + crlf() + d1 + crlf()
            &&& s.subrange(q1, q2) == h2 + crlf() + d2 + crlf()
            &&& s.subrange(q2, q2 + 3) == seq![0x30u8] + crlf()
        }),
{
    let s = h1 + crlf() + d1 + crlf() + h2 + crlf() + d2 + crlf() + seq![0x30u8] + crlf() + crlf();
    let x = h1 + crlf() + d1 + crlf();
    let y = h2 + crlf() + d2 + crlf();
    let z = seq![0x30u8] + crlf() + crlf();
    assert(s =~= x + (y + z));
    let q1 = x.len() as int;
    let q2 = q1 + y.len() as int;
    assert(s.subrange(0, q1) =~= x);
    assert(s.subrange(q1, q2) =~= y);
    assert(s.subrange(q2, q2 + 3) =~= seq![0x30u8] + crlf());
}

/// Two chunks are joined: the body
/// `<size1>\r\n<data1>\r\n<size2>\r\n<data2>\r\n0\r\n\r\n` decodes to
/// `data1` followed by `data2`, every size line skipped.
#[verifier::spinoff_prover]
#[verifier::rlimit(80)]
pub proof fn chunked_body_joins_two_chunks(d1: Seq<u8>, d2: Seq<u8>, upper: bool)
    requires
        d1.len() > 0,
        d2.len() > 0,
    ensures
        chunked_body(
            hex_digits(d1.len(), upper) + crlf() + d1 + crlf() + hex_digits(d2.len(), upper) + crlf()
                + d2 + crlf() + seq![0x30u8] + crlf() + crlf(),
        ) == d1 + d2,
{
    let h1 = hex_digits(d1.len(), upper);
    let h2 = hex_digits(d2.len(), upper);
    lemma_hex_digits(d1.len(), upper);
    let s = h1 + crlf() + d1 + crlf() + h2 + crlf() + d2 + crlf() + seq![0x30u8] + crlf() + crlf();
    let q1 = h1.len() + d1.len() + 4int;
    let q2 = q1 + h2.len() + d2.len() + 4int;
    lemma_two_chunk_layout(h1, d1, h2, d2);
    lemma_chunk_at(s, 0, d1, upper);
    lemma_chunk_at(s, q1, d2, upper);
    lemma_last_chunk_at(s, q2);
    assert(chunks_from(s, 0) == d1 + (d2 + Seq::<u8>::empty()));
    lemma_chunked_from_start(s);
    assert(d1 + (d2 + Seq::<u8>::empty()) =~= d1 + d2);
}

/// The size line starting at `p`, as [`size_line`] defines it.
fn size_line_exec(s: &[u8], p: usize) -> (r: Option<(usize, usize, usize)>)
    requires
        p <= s@.len(),
    ensures
        match r {
            Some((a, b, d)) => size_line(s@, p as int) == Some((a as int, b as int, d as int)),
            None => size_line(s@, p as int) is None,
        },
{
    let n = s.len();
    let rest = vstd::slice::slice_subrange(s, p, n);
    let sep = crlf_bytes();
    match scan::find_bytes(rest, sep.as_slice()) {
        Some(c) => {
            let a = scan::trim_start_index(s, p, p + c);
            let b = scan::trim_end_index(s, a, p + c);
            if a < b && scan::all_hex_digits_exec(s, a, b) {
                Some((a, b, p + c + 2))
            } else {
                None
            }
        },
        None => None,
    }
}

/// `min(hex_value(s[a..b]), cap + 1)`: the value of the hexadecimal digits,
/// or `cap + 1` for any value beyond `cap`.
fn hex_value_capped(s: &[u8], a: usize, b: usize, cap: usize) -> (v: usize)
    requires
        a <= b <= s@.len(),
        scan::all_hex_digits(s@, a as int, b as int),
        cap < usize::MAX,
    ensures
        v as int == vstd::math::min(hex_value(s@.subrange(a as int, b as int)) as int, cap + 1),
{
    let limit: u128 = cap as u128 + 1;
    let mut acc: u128 = 0;
    let mut i = a;
    proof {
        assert(s@.subrange(a as int, a as int) =~= Seq::<u8>::empty());
    }
    while i < b
        invariant
            a <= i <= b,
            b <= s@.len(),
            limit == cap + 1,
            cap < usize::MAX,
            scan::all_hex_digits(s@, a as int, b as int),
            acc as int == vstd::math::min(hex_value(s@.subrange(a as int, i as int)) as int, limit as int),
        decreases b - i,
    {
        let c = s[i];
        let dig: u128 = if 0x30 <= c && c <= 0x39 {
            (c - 0x30) as u128
        } else if 0x41 <= c && c <= 0x46 {
            (c - 0x41 + 10) as u128
        } else {
            (c - 0x61 + 10) as u128
        };
        proof {
            assert(scan::is_hex_digit(s@[i as int]));
            let pre = s@.subrange(a as int, i as int);
            let post = s@.subrange(a as int, i + 1);
            assert(post.drop_last() =~= pre);
            assert(post.last() == c);
            assert(hex_value(post) == hex_value(pre) * 16 + hex_digit_value(c));
            assert(dig == hex_digit_value(c));
        }
        let next = acc * 16 + dig;
        acc = if next > limit {
            limit
        } else {
            next
        };
        i = i + 1;
    }
    acc as usize
}

/// Strip HTTP chunked transfer encoding framing from a response body.
///
/// If the body looks like it starts with a hex chunk-size line (`<hex>\r\n`),
/// the chunk data is extracted: every size line is skipped, the data of the
/// chunks is joined, and decoding ends at the last (zero-size) chunk.  For
/// non-chunked bodies this returns the input unchanged.
pub fn strip_chunked_framing(body: &[u8]) -> (r: Vec<u8>)
    ensures
        r@ == chunked_body(body@),
{
    let n = body.len();
    let t = scan::trim_start_index(body, 0, n);
    if size_line_exec(body, t).is_none() {
        return vstd::slice::slice_to_vec(body);
    }
    decode_chunks(body, t)
}

/// The joined data of the chunks whose size line starts at `start`.
fn decode_chunks(body: &[u8], start: usize) -> (r: Vec<u8>)
    requires
        start <= body@.len(),
    ensures
        r@ == chunks_from(body@, start as int),
{
    let n = body.len();
    let ghost goal = chunks_from(body@, start as int);
    let mut out: Vec<u8> = Vec::new();
    assert(out@ + goal =~= goal);
    let mut p = start;
    loop
        invariant
            n == body@.len(),
            p <= n,
            out@ + chunks_from(body@, p as int) == goal,
            goal == chunks_from(body@, start as int),
        decreases n - p,
    {
        proof {
            lemma_size_line_bounds(body@, p as int);
        }
        let (a, b, d) = match size_line_exec(body, p) {
            Some(x) => x,
            None => {
                assert(out@ + Seq::<u8>::empty() =~= out@);
                return out;
            },
        };
        let v = hex_value_capped(body, a, b, n - d);
        let ghost size = hex_value(body@.subrange(a as int, b as int));
        proof {
            assert(chunks_from(body@, p as int) == if size == 0 {
                Seq::<u8>::empty()
            } else if d + size > n {
                body@.subrange(d as int, scan::trim_end_from(body@, d as int, n as int))
            } else if d + size + 2 <= n && body@.subrange(d + size, d + size + 2) == crlf() {
                body@.subrange(d as int, d + size) + chunks_from(body@, d + size + 2)
            } else {
                body@.subrange(d as int, d + size)
            });
        }
        if v == 0 {
            assert(out@ + Seq::<u8>::empty() =~= out@);
            return out;
        }
        if v > n - d {
            let e = scan::trim_end_index(body, d, n);
            let tail = vstd::slice::slice_subrange(body, d, e);
            out.extend_from_slice(tail);
            return out;
        }
        let e = d + v;
        let data = vstd::slice::slice_subrange(body, d, e);
        let ghost before = out@;
        out.extend_from_slice(data);
        if n - e >= 2 && body[e] == 0x0d && body[e + 1] == 0x0a {
            proof {
                assert(body@.subrange(e as int, e + 2) =~= crlf());
                assert(before + chunks_from(body@, p as int) == before + (data@ + chunks_from(body@, e + 2)));
                assert(before + (data@ + chunks_from(body@, e + 2)) =~= out@ + chunks_from(body@, e + 2));
            }
            p = e + 2;
        } else {
            proof {
                if e + 2 <= n {
                    assert(body@.subrange(e as int, e + 2)[0] == body@[e as int]);
                    assert(body@.subrange(e as int, e + 2)[1] == body@[e + 1]);
                    assert(body@.subrange(e as int, e + 2) != crlf());
                }
            }
            return out;
        }
    }
}

/// Byte range of the value of the `"translatedText"` field in a JSON body:
/// the text between the first quote after the key and the next quote.
pub open spec fn translated_text_range(body: Seq<u8>) -> Option<(int, int)> {
    match scan::first_match(body, translated_text_key()) {
        Some(k) => {
            let after_key = k + translated_text_key().len();
            match scan::first_match(body.subrange(after_key, body.len() as int), quote()) {
                Some(q) => {
                    let value_start = after_key + q + 1;
                    match scan::first_match(
                        body.subrange(value_start, body.len() as int),
                        quote(),
                    ) {
                        Some(e) => Some((value_start, value_start + e)),
                        None => None,
                    }
                },
                None => None,
            }
        },
        None => None,
    }
}

/// The translated text is the whole quoted value of `translatedText`: in a
/// body `{"translatedText": "<t>"` followed by anything, where `t` holds no
/// quote byte, the text found runs from the opening quote to the next quote
/// and is exactly `t`, commas and all.
#[verifier::spinoff_prover]
#[verifier::rlimit(40)]
pub proof fn translated_text_is_whole_value(t: Seq<u8>, rest: Seq<u8>)
    requires
        forall|i: int| 0 <= i < t.len() ==> t[i] != 0x22,
    ensures
        ({
            let body = seq![0x7bu8] + translated_text_key() + seq![0x3au8, 0x20, 0x22] + t
                + seq![0x22u8] + rest;
            &&& translated_text_range(body) == Some((20int, 20 + t.len() as int))
            &&& body.subrange(20, 20 + t.len() as int) == t
        }),
{
    let key = translated_text_key();
    let body = seq![0x7bu8] + key + seq![0x3au8, 0x20, 0x22] + t + seq![0x22u8] + rest;
    let n = body.len() as int;
    assert(body.subrange(1, 17) =~= key);
    assert(body.subrange(0, 16)[0] != key[0]);
    scan::lemma_first_match_is(body, key, 1);
    let tail1 = body.subrange(17, n);
    assert(tail1 =~= seq![0x3au8, 0x20, 0x22] + t + seq![0x22u8] + rest);
    assert(tail1.subrange(2, 3) =~= quote());
    assert forall|j: int| 0 <= j < 2 implies !scan::matches_at(tail1, quote(), j) by {
        assert(tail1.subrange(j, j + 1)[0] == tail1[j]);
    }
    scan::lemma_first_match_is(tail1, quote(), 2);
    let tail2 = body.subrange(20, n);
    assert(tail2 =~= t + seq![0x22u8] + rest);
    assert(tail2.subrange(t.len() as int, t.len() + 1 as int) =~= quote());
    assert forall|j: int| 0 <= j < t.len() implies !scan::matches_at(tail2, quote(), j) by {
        assert(tail2.subrange(j, j + 1)[0] == tail2[j]);
        assert(tail2[j] == t[j]);
    }
    scan::lemma_first_match_is(tail2, quote(), t.len() as int);
    assert(body.subrange(20, 20 + t.len() as int) =~= t);
}

/// The body of an HTTP response: everything after the blank line that ends
/// the header, with any chunked framing stripped.
pub open spec fn response_body(resp: Seq<u8>, header_end: int) -> Seq<u8> {
    chunked_body(resp.subrange(header_end + 4, resp.len() as int))
}

/// What a translation response yields: the translated text, or the error
/// reported for it.
pub open spec fn translation_from_response(resp: Seq<u8>) -> Result<Seq<u8>, TranslateError> {
    if !vstd::utf8::valid_utf8(resp) {
        Err(TranslateError::ParseFailed)
    } else {
        match scan::first_match(resp, networking::header_terminator()) {
            None => Err(TranslateError::ResponseReadFailed),
            Some(h) => {
                let body = response_body(resp, h);
                match translated_text_range(body) {
                    Some((a, b)) => Ok(body.subrange(a, b)),
                    None => Err(TranslateError::ParseFailed),
                }
            },
        }
    }
}

/// Locate the translated text in a JSON body.
pub fn find_translated_text(body: &[u8]) -> (r: Option<(usize, usize)>)
    ensures
        match r {
            Some((a, b)) => translated_text_range(body@) == Some((a as int, b as int)) && a <= b
                <= body@.len(),
            None => translated_text_range(body@) == None::<(int, int)>,
        },
{
    let key = translated_text_key_bytes();
    let q = quote_bytes();
    let n = body.len();
    match scan::find_bytes(body, key.as_slice()) {
        Some(k) => {
            let after_key = k + key.len();
            let rest = vstd::slice::slice_subrange(body, after_key, n);
            match scan::find_bytes(rest, q.as_slice()) {
                Some(qp) => {
                    let value_start = after_key + qp + 1;
                    let tail = vstd::slice::slice_subrange(body, value_start, n);
                    match scan::find_bytes(tail, q.as_slice()) {
                        Some(e) => Some((value_start, value_start + e)),
                        None => None,
                    }
                },
                None => None,
            }
        },
        None => None,
    }
}

/// The translated text carried by a complete HTTP response from the
/// translation service.
pub fn translated_text_in_response(resp: &[u8]) -> (r: Result<Vec<u8>, TranslateError>)
    ensures
        match r {
            Ok(t) => translation_from_response(resp@) == Ok::<Seq<u8>, TranslateError>(t@),
            Err(e) => translation_from_response(resp@) == Err::<Seq<u8>, TranslateError>(e),
        },
{
    if crate::scan::str_from_utf8(resp).is_none() {
        return Err(TranslateError::ParseFailed);
    }
    let header_end: usize;
    match networking::find_header_end(resp) {
        Some(h) => {
            header_end = h;
        },
        None => {
            return Err(TranslateError::ResponseReadFailed);
        },
    }
    let n = resp.len();
    assert(header_end + 4 <= n);
    let raw_body = vstd::slice::slice_subrange(resp, header_end + 4, n);
    let body = strip_chunked_framing(raw_body);
    assert(body@ == response_body(resp@, header_end as int));
    match find_translated_text(body.as_slice()) {
        Some((a, b)) => Ok(vstd::slice::slice_to_vec(vstd::slice::slice_subrange(body.as_slice(), a, b))),
        None => Err(TranslateError::ParseFailed),
    }
}

/// Interpret a complete HTTP response from the translation service and copy
/// the translated text into `rx_buf`, truncated to its length.  Returns the
/// number of bytes written.
pub fn parse_translate_response(resp: &[u8], rx_buf: &mut [u8]) -> (r: Result<usize, TranslateError>)
    ensures
        final(rx_buf)@.len() == old(rx_buf)@.len(),
        match r {
            Ok(len) => {
                &&& translation_from_response(resp@) is Ok
                &&& len as int == vstd::math::min(
                    translation_from_response(resp@)->Ok_0.len() as int,
                    old(rx_buf)@.len() as int,
                )
                &&& final(rx_buf)@.subrange(0, len as int) == translation_from_response(
                    resp@,
                )->Ok_0.subrange(0, len as int)
                &&& final(rx_buf)@.subrange(len as int, old(rx_buf)@.len() as int) == old(
                    rx_buf,
                )@.subrange(len as int, old(rx_buf)@.len() as int)
            },
            Err(e) => translation_from_response(resp@) == Err::<Seq<u8>, TranslateError>(e)
                && final(rx_buf)@ == old(rx_buf)@,
        },
{
    let translated = match translated_text_in_response(resp) {
        Ok(t) => t,
        Err(e) => {
            return Err(e);
        },
    };
    let len = if translated.len() < rx_buf.len() {
        translated.len()
    } else {
        rx_buf.len()
    };
    let mut i: usize = 0;
    while i < len
        invariant
            len <= translated@.len(),
            len <= rx_buf@.len(),
            rx_buf@.len() == old(rx_buf)@.len(),
            0 <= i <= len,
            forall|j: int| 0 <= j < i ==> rx_buf@[j] == translated@[j],
            forall|j: int| len <= j < rx_buf@.len() ==> rx_buf@[j] == old(rx_buf)@[j],
        decreases len - i,
    {
        rx_buf[i] = translated[i];
        i = i + 1;
    }
    proof {
        assert(rx_buf@.subrange(0, len as int) =~= translated@.subrange(0, len as int));
        assert(rx_buf@.subrange(len as int, rx_buf@.len() as int) =~= old(rx_buf)@.subrange(
            len as int,
            old(rx_buf)@.len() as int,
        ));
    }
    Ok(len)
}


/// What one read from the connection returned.
#[derive(Debug, Clone, Copy, PartialEq, Eq, Structural)]
pub enum ReadOutcome {
    /// `n` bytes were read; `0` means the peer closed the connection.
    Bytes(usize),
    /// The read failed.
    Error,
}

/// How reading the response continues after a read.
#[derive(Debug, Clone, Copy, PartialEq, Eq, Structural)]
pub enum ResponseRead {
    /// Read again; the response now holds this many bytes.
    More(usize),
    /// The response is complete with this many bytes.
    Done(usize),
    /// Reading failed with this error.
    Failed(TranslateError),
}

/// Decide how reading the HTTP response continues after a read that
/// returned `outcome`, when `resp_len` of the buffer's `capacity` bytes were
/// filled before it.
///
/// A closed connection completes the response.  A failed read completes it
/// when something was received already and fails it otherwise.  Received
/// bytes extend it, and once the buffer is full the response is too large.
pub fn response_read_step(resp_len: usize, capacity: usize, outcome: ReadOutcome) -> (r: ResponseRead)
    requires
        resp_len < capacity,
        outcome matches ReadOutcome::Bytes(n) ==> n <= capacity - resp_len,
    ensures
        r == match outcome {
            ReadOutcome::Bytes(n) => if n == 0 {
                ResponseRead::Done(resp_len)
            } else if resp_len + n < capacity {
                ResponseRead::More((resp_len + n) as usize)
            } else {
                ResponseRead::Failed(TranslateError::ResponseReadFailed)
            },
            ReadOutcome::Error => if resp_len > 0 {
                ResponseRead::Done(resp_len)
            } else {
                ResponseRead::Failed(TranslateError::ResponseReadFailed)
            },
        },
{
    match outcome {
        ReadOutcome::Bytes(n) => {
            if n == 0 {
                ResponseRead::Done(resp_len)
            } else if resp_len + n < capacity {
                ResponseRead::More(resp_len + n)
            } else {
                ResponseRead::Failed(TranslateError::ResponseReadFailed)
            }
        },
        ReadOutcome::Error => {
            if resp_len > 0 {
                ResponseRead::Done(resp_len)
            } else {
                ResponseRead::Failed(TranslateError::ResponseReadFailed)
            }
        },
    }
}

/// The buffer was too small for what was written to it.
#[derive(Debug, Clone, Copy, PartialEq, Eq, Structural)]
pub struct BufferFull;

/// A fixed-capacity byte buffer that text is appended to; a write that does
/// not fit fails and leaves the buffer as it was.
pub struct WriteBuf {
    buf: Vec<u8>,
    pos: usize,
}

impl View for WriteBuf {
    type V = Seq<u8>;

    /// The bytes written so far.
    closed spec fn view(&self) -> Seq<u8> {
        self.buf@.subrange(0, self.pos as int)
    }
}

impl WriteBuf {
    /// The write position lies within the buffer.
    pub closed spec fn wf(&self) -> bool {
        self.pos <= self.buf@.len()
    }

    /// Number of bytes the buffer can hold.
    pub closed spec fn capacity(&self) -> nat {
        self.buf@.len()
    }

    /// An empty buffer that can hold `capacity` bytes.
    pub fn new(capacity: usize) -> (w: WriteBuf)
        ensures
            w.wf(),
            w@ == Seq::<u8>::empty(),
            w.capacity() == capacity,
    {
        let mut buf: Vec<u8> = Vec::new();
        let mut i: usize = 0;
        while i < capacity
            invariant
                i <= capacity,
                buf@.len() == i,
            decreases capacity - i,
        {
            buf.push(0);
            i = i + 1;
        }
        let w = WriteBuf { buf, pos: 0 };
        assert(w@ =~= Seq::<u8>::empty());
        w
    }

    /// Number of bytes written so far.
    pub fn pos(&self) -> (n: usize)
        requires
            self.wf(),
        ensures
            n == self@.len(),
    {
        self.pos
    }

    /// The bytes written so far.
    pub fn written(&self) -> (b: &[u8])
        requires
            self.wf(),
        ensures
            b@ == self@,
    {
        vstd::slice::slice_subrange(self.buf.as_slice(), 0, self.pos)
    }

    /// Append `bytes` if they fit.
    pub fn write_bytes(&mut self, bytes: &[u8]) -> (r: Result<(), BufferFull>)
        requires
            old(self).wf(),
        ensures
            final(self).wf(),
            final(self).capacity() == old(self).capacity(),
            r is Ok <==> old(self)@.len() + bytes@.len() <= old(self).capacity(),
            r is Ok ==> final(self)@ == old(self)@ + bytes@,
            r is Err ==> final(self)@ == old(self)@,
    {
        let n = bytes.len();
        if n > self.buf.len() - self.pos {
            return Err(BufferFull);
        }
        let ghost start = self@;
        let mut k: usize = 0;
        while k < n
            invariant
                n == bytes@.len(),
                self.pos + n <= self.buf.len(),
                self.buf@.len() == old(self).buf@.len(),
                self.pos == old(self).pos,
                k <= n,
                forall|j: int| 0 <= j < self.pos ==> self.buf@[j] == old(self).buf@[j],
                forall|j: int| 0 <= j < k ==> self.buf@[self.pos + j] == bytes@[j],
            decreases n - k,
        {
            let p = self.pos + k;
            self.buf.set(p, bytes[k]);
            k = k + 1;
        }
        self.pos = self.pos + n;
        assert(self@ =~= old(self)@ + bytes@);
        Ok(())
    }

    /// Append the UTF-8 bytes of `s` if they fit.
    pub fn write_str(&mut self, s: &str) -> (r: Result<(), BufferFull>)
        requires
            old(self).wf(),
        ensures
            final(self).wf(),
            final(self).capacity() == old(self).capacity(),
            r is Ok <==> old(self)@.len() + s.spec_bytes().len() <= old(self).capacity(),
            r is Ok ==> final(self)@ == old(self)@ + s.spec_bytes(),
            r is Err ==> final(self)@ == old(self)@,
    {
        self.write_bytes(s.as_bytes())
    }
}

/// The lower-case hexadecimal digit of `d` (below 16).
pub open spec fn hex_digit_lower(d: int) -> u8 {
    if d < 10 {
        (0x30 + d) as u8
    } else {
        (0x61 + d - 10) as u8
    }
}

/// How one byte of text is written inside a JSON string literal: quote and
/// backslash behind a backslash, the control characters that JSON names
/// (backspace, form feed, line feed, carriage return, tab) as their short
/// escapes, every other control character as `\u00XX`, and every other
/// byte as itself.
pub open spec fn escape_byte(b: u8) -> Seq<u8> {
    if b == 0x22 {
        seq![0x5c, 0x22]
    } else if b == 0x5c {
        seq![0x5c, 0x5c]
    } else if b == 0x08 {
        seq![0x5c, 0x62]
    } else if b == 0x0c {
        seq![0x5c, 0x66]
    } else if b == 0x0a {
        seq![0x5c, 0x6e]
    } else if b == 0x0d {
        seq![0x5c, 0x72]
    } else if b == 0x09 {
        seq![0x5c, 0x74]
    } else if b < 0x20 {
        seq![0x5c, 0x75, 0x30, 0x30, hex_digit_lower((b / 16) as int), hex_digit_lower((b % 16) as int)]
    } else {
        seq![b]
    }
}

/// Text escaped for a JSON string literal, byte by byte as
/// [`escape_byte`] writes it.
pub open spec fn json_escape(s: Seq<u8>) -> Seq<u8>
    decreases s.len(),
{
    if s.len() == 0 {
        Seq::empty()
    } else {
        json_escape(s.drop_last()) + escape_byte(s.last())
    }
}

/// Escaping a longer prefix never gives fewer bytes.
pub proof fn lemma_json_escape_prefix_len(s: Seq<u8>, i: int, j: int)
    requires
        0 <= i <= j <= s.len(),
    ensures
        json_escape(s.subrange(0, i)).len() <= json_escape(s.subrange(0, j)).len(),
    decreases j - i,
{
    if i < j {
        lemma_json_escape_prefix_len(s, i, j - 1);
        assert(s.subrange(0, j).drop_last() =~= s.subrange(0, j - 1));
    }
}

/// The byte a two-byte escape `\\x` stands for.
pub open spec fn unescaped_byte(x: u8) -> u8 {
    if x == 0x62 {
        0x08
    } else if x == 0x66 {
        0x0c
    } else if x == 0x6e {
        0x0a
    } else if x == 0x72 {
        0x0d
    } else if x == 0x74 {
        0x09
    } else {
        x
    }
}

/// Value of a lower-case hexadecimal digit.
pub open spec fn lower_hex_value(c: u8) -> int {
    if c <= 0x39 {
        c - 0x30
    } else {
        c - 0x61 + 10
    }
}

/// Read JSON string escapes back: `\\u` and four hexadecimal digits stand
/// for the byte their last two digits give, a backslash and any other byte
/// after it for one byte, every other byte for itself.
pub open spec fn json_unescape(t: Seq<u8>) -> Seq<u8>
    decreases t.len(),
{
    if t.len() == 0 {
        Seq::empty()
    } else if t[0] == 0x5c && t.len() >= 6 && t[1] == 0x75 {
        seq![(lower_hex_value(t[4]) * 16 + lower_hex_value(t[5])) as u8] + json_unescape(
            t.subrange(6, t.len() as int),
        )
    } else if t[0] == 0x5c && t.len() >= 2 {
        seq![unescaped_byte(t[1])] + json_unescape(t.subrange(2, t.len() as int))
    } else {
        seq![t[0]] + json_unescape(t.subrange(1, t.len() as int))
    }
}

proof fn lemma_json_escape_concat(a: Seq<u8>, b: Seq<u8>)
    ensures
        json_escape(a + b) == json_escape(a) + json_escape(b),
    decreases b.len(),
{
    if b.len() == 0 {
        assert(a + b =~= a);
        assert(json_escape(a) + json_escape(b) =~= json_escape(a));
    } else {
        lemma_json_escape_concat(a, b.drop_last());
        assert((a + b).drop_last() =~= a + b.drop_last());
        assert(json_escape(a) + json_escape(b) =~= json_escape(a) + json_escape(b.drop_last())
            + escape_byte(b.last()));
    }
}

proof fn lemma_unescape_after_escape_byte(b: u8, t: Seq<u8>)
    ensures
        json_unescape(escape_byte(b) + t) == seq![b] + json_unescape(t),
{
    let e = escape_byte(b) + t;
    if escape_byte(b).len() == 6 {
        assert(e.subrange(6, e.len() as int) =~= t);
        assert(e[4] == hex_digit_lower((b / 16) as int));
        assert(e[5] == hex_digit_lower((b % 16) as int));
        assert(lower_hex_value(e[4]) == b / 16);
        assert(lower_hex_value(e[5]) == b % 16);
    } else if escape_byte(b).len() == 2 {
        assert(e.subrange(2, e.len() as int) =~= t);
    } else {
        assert(e.subrange(1, e.len() as int) =~= t);
    }
}

/// Escaping loses nothing: reading the escapes back gives the input bytes
/// again, so the request carries exactly the text to translate.
pub proof fn json_escape_round_trip(s: Seq<u8>)
    ensures
        json_unescape(json_escape(s)) == s,
    decreases s.len(),
{
    if s.len() > 0 {
        let rest = s.subrange(1, s.len() as int);
        json_escape_round_trip(rest);
        assert(s =~= seq![s[0]] + rest);
        lemma_json_escape_concat(seq![s[0]], rest);
        let one = seq![s[0]];
        assert(one.drop_last() =~= Seq::<u8>::empty());
        assert(one.last() == s[0]);
        assert(json_escape(Seq::<u8>::empty()) =~= Seq::<u8>::empty());
        assert(json_escape(one) == json_escape(one.drop_last()) + escape_byte(one.last()));
        assert(json_escape(one) =~= escape_byte(s[0]));
        lemma_unescape_after_escape_byte(s[0], json_escape(rest));
    }
}

/// Text with nothing JSON treats specially (no quote, no backslash, no
/// control character) is written unchanged; in particular every byte at or
/// above 0x80, so every non-ASCII character, goes out as it came.
pub proof fn json_escape_keeps_plain_text(s: Seq<u8>)
    requires
        forall|i: int| 0 <= i < s.len() ==> s[i] >= 0x20 && s[i] != 0x22 && s[i] != 0x5c,
    ensures
        json_escape(s) == s,
    decreases s.len(),
{
    if s.len() > 0 {
        json_escape_keeps_plain_text(s.drop_last());
        assert(escape_byte(s.last()) =~= seq![s.last()]);
        assert(s.drop_last().push(s.last()) =~= s);
        assert(json_escape(s) =~= s);
    }
}

/// A run of ASCII bytes is valid UTF-8.
proof fn lemma_ascii_is_utf8(t: Seq<u8>)
    requires
        forall|i: int| 0 <= i < t.len() ==> t[i] <= 0x7f,
    ensures
        vstd::utf8::valid_utf8(t),
    decreases t.len(),
{
    if t.len() > 0 {
        let b = t[0];
        assert(b & 0x7f <= 0x7f) by (bit_vector);
        assert(vstd::utf8::valid_first_scalar(t));
        let rest = vstd::utf8::pop_first_scalar(t);
        assert(rest =~= t.subrange(1, t.len() as int));
        lemma_ascii_is_utf8(rest);
    }
}

/// Escaping keeps text valid UTF-8: ASCII bytes are replaced by ASCII
/// escapes and the bytes of every other character are kept, so escaped
/// UTF-8 text is UTF-8 that the service reads back as the same characters.
#[verifier::spinoff_prover]
#[verifier::rlimit(40)]
pub proof fn json_escape_keeps_utf8(s: Seq<u8>)
    requires
        vstd::utf8::valid_utf8(s),
    ensures
        vstd::utf8::valid_utf8(json_escape(s)),
    decreases s.len(),
{
    if s.len() == 0 {
        assert(json_escape(s) =~= Seq::<u8>::empty());
    } else {
        let n = s.len() as int;
        let l = vstd::utf8::length_of_first_scalar(s);
        let head = s.subrange(0, l);
        let tail = s.subrange(l, n);
        assert(tail == vstd::utf8::pop_first_scalar(s));
        json_escape_keeps_utf8(tail);
        lemma_json_escape_concat(head, tail);
        assert(head + tail =~= s);
        if l == 1 {
            let e = escape_byte(s[0]);
            assert(head.drop_last() =~= Seq::<u8>::empty());
            assert(head.last() == s[0]);
            assert(json_escape(Seq::<u8>::empty()) =~= Seq::<u8>::empty());
            assert(json_escape(head) == json_escape(head.drop_last()) + escape_byte(head.last()));
            assert(json_escape(head) =~= e);
            assert(forall|k: int| 0 <= k < e.len() ==> e[k] <= 0x7f);
            lemma_ascii_is_utf8(e);
        } else {
            assert(forall|k: int| 0 <= k < l ==> head[k] == s[k]);
            assert(forall|k: int| 0 <= k < head.len() ==> head[k] >= 0x80);
            json_escape_keeps_plain_text(head);
            assert(vstd::utf8::valid_first_scalar(head));
            assert(vstd::utf8::pop_first_scalar(head) =~= Seq::<u8>::empty());
            reveal_with_fuel(vstd::utf8::valid_utf8, 2);
            assert(vstd::utf8::valid_utf8(head));
        }
        vstd::utf8::valid_utf8_concat(json_escape(head), json_escape(tail));
    }
}

/// Escaped text cannot end a JSON string early or hold what JSON forbids in
/// one: it has no control character (no byte below 0x20), and every quote
/// in it is the second byte of a two-byte escape.
pub proof fn json_escape_is_string_safe(s: Seq<u8>)
    ensures
        forall|k: int| 0 <= k < json_escape(s).len() ==> #[trigger] json_escape(s)[k] >= 0x20,
        forall|k: int|
            0 <= k < json_escape(s).len() && #[trigger] json_escape(s)[k] == 0x22 ==> k > 0
                && json_escape(s)[k - 1] == 0x5c,
    decreases s.len(),
{
    if s.len() > 0 {
        json_escape_is_string_safe(s.drop_last());
        let p = json_escape(s.drop_last());
        let e = escape_byte(s.last());
        assert(json_escape(s) == p + e);
        assert forall|k: int| 0 <= k < json_escape(s).len() implies #[trigger] json_escape(s)[k]
            >= 0x20 by {
            if k < p.len() {
                assert(json_escape(s)[k] == p[k]);
            } else {
                assert(json_escape(s)[k] == e[k - p.len()]);
            }
        }
        assert forall|k: int|
            0 <= k < json_escape(s).len() && #[trigger] json_escape(s)[k] == 0x22 implies k > 0
                && json_escape(s)[k - 1] == 0x5c by {
            if k < p.len() {
                assert(json_escape(s)[k] == p[k]);
                assert(p[k] == 0x22);
                assert(json_escape(s)[k - 1] == p[k - 1]);
            } else {
                assert(json_escape(s)[k] == e[k - p.len()]);
                if k - p.len() == 1 {
                    assert(json_escape(s)[k - 1] == e[0]);
                }
            }
        }
    }
}

fn hex_digit_lower_exec(d: u8) -> (c: u8)
    requires
        d < 16,
    ensures
        c == hex_digit_lower(d as int),
{
    if d < 10 {
        0x30 + d
    } else {
        0x61 + d - 10
    }
}

fn escape_byte_exec(b: u8) -> (v: Vec<u8>)
    ensures
        v@ == escape_byte(b),
{
    if b == 0x22 {
        vec![0x5c, 0x22]
    } else if b == 0x5c {
        vec![0x5c, 0x5c]
    } else if b == 0x08 {
        vec![0x5c, 0x62]
    } else if b == 0x0c {
        vec![0x5c, 0x66]
    } else if b == 0x0a {
        vec![0x5c, 0x6e]
    } else if b == 0x0d {
        vec![0x5c, 0x72]
    } else if b == 0x09 {
        vec![0x5c, 0x74]
    } else if b < 0x20 {
        vec![0x5c, 0x75, 0x30, 0x30, hex_digit_lower_exec(b / 16), hex_digit_lower_exec(b % 16)]
    } else {
        vec![b]
    }
}

/// Write `s` into `w`, escaping characters that are special in JSON strings.
///
/// Characters are written whole.  Fails with `BodyTooLong` exactly when the
/// escaped text does not fit; the buffer then holds the escapes of the
/// longest run of whole characters at the start of `s` whose escape fits.
#[verifier::spinoff_prover]
#[verifier::rlimit(40)]
pub fn write_json_escaped(w: &mut WriteBuf, s: &str) -> (r: Result<(), TranslateError>)
    requires
        old(w).wf(),
    ensures
        final(w).wf(),
        final(w).capacity() == old(w).capacity(),
        r is Ok <==> old(w)@.len() + json_escape(s.spec_bytes()).len() <= old(w).capacity(),
        r is Ok ==> final(w)@ == old(w)@ + json_escape(s.spec_bytes()),
        r matches Err(e) ==> e == TranslateError::BodyTooLong && exists|i: int|
            {
                &&& 0 <= i < s.spec_bytes().len()
                &&& #[trigger] vstd::utf8::is_char_boundary(s.spec_bytes(), i)
                &&& final(w)@ == old(w)@ + json_escape(s.spec_bytes().subrange(0, i))
                &&& forall|j: int|
                    i < j <= s.spec_bytes().len() && #[trigger] vstd::utf8::is_char_boundary(
                        s.spec_bytes(),
                        j,
                    ) ==> old(w)@.len() + json_escape(s.spec_bytes().subrange(0, j)).len()
                        > old(w).capacity()
            },
{
    let bytes = s.as_bytes();
    let n = bytes.len();
    let mut i: usize = 0;
    proof {
        vstd::utf8::encode_utf8_valid_utf8(s@);
        vstd::utf8::is_char_boundary_start_end_of_seq(bytes@);
        assert(bytes@.subrange(0, 0) =~= Seq::<u8>::empty());
        assert(old(w)@ + json_escape(Seq::<u8>::empty()) =~= old(w)@);
    }
    while i < n
        invariant
            n == bytes@.len(),
            bytes@ == s.spec_bytes(),
            vstd::utf8::valid_utf8(bytes@),
            i <= n,
            vstd::utf8::is_char_boundary(bytes@, i as int),
            w.capacity() == old(w).capacity(),
            w.wf(),
            w@ == old(w)@ + json_escape(bytes@.subrange(0, i as int)),
        decreases n - i,
    {
        // The character starting at `i` ends where the next non-continuation
        // byte (or the end) is.
        let mut j = i + 1;
        while j < n && 0x80 <= bytes[j] && bytes[j] <= 0xbf
            invariant
                n == bytes@.len(),
                i < j <= n,
                forall|k: int| i < k < j ==> vstd::utf8::is_continuation_byte(#[trigger] bytes@[k]),
            decreases n - j,
        {
            j = j + 1;
        }
        proof {
            if j < n {
                vstd::utf8::is_char_boundary_iff_not_is_continuation_byte(bytes@, j as int);
            } else {
                vstd::utf8::is_char_boundary_start_end_of_seq(bytes@);
            }
        }
        let mut piece: Vec<u8> = Vec::new();
        let mut k = i;
        proof {
            assert(bytes@.subrange(i as int, i as int) =~= Seq::<u8>::empty());
        }
        while k < j
            invariant
                n == bytes@.len(),
                i <= k <= j <= n,
                piece@ == json_escape(bytes@.subrange(i as int, k as int)),
            decreases j - k,
        {
            let mut e = escape_byte_exec(bytes[k]);
            proof {
                assert(bytes@.subrange(i as int, k + 1).drop_last() =~= bytes@.subrange(
                    i as int,
                    k as int,
                ));
            }
            piece.append(&mut e);
            k = k + 1;
        }
        proof {
            lemma_json_escape_concat(bytes@.subrange(0, i as int), bytes@.subrange(i as int, j as int));
            assert(bytes@.subrange(0, i as int) + bytes@.subrange(i as int, j as int) =~= bytes@.subrange(
                0,
                j as int,
            ));
        }
        match w.write_bytes(piece.as_slice()) {
            Ok(()) => {
                assert(w@ =~= old(w)@ + json_escape(bytes@.subrange(0, j as int)));
            },
            Err(_) => {
                proof {
                    lemma_json_escape_prefix_len(bytes@, j as int, n as int);
                    assert(bytes@.subrange(0, n as int) =~= bytes@);
                    assert forall|jj: int|
                        i < jj <= n && #[trigger] vstd::utf8::is_char_boundary(bytes@, jj) implies old(
                        w,
                    )@.len() + json_escape(bytes@.subrange(0, jj)).len() > old(w).capacity() by {
                        if jj < j {
                            vstd::utf8::is_char_boundary_iff_not_is_continuation_byte(bytes@, jj);
                            assert(vstd::utf8::is_continuation_byte(bytes@[jj]));
                        } else {
                            lemma_json_escape_prefix_len(bytes@, j as int, jj);
                        }
                    }
                }
                return Err(TranslateError::BodyTooLong);
            },
        }
        i = j;
    }
    proof {
        assert(bytes@.subrange(0, n as int) =~= bytes@);
    }
    Ok(())
}

/// The ASCII decimal digits of `n`.
pub open spec fn decimal_digits(n: nat) -> Seq<u8>
    decreases n,
{
    if n < 10 {
        seq![(0x30 + n) as u8]
    } else {
        decimal_digits(n / 10).push((0x30 + n % 10) as u8)
    }
}

/// The ASCII decimal digits of `n`, as `{}` formats an unsigned integer.
pub fn decimal_bytes(n: usize) -> (v: Vec<u8>)
    ensures
        v@ == decimal_digits(n as nat),
    decreases n,
{
    if n < 10 {
        vec![(0x30 + n) as u8]
    } else {
        let mut v = decimal_bytes(n / 10);
        v.push((0x30 + n % 10) as u8);
        v
    }
}

/// The bytes of `{"q":"`.
pub open spec fn body_open() -> Seq<u8> {
    seq![0x7b, 0x22, 0x71, 0x22, 0x3a, 0x22]
}

fn body_open_bytes() -> (v: Vec<u8>)
    ensures
        v@ == body_open(),
{
    vec![0x7b, 0x22, 0x71, 0x22, 0x3a, 0x22]
}

/// The bytes of `","source":"`.
pub open spec fn body_source_key() -> Seq<u8> {
    seq![0x22, 0x2c, 0x22, 0x73, 0x6f, 0x75, 0x72, 0x63, 0x65, 0x22, 0x3a, 0x22]
}

fn body_source_key_bytes() -> (v: Vec<u8>)
    ensures
        v@ == body_source_key(),
{
    vec![0x22, 0x2c, 0x22, 0x73, 0x6f, 0x75, 0x72, 0x63, 0x65, 0x22, 0x3a, 0x22]
}

/// The bytes of `","target":"`.
pub open spec fn body_target_key() -> Seq<u8> {
    seq![0x22, 0x2c, 0x22, 0x74, 0x61, 0x72, 0x67, 0x65, 0x74, 0x22, 0x3a, 0x22]
}

fn body_target_key_bytes() -> (v: Vec<u8>)
    ensures
        v@ == body_target_key(),
{
    vec![0x22, 0x2c, 0x22, 0x74, 0x61, 0x72, 0x67, 0x65, 0x74, 0x22, 0x3a, 0x22]
}

/// The bytes of `","format":"text"}`.
pub open spec fn body_close() -> Seq<u8> {
    seq![0x22, 0x2c, 0x22, 0x66, 0x6f, 0x72, 0x6d, 0x61, 0x74, 0x22, 0x3a, 0x22, 0x74, 0x65, 0x78, 0x74, 0x22, 0x7d]
}

fn body_close_bytes() -> (v: Vec<u8>)
    ensures
        v@ == body_close(),
{
    vec![0x22, 0x2c, 0x22, 0x66, 0x6f, 0x72, 0x6d, 0x61, 0x74, 0x22, 0x3a, 0x22, 0x74, 0x65, 0x78, 0x74, 0x22, 0x7d]
}

/// The bytes of `POST /language/translate/v2?key=`.
pub open spec fn request_line_open() -> Seq<u8> {
    seq![0x50, 0x4f, 0x53, 0x54, 0x20, 0x2f, 0x6c, 0x61, 0x6e, 0x67, 0x75, 0x61, 0x67, 0x65, 0x2f, 0x74, 0x72, 0x61, 0x6e, 0x73, 0x6c, 0x61, 0x74, 0x65, 0x2f, 0x76, 0x32, 0x3f, 0x6b, 0x65, 0x79, 0x3d]
}

fn request_line_open_bytes() -> (v: Vec<u8>)
    ensures
        v@ == request_line_open(),
{
    vec![0x50, 0x4f, 0x53, 0x54, 0x20, 0x2f, 0x6c, 0x61, 0x6e, 0x67, 0x75, 0x61, 0x67, 0x65, 0x2f, 0x74, 0x72, 0x61, 0x6e, 0x73, 0x6c, 0x61, 0x74, 0x65, 0x2f, 0x76, 0x32, 0x3f, 0x6b, 0x65, 0x79, 0x3d]
}

/// The bytes of ` HTTP/1.1\r\nHost: translation.googleapis.com\r\nContent-Type: application/json\r\nContent-Length: `.
pub open spec fn request_headers() -> Seq<u8> {
    seq![0x20, 0x48, 0x54, 0x54, 0x50, 0x2f, 0x31, 0x2e, 0x31, 0x0d, 0x0a, 0x48, 0x6f, 0x73, 0x74, 0x3a, 0x20, 0x74, 0x72, 0x61, 0x6e, 0x73, 0x6c, 0x61, 0x74, 0x69, 0x6f, 0x6e, 0x2e, 0x67, 0x6f, 0x6f, 0x67, 0x6c, 0x65, 0x61, 0x70, 0x69, 0x73, 0x2e, 0x63, 0x6f, 0x6d, 0x0d, 0x0a, 0x43, 0x6f, 0x6e, 0x74, 0x65, 0x6e, 0x74, 0x2d, 0x54, 0x79, 0x70, 0x65, 0x3a, 0x20, 0x61, 0x70, 0x70, 0x6c, 0x69, 0x63, 0x61, 0x74, 0x69, 0x6f, 0x6e, 0x2f, 0x6a, 0x73, 0x6f, 0x6e, 0x0d, 0x0a, 0x43, 0x6f, 0x6e, 0x74, 0x65, 0x6e, 0x74, 0x2d, 0x4c, 0x65, 0x6e, 0x67, 0x74, 0x68, 0x3a, 0x20]
}

fn request_headers_bytes() -> (v: Vec<u8>)
    ensures
        v@ == request_headers(),
{
    vec![0x20, 0x48, 0x54, 0x54, 0x50, 0x2f, 0x31, 0x2e, 0x31, 0x0d, 0x0a, 0x48, 0x6f, 0x73, 0x74, 0x3a, 0x20, 0x74, 0x72, 0x61, 0x6e, 0x73, 0x6c, 0x61, 0x74, 0x69, 0x6f, 0x6e, 0x2e, 0x67, 0x6f, 0x6f, 0x67, 0x6c, 0x65, 0x61, 0x70, 0x69, 0x73, 0x2e, 0x63, 0x6f, 0x6d, 0x0d, 0x0a, 0x43, 0x6f, 0x6e, 0x74, 0x65, 0x6e, 0x74, 0x2d, 0x54, 0x79, 0x70, 0x65, 0x3a, 0x20, 0x61, 0x70, 0x70, 0x6c, 0x69, 0x63, 0x61, 0x74, 0x69, 0x6f, 0x6e, 0x2f, 0x6a, 0x73, 0x6f, 0x6e, 0x0d, 0x0a, 0x43, 0x6f, 0x6e, 0x74, 0x65, 0x6e, 0x74, 0x2d, 0x4c, 0x65, 0x6e, 0x67, 0x74, 0x68, 0x3a, 0x20]
}

/// The bytes of `\r\nConnection: close\r\n\r\n`.
pub open spec fn request_close() -> Seq<u8> {
    seq![0x0d, 0x0a, 0x43, 0x6f, 0x6e, 0x6e, 0x65, 0x63, 0x74, 0x69, 0x6f, 0x6e, 0x3a, 0x20, 0x63, 0x6c, 0x6f, 0x73, 0x65, 0x0d, 0x0a, 0x0d, 0x0a]
}

fn request_close_bytes() -> (v: Vec<u8>)
    ensures
        v@ == request_close(),
{
    vec![0x0d, 0x0a, 0x43, 0x6f, 0x6e, 0x6e, 0x65, 0x63, 0x74, 0x69, 0x6f, 0x6e, 0x3a, 0x20, 0x63, 0x6c, 0x6f, 0x73, 0x65, 0x0d, 0x0a, 0x0d, 0x0a]
}
/// The JSON request body asking to translate `text` from `source` to `target`.
pub open spec fn translate_request_body(text: Seq<u8>, source: Seq<u8>, target: Seq<u8>) -> Seq<
    u8,
> {
    body_open() + json_escape(text) + body_source_key() + source + body_target_key() + target
        + body_close()
}

/// The HTTP request head for a translation request whose body is
/// `body_len` bytes long, authenticated with `api_key`.
pub open spec fn translate_request_head(api_key: Seq<u8>, body_len: nat) -> Seq<u8> {
    request_line_open() + api_key + request_headers() + decimal_digits(body_len)
        + request_close()
}

/// Build the JSON body of a translation request.  Fails with `BodyTooLong`
/// when it would exceed [`MAX_BODY_LEN`] bytes.
pub fn build_translate_body(text: &str, source_lang: &str, target_lang: &str) -> (r: Result<
    Vec<u8>,
    TranslateError,
>)
    ensures
        r is Ok <==> translate_request_body(
            text.spec_bytes(),
            source_lang.spec_bytes(),
            target_lang.spec_bytes(),
        ).len() <= MAX_BODY_LEN,
        r matches Ok(v) ==> v@ == translate_request_body(
            text.spec_bytes(),
            source_lang.spec_bytes(),
            target_lang.spec_bytes(),
        ),
        r matches Err(e) ==> e == TranslateError::BodyTooLong,
{
    let ghost t = text.spec_bytes();
    let ghost src = source_lang.spec_bytes();
    let ghost tgt = target_lang.spec_bytes();
    let ghost total = translate_request_body(t, src, tgt);
    let mut w = WriteBuf::new(MAX_BODY_LEN);
    let open = body_open_bytes();
    if w.write_bytes(open.as_slice()).is_err() {
        return Err(TranslateError::BodyTooLong);
    }
    if write_json_escaped(&mut w, text).is_err() {
        return Err(TranslateError::BodyTooLong);
    }
    let k1 = body_source_key_bytes();
    if w.write_bytes(k1.as_slice()).is_err() {
        return Err(TranslateError::BodyTooLong);
    }
    if w.write_str(source_lang).is_err() {
        return Err(TranslateError::BodyTooLong);
    }
    let k2 = body_target_key_bytes();
    if w.write_bytes(k2.as_slice()).is_err() {
        return Err(TranslateError::BodyTooLong);
    }
    if w.write_str(target_lang).is_err() {
        return Err(TranslateError::BodyTooLong);
    }
    let close = body_close_bytes();
    if w.write_bytes(close.as_slice()).is_err() {
        return Err(TranslateError::BodyTooLong);
    }
    assert(w@ =~= total);
    Ok(vstd::slice::slice_to_vec(w.written()))
}

/// Build the HTTP request head for a translation request.  Fails with
/// `RequestFailed` when it would exceed [`MAX_REQUEST_HEAD_LEN`] bytes.
pub fn build_translate_request_head(api_key: &str, body_len: usize) -> (r: Result<
    Vec<u8>,
    TranslateError,
>)
    ensures
        r is Ok <==> translate_request_head(api_key.spec_bytes(), body_len as nat).len()
            <= MAX_REQUEST_HEAD_LEN,
        r matches Ok(v) ==> v@ == translate_request_head(api_key.spec_bytes(), body_len as nat),
        r matches Err(e) ==> e == TranslateError::RequestFailed,
{
    let ghost total = translate_request_head(api_key.spec_bytes(), body_len as nat);
    let mut w = WriteBuf::new(MAX_REQUEST_HEAD_LEN);
    let p1 = request_line_open_bytes();
    if w.write_bytes(p1.as_slice()).is_err() {
        return Err(TranslateError::RequestFailed);
    }
    if w.write_str(api_key).is_err() {
        return Err(TranslateError::RequestFailed);
    }
    let p2 = request_headers_bytes();
    if w.write_bytes(p2.as_slice()).is_err() {
        return Err(TranslateError::RequestFailed);
    }
    let digits = decimal_bytes(body_len);
    if w.write_bytes(digits.as_slice()).is_err() {
        return Err(TranslateError::RequestFailed);
    }
    let p3 = request_close_bytes();
    if w.write_bytes(p3.as_slice()).is_err() {
        return Err(TranslateError::RequestFailed);
    }
    assert(w@ =~= total);
    Ok(vstd::slice::slice_to_vec(w.written()))
}

} // verus!
