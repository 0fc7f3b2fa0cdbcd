//! The Deepgram streaming-listen WebSocket handshake.

use vstd::prelude::*;
use vstd::string::StringSliceAdditionalSpecFns;

use crate::networking;
use crate::scan;
use crate::translation::client;

verus! {

/// Size of the buffer the handshake response is read into.
pub const UPGRADE_RESPONSE_CAPACITY: usize = 1024;

/// The bytes of `GET /v2/listen?eot_threshold=0.7&eot_timeout_ms=5000&model=flux-general-en&encoding=linear16&sample_rate=`.
pub open spec fn listen_request_open() -> Seq<u8> {
    seq![0x47, 0x45, 0x54, 0x20, 0x2f, 0x76, 0x32, 0x2f, 0x6c, 0x69, 0x73, 0x74, 0x65, 0x6e, 0x3f, 0x65, 0x6f, 0x74, 0x5f, 0x74, 0x68, 0x72, 0x65, 0x73, 0x68, 0x6f, 0x6c, 0x64, 0x3d, 0x30, 0x2e, 0x37, 0x26, 0x65, 0x6f, 0x74, 0x5f, 0x74, 0x69, 0x6d, 0x65, 0x6f, 0x75, 0x74, 0x5f, 0x6d, 0x73, 0x3d, 0x35, 0x30, 0x30, 0x30, 0x26, 0x6d, 0x6f, 0x64, 0x65, 0x6c, 0x3d, 0x66, 0x6c, 0x75, 0x78, 0x2d, 0x67, 0x65, 0x6e, 0x65, 0x72, 0x61, 0x6c, 0x2d, 0x65, 0x6e, 0x26, 0x65, 0x6e, 0x63, 0x6f, 0x64, 0x69, 0x6e, 0x67, 0x3d, 0x6c, 0x69, 0x6e, 0x65, 0x61, 0x72, 0x31, 0x36, 0x26, 0x73, 0x61, 0x6d, 0x70, 0x6c, 0x65, 0x5f, 0x72, 0x61, 0x74, 0x65, 0x3d]
}

fn listen_request_open_bytes() -> (v: Vec<u8>)
    ensures
        v@ == listen_request_open(),
{
    vec![0x47, 0x45, 0x54, 0x20, 0x2f, 0x76, 0x32, 0x2f, 0x6c, 0x69, 0x73, 0x74, 0x65, 0x6e, 0x3f, 0x65, 0x6f, 0x74, 0x5f, 0x74, 0x68, 0x72, 0x65, 0x73, 0x68, 0x6f, 0x6c, 0x64, 0x3d, 0x30, 0x2e, 0x37, 0x26, 0x65, 0x6f, 0x74, 0x5f, 0x74, 0x69, 0x6d, 0x65, 0x6f, 0x75, 0x74, 0x5f, 0x6d, 0x73, 0x3d, 0x35, 0x30, 0x30, 0x30, 0x26, 0x6d, 0x6f, 0x64, 0x65, 0x6c, 0x3d, 0x66, 0x6c, 0x75, 0x78, 0x2d, 0x67, 0x65, 0x6e, 0x65, 0x72, 0x61, 0x6c, 0x2d, 0x65, 0x6e, 0x26, 0x65, 0x6e, 0x63, 0x6f, 0x64, 0x69, 0x6e, 0x67, 0x3d, 0x6c, 0x69, 0x6e, 0x65, 0x61, 0x72, 0x31, 0x36, 0x26, 0x73, 0x61, 0x6d, 0x70, 0x6c, 0x65, 0x5f, 0x72, 0x61, 0x74, 0x65, 0x3d]
}

/// The bytes of ` HTTP/1.1\r\nHost: `.
pub open spec fn listen_request_host() -> Seq<u8> {
    seq![0x20, 0x48, 0x54, 0x54, 0x50, 0x2f, 0x31, 0x2e, 0x31, 0x0d, 0x0a, 0x48, 0x6f, 0x73, 0x74, 0x3a, 0x20]
}

fn listen_request_host_bytes() -> (v: Vec<u8>)
    ensures
        v@ == listen_request_host(),
{
    vec![0x20, 0x48, 0x54, 0x54, 0x50, 0x2f, 0x31, 0x2e, 0x31, 0x0d, 0x0a, 0x48, 0x6f, 0x73, 0x74, 0x3a, 0x20]
}

/// The bytes of `\r\nUpgrade: websocket\r\nConnection: Upgrade\r\nSec-WebSocket-Key: dGhlIHNhbXBsZSBub25jZQ==\r\nSec-WebSocket-Version: 13\r\nAuthorization: Token `.
pub open spec fn listen_request_upgrade() -> Seq<u8> {
    seq![0x0d, 0x0a, 0x55, 0x70, 0x67, 0x72, 0x61, 0x64, 0x65, 0x3a, 0x20, 0x77, 0x65, 0x62, 0x73, 0x6f, 0x63, 0x6b, 0x65, 0x74, 0x0d, 0x0a, 0x43, 0x6f, 0x6e, 0x6e, 0x65, 0x63, 0x74, 0x69, 0x6f, 0x6e, 0x3a, 0x20, 0x55, 0x70, 0x67, 0x72, 0x61, 0x64, 0x65, 0x0d, 0x0a, 0x53, 0x65, 0x63, 0x2d, 0x57, 0x65, 0x62, 0x53, 0x6f, 0x63, 0x6b, 0x65, 0x74, 0x2d, 0x4b, 0x65, 0x79, 0x3a, 0x20, 0x64, 0x47, 0x68, 0x6c, 0x49, 0x48, 0x4e, 0x68, 0x62, 0x58, 0x42, 0x73, 0x5a, 0x53, 0x42, 0x75, 0x62, 0x32, 0x35, 0x6a, 0x5a, 0x51, 0x3d, 0x3d, 0x0d, 0x0a, 0x53, 0x65, 0x63, 0x2d, 0x57, 0x65, 0x62, 0x53, 0x6f, 0x63, 0x6b, 0x65, 0x74, 0x2d, 0x56, 0x65, 0x72, 0x73, 0x69, 0x6f, 0x6e, 0x3a, 0x20, 0x31, 0x33, 0x0d, 0x0a, 0x41, 0x75, 0x74, 0x68, 0x6f, 0x72, 0x69, 0x7a, 0x61, 0x74, 0x69, 0x6f, 0x6e, 0x3a, 0x20, 0x54, 0x6f, 0x6b, 0x65, 0x6e, 0x20]
}

fn listen_request_upgrade_bytes() -> (v: Vec<u8>)
    ensures
        v@ == listen_request_upgrade(),
{
    vec![0x0d, 0x0a, 0x55, 0x70, 0x67, 0x72, 0x61, 0x64, 0x65, 0x3a, 0x20, 0x77, 0x65, 0x62, 0x73, 0x6f, 0x63, 0x6b, 0x65, 0x74, 0x0d, 0x0a, 0x43, 0x6f, 0x6e, 0x6e, 0x65, 0x63, 0x74, 0x69, 0x6f, 0x6e, 0x3a, 0x20, 0x55, 0x70, 0x67, 0x72, 0x61, 0x64, 0x65, 0x0d, 0x0a, 0x53, 0x65, 0x63, 0x2d, 0x57, 0x65, 0x62, 0x53, 0x6f, 0x63, 0x6b, 0x65, 0x74, 0x2d, 0x4b, 0x65, 0x79, 0x3a, 0x20, 0x64, 0x47, 0x68, 0x6c, 0x49, 0x48, 0x4e, 0x68, 0x62, 0x58, 0x42, 0x73, 0x5a, 0x53, 0x42, 0x75, 0x62, 0x32, 0x35, 0x6a, 0x5a, 0x51, 0x3d, 0x3d, 0x0d, 0x0a, 0x53, 0x65, 0x63, 0x2d, 0x57, 0x65, 0x62, 0x53, 0x6f, 0x63, 0x6b, 0x65, 0x74, 0x2d, 0x56, 0x65, 0x72, 0x73, 0x69, 0x6f, 0x6e, 0x3a, 0x20, 0x31, 0x33, 0x0d, 0x0a, 0x41, 0x75, 0x74, 0x68, 0x6f, 0x72, 0x69, 0x7a, 0x61, 0x74, 0x69, 0x6f, 0x6e, 0x3a, 0x20, 0x54, 0x6f, 0x6b, 0x65, 0x6e, 0x20]
}

/// The bytes of `\r\n\r\n`.
pub open spec fn listen_request_close() -> Seq<u8> {
    seq![0x0d, 0x0a, 0x0d, 0x0a]
}

fn listen_request_close_bytes() -> (v: Vec<u8>)
    ensures
        v@ == listen_request_close(),
{
    vec![0x0d, 0x0a, 0x0d, 0x0a]
}

/// The bytes of `101`.
pub open spec fn switching_protocols() -> Seq<u8> {
    seq![0x31, 0x30, 0x31]
}

fn switching_protocols_bytes() -> (v: Vec<u8>)
    ensures
        v@ == switching_protocols(),
{
    vec![0x31, 0x30, 0x31]
}
/// The HTTP request that upgrades a connection to Deepgram's streaming
/// listen WebSocket for 16-bit linear PCM at `sample_rate` Hz.
pub open spec fn listen_request(host: Seq<u8>, token: Seq<u8>, sample_rate: nat) -> Seq<u8> {
    listen_request_open() + client::decimal_digits(sample_rate) + listen_request_host() + host
        + listen_request_upgrade() + token + listen_request_close()
}

/// Build the WebSocket upgrade request for Deepgram's listen endpoint.
pub fn deepgram_listen_request(host: &str, token: &str, sample_rate: u32) -> (v: Vec<u8>)
    ensures
        v@ == listen_request(host.spec_bytes(), token.spec_bytes(), sample_rate as nat),
{
    let mut v = listen_request_open_bytes();
    let mut digits = client::decimal_bytes(sample_rate as usize);
    v.append(&mut digits);
    let mut p = listen_request_host_bytes();
    v.append(&mut p);
    v.extend_from_slice(host.as_bytes());
    let mut u = listen_request_upgrade_bytes();
    v.append(&mut u);
    v.extend_from_slice(token.as_bytes());
    let mut c = listen_request_close_bytes();
    v.append(&mut c);
    v
}

/// Where the upgrade handshake stands after a read.
#[derive(Debug, Clone, Copy, PartialEq, Eq, Structural)]
pub enum UpgradeProgress {
    /// The response head is not complete yet: read more.
    NeedMore,
    /// The server switched protocols: the WebSocket is open.
    Accepted,
    /// The response head is complete but its status is not 101.
    Rejected,
    /// The server closed the connection during the handshake.
    ConnectionClosed,
    /// The response head does not fit in the buffer.
    HeadersTooLarge,
}

/// The status line of a response head ending at `header_end`: the bytes up to
/// the first `\r\n`, or the whole head when it has none.
pub open spec fn status_line_end(resp: Seq<u8>, header_end: int) -> int {
    match scan::first_match(resp.subrange(0, header_end), client::crlf()) {
        Some(e) => e,
        None => header_end,
    }
}

/// Whether a status line announces `101 Switching Protocols`: it is valid
/// UTF-8 and contains `101`.
pub open spec fn status_accepts(line: Seq<u8>) -> bool {
    vstd::utf8::valid_utf8(line) && scan::first_match(line, switching_protocols()) is Some
}

/// Classify the handshake after a read of `last_read` bytes left
/// `received` in a buffer of `capacity` bytes.
pub open spec fn upgrade_progress(received: Seq<u8>, last_read: nat, capacity: nat) -> UpgradeProgress {
    if last_read == 0 {
        UpgradeProgress::ConnectionClosed
    } else {
        match scan::first_match(received, networking::header_terminator()) {
            Some(h) => if status_accepts(received.subrange(0, status_line_end(received, h))) {
                UpgradeProgress::Accepted
            } else {
                UpgradeProgress::Rejected
            },
            None => if received.len() >= capacity {
                UpgradeProgress::HeadersTooLarge
            } else {
                UpgradeProgress::NeedMore
            },
        }
    }
}

/// The handshake is settled only by a complete response head: it is never
/// accepted or rejected before the bytes received hold the blank line
/// `\r\n\r\n`, and until then a read that returned bytes, with room left
/// in the buffer, asks for more.  An accepted head carries `101`.
pub proof fn upgrade_waits_for_blank_line(received: Seq<u8>, last_read: nat, capacity: nat)
    ensures
        (upgrade_progress(received, last_read, capacity) is Accepted || upgrade_progress(
            received,
            last_read,
            capacity,
        ) is Rejected) ==> exists|i: int|
            0 <= i && i + 4 <= received.len() && #[trigger] received.subrange(i, i + 4) == seq![
                0x0du8,
                0x0a,
                0x0d,
                0x0a,
            ],
        upgrade_progress(received, last_read, capacity) is Accepted ==> exists|j: int|
            0 <= j && j + 3 <= received.len() && #[trigger] received.subrange(j, j + 3) == seq![
                0x31u8,
                0x30,
                0x31,
            ],
        (forall|i: int|
            0 <= i && i + 4 <= received.len() ==> #[trigger] received.subrange(i, i + 4) != seq![
                0x0du8,
                0x0a,
                0x0d,
                0x0a,
            ]) && last_read > 0 && received.len() < capacity ==> upgrade_progress(
            received,
            last_read,
            capacity,
        ) is NeedMore,
{
    let blank = networking::header_terminator();
    scan::lemma_first_match_bounds(received, blank);
    if let Some(h) = scan::first_match(received, blank) {
        assert(received.subrange(h, h + 4) == blank);
        if last_read > 0 {
            let end = status_line_end(received, h);
            let head = received.subrange(0, h);
            scan::lemma_first_match_bounds(head, client::crlf());
            assert(0 <= end <= h);
            let line = received.subrange(0, end);
            scan::lemma_first_match_bounds(line, switching_protocols());
            if let Some(j) = scan::first_match(line, switching_protocols()) {
                assert(received.subrange(j, j + 3) =~= line.subrange(j, j + 3));
            }
        }
    } else {
        if exists|i: int|
            0 <= i && i + 4 <= received.len() && #[trigger] received.subrange(i, i + 4) == blank {
            let i = choose|i: int|
                0 <= i && i + 4 <= received.len() && #[trigger] received.subrange(i, i + 4) == blank;
            assert(scan::matches_at(received, blank, i));
            // the earliest such position is a first match
            lemma_some_first_match(received, blank, i);
        }
    }
}

/// A pattern that occurs somewhere has a first occurrence.
proof fn lemma_some_first_match(s: Seq<u8>, pat: Seq<u8>, i: int)
    requires
        scan::matches_at(s, pat, i),
    ensures
        scan::first_match(s, pat) is Some,
    decreases i,
{
    if forall|j: int| 0 <= j < i ==> !scan::matches_at(s, pat, j) {
        assert(scan::is_first_match(s, pat, i));
    } else {
        let j = choose|j: int| 0 <= j < i && scan::matches_at(s, pat, j);
        lemma_some_first_match(s, pat, j);
    }
}

/// Decide how the WebSocket upgrade handshake continues after a read of
/// `last_read` bytes, given everything `received` so far.
pub fn upgrade_response_step(received: &[u8], last_read: usize, capacity: usize) -> (p:
    UpgradeProgress)
    ensures
        p == upgrade_progress(received@, last_read as nat, capacity as nat),
{
    if last_read == 0 {
        return UpgradeProgress::ConnectionClosed;
    }
    match networking::find_header_end(received) {
        Some(h) => {
            let head = vstd::slice::slice_subrange(received, 0, h);
            let sep = client::crlf_bytes();
            let end = match scan::find_bytes(head, sep.as_slice()) {
                Some(e) => e,
                None => h,
            };
            let line = vstd::slice::slice_subrange(received, 0, end);
            let code = switching_protocols_bytes();
            let accepted = scan::str_from_utf8(line).is_some() && scan::find_bytes(
                line,
                code.as_slice(),
            ).is_some();
            if accepted {
                UpgradeProgress::Accepted
            } else {
                UpgradeProgress::Rejected
            }
        },
        None => if received.len() >= capacity {
            UpgradeProgress::HeadersTooLarge
        } else {
            UpgradeProgress::NeedMore
        },
    }
}

/// Port used when no override is configured.
pub const DEFAULT_DEEPGRAM_PORT: u16 = 443;

/// How the device reaches the transcription service.
#[derive(Debug, Clone, Copy, PartialEq, Eq, Structural)]
pub struct DeepgramTransport {
    /// Whether the connection runs over TLS (HTTPS) or plain TCP (HTTP).
    pub use_tls: bool,
    /// The TCP port.
    pub port: u16,
}

/// A transport setting that could not be parsed.
#[derive(Debug, Clone, Copy, PartialEq, Eq, Structural)]
pub enum ConfigError {
    /// The TLS switch is neither `true` nor `false`.
    InvalidUseTls,
    /// The port is not a decimal number that fits in 16 bits.
    InvalidPort,
}

/// Parse a boolean setting: exactly `true` or `false`, anything else is
/// refused.
pub fn parse_bool(s: &str) -> (r: Option<bool>)
    ensures
        r is Some <==> (s@ == "true"@ || s@ == "false"@),
        r matches Some(b) ==> b == (s@ == "true"@),
{
    if scan::str_eq(s, "true") {
        Some(true)
    } else if scan::str_eq(s, "false") {
        Some(false)
    } else {
        None
    }
}

/// Value of a sequence of ASCII decimal digits.
pub open spec fn decimal_value(d: Seq<u8>) -> nat
    decreases d.len(),
{
    if d.len() == 0 {
        0
    } else {
        decimal_value(d.drop_last()) * 10 + (d.last() - 0x30) as nat
    }
}

/// Whether every byte is an ASCII decimal digit.
pub open spec fn all_decimal_digits(d: Seq<u8>) -> bool {
    forall|i: int| 0 <= i < d.len() ==> 0x30 <= #[trigger] d[i] <= 0x39
}

/// Decimal rendering and decimal reading agree: the digits written for `n`
/// (for instance a `Content-Length` or a sample rate) are decimal digits
/// whose value is `n`.
pub proof fn decimal_digits_round_trip(n: nat)
    ensures
        all_decimal_digits(client::decimal_digits(n)),
        decimal_value(client::decimal_digits(n)) == n,
    decreases n,
{
    let d = client::decimal_digits(n);
    if n < 10 {
        assert(d.drop_last() =~= Seq::<u8>::empty());
        assert(decimal_value(Seq::<u8>::empty()) == 0);
        assert(d.last() == (0x30 + n) as u8);
        assert(decimal_value(d) == decimal_value(d.drop_last()) * 10 + (d.last() - 0x30) as nat);
    } else {
        decimal_digits_round_trip(n / 10);
        assert(d.drop_last() =~= client::decimal_digits(n / 10));
        assert(d.last() == (0x30 + n % 10) as u8);
        assert(decimal_value(d) == decimal_value(d.drop_last()) * 10 + (d.last() - 0x30) as nat);
        assert((n / 10) * 10 + n % 10 == n);
    }
}

/// The value of a decimal port number: one or more ASCII decimal digits and
/// nothing else, whose value fits in a `u16`.
pub open spec fn decimal_u16(b: Seq<u8>) -> Option<nat> {
    if b.len() > 0 && all_decimal_digits(b) && decimal_value(b) <= u16::MAX {
        Some(decimal_value(b))
    } else {
        None
    }
}

/// Parse a `u16` written as decimal digits only: `None` for an empty
/// string, any other byte (a sign included), or a value beyond `u16::MAX`.
pub fn parse_u16_decimal(s: &str) -> (r: Option<u16>)
    ensures
        r is Some <==> decimal_u16(s.spec_bytes()) is Some,
        r matches Some(n) ==> decimal_u16(s.spec_bytes()) == Some(n as nat),
{
    let b = s.as_bytes();
    let n = b.len();
    if n == 0 {
        return None;
    }
    let mut v: u32 = 0;
    let mut i: usize = 0;
    proof {
        assert(b@.subrange(0, 0) =~= Seq::<u8>::empty());
    }
    while i < n
        invariant
            n == b@.len(),
            b@ == s.spec_bytes(),
            i <= n,
            all_decimal_digits(b@.subrange(0, i as int)),
            v as nat == decimal_value(b@.subrange(0, i as int)),
            v <= u16::MAX,
        decreases n - i,
    {
        let c = b[i];
        proof {
            let pre = b@.subrange(0, i as int);
            let post = b@.subrange(0, i + 1);
            assert(post.drop_last() =~= pre);
            assert(post.last() == c);
        }
        if c < 0x30 || c > 0x39 {
            proof {
                assert(b@[i as int] == c);
                assert(!all_decimal_digits(b@));
            }
            return None;
        }
        let next = v * 10 + (c - 0x30) as u32;
        if next > 0xffff {
            proof {
                let post = b@.subrange(0, i + 1);
                assert(decimal_value(post) == decimal_value(post.drop_last()) * 10 + (post.last()
                    - 0x30) as nat);
                assert(decimal_value(post) > u16::MAX);
                if all_decimal_digits(b@) {
                    lemma_decimal_value_prefix_grows(b@, i + 1);
                }
            }
            return None;
        }
        v = next;
        i = i + 1;
        proof {
            assert forall|k: int| 0 <= k < i implies 0x30 <= #[trigger] b@.subrange(0, i as int)[k]
                <= 0x39 by {
                if k < i - 1 {
                    assert(b@.subrange(0, i as int)[k] == b@.subrange(0, i - 1)[k]);
                }
            }
        }
    }
    proof {
        assert(b@.subrange(0, n as int) =~= b@);
    }
    Some(v as u16)
}

/// The value of a string of decimal digits is at least the value of any of
/// its prefixes.
proof fn lemma_decimal_value_prefix_grows(d: Seq<u8>, i: int)
    requires
        0 <= i <= d.len(),
        all_decimal_digits(d),
    ensures
        decimal_value(d) >= decimal_value(d.subrange(0, i)),
    decreases d.len() - i,
{
    if i < d.len() {
        lemma_decimal_value_prefix_grows(d, i + 1);
        let p = d.subrange(0, i + 1);
        assert(p.drop_last() =~= d.subrange(0, i));
        assert(0x30 <= p.last());
        assert(decimal_value(p) == decimal_value(d.subrange(0, i)) * 10 + (p.last() - 0x30) as nat);
    } else {
        assert(d.subrange(0, i) =~= d);
    }
}

/// The transport selected by the optional `use_tls` switch (`true` when
/// unset) and port override ([`DEFAULT_DEEPGRAM_PORT`] when unset).
pub open spec fn transport_from(use_tls: Option<Seq<char>>, port: Option<Seq<u8>>) -> Result<
    DeepgramTransport,
    ConfigError,
> {
    let tls = match use_tls {
        None => Some(true),
        Some(t) => if t == "true"@ {
            Some(true)
        } else if t == "false"@ {
            Some(false)
        } else {
            None
        },
    };
    let p = match port {
        None => Some(DEFAULT_DEEPGRAM_PORT as nat),
        Some(b) => decimal_u16(b),
    };
    match (tls, p) {
        (None, _) => Err(ConfigError::InvalidUseTls),
        (Some(_), None) => Err(ConfigError::InvalidPort),
        (Some(t), Some(n)) => Ok(DeepgramTransport { use_tls: t, port: n as u16 }),
    }
}

/// Decide how to reach the transcription service from the optional
/// settings: TLS unless `use_tls` is `false`, on `port` or port 443.
pub fn deepgram_transport(use_tls: Option<&str>, port: Option<&str>) -> (r: Result<
    DeepgramTransport,
    ConfigError,
>)
    ensures
        r == transport_from(
            match use_tls {
                Some(t) => Some(t@),
                None => None,
            },
            match port {
                Some(p) => Some(p.spec_bytes()),
                None => None,
            },
        ),
{
    let tls = match use_tls {
        None => true,
        Some(t) => match parse_bool(t) {
            Some(b) => b,
            None => {
                return Err(ConfigError::InvalidUseTls);
            },
        },
    };
    let port_number = match port {
        None => DEFAULT_DEEPGRAM_PORT,
        Some(p) => match parse_u16_decimal(p) {
            Some(n) => n,
            None => {
                return Err(ConfigError::InvalidPort);
            },
        },
    };
    Ok(DeepgramTransport { use_tls: tls, port: port_number })
}

} // verus!
