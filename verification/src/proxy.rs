//! The proxy engine's decisions: classifying requests, parsing a tunnel
//! target, and synthesizing the fixed response texts.
//!
//! The listener, the outbound connections and the byte relay live outside
//! the library; they hand it the method and URI of each request and take
//! back exact response texts and log entries.

use vstd::prelude::*;

use crate::log_store::HttpLog;
use crate::text::{chars_equal, digit_char, str_to_chars};

verus! {

/// The status synthesized for a failed forward.
pub const BAD_GATEWAY_STATUS: u16 = 502;

/// Whether the request asks for a tunnel.
pub fn is_connect(method: &str) -> (r: bool)
    ensures
        r == (method@ == "CONNECT"@),
{
    let m = str_to_chars(method);
    let c = str_to_chars("CONNECT");
    chars_equal(&m, &c)
}

/// The handshake sent to the client once the tunnel to the target is
/// open.
pub fn connect_established_response() -> (r: String)
    ensures
        r@ == "HTTP/1.1 200 Connection Established\r\n\r\n"@,
{
    let mut s = String::new();
    s.append("HTTP/1.1 200 Connection Established\r\n\r\n");
    proof {
        assert(s@ =~= "HTTP/1.1 200 Connection Established\r\n\r\n"@);
    }
    s
}

/// The body of the echo response the monitor's plain listener returns.
pub fn echo_response_body(method: &str, uri: &str) -> (r: String)
    ensures
        r@ == "HTTP Proxy received:\nMethod: "@ + method@ + "\nURI: "@ + uri@ + "\n"@,
{
    let mut s = String::new();
    s.append("HTTP Proxy received:\nMethod: ");
    s.append(method);
    s.append("\nURI: ");
    s.append(uri);
    s.append("\n");
    proof {
        assert(s@ =~= "HTTP Proxy received:\nMethod: "@ + method@ + "\nURI: "@ + uri@ + "\n"@);
    }
    s
}

/// The body of the synthesized bad-gateway response for a failed forward.
pub fn bad_gateway_body(err: &str) -> (r: String)
    ensures
        r@ == "Failed to forward request: "@ + err@,
{
    let mut s = String::new();
    s.append("Failed to forward request: ");
    s.append(err);
    proof {
        assert(s@ =~= "Failed to forward request: "@ + err@);
    }
    s
}

/// The body of the synthesized bad-gateway response when the upstream
/// body cannot be read.
pub fn failed_read_body() -> (r: String)
    ensures
        r@ == "Failed to read response"@,
{
    let mut s = String::new();
    s.append("Failed to read response");
    proof {
        assert(s@ =~= "Failed to read response"@);
    }
    s
}

/// A decimal digit.
pub open spec fn is_digit(c: char) -> bool {
    exists|d: nat| d < 10 && c == digit_char(d)
}

/// The value of one decimal digit.
pub open spec fn digit_val(c: char) -> nat {
    if c == '0' {
        0
    } else if c == '1' {
        1
    } else if c == '2' {
        2
    } else if c == '3' {
        3
    } else if c == '4' {
        4
    } else if c == '5' {
        5
    } else if c == '6' {
        6
    } else if c == '7' {
        7
    } else if c == '8' {
        8
    } else {
        9
    }
}

/// The value of a decimal digit run, most significant digit first.
pub open spec fn digits_val(s: Seq<char>) -> nat
    decreases s.len(),
{
    if s.len() == 0 {
        0
    } else {
        digits_val(s.drop_last()) * 10 + digit_val(s.last())
    }
}

/// All characters of `s` are decimal digits.
pub open spec fn all_digits(s: Seq<char>) -> bool {
    forall|i: int| 0 <= i < s.len() ==> is_digit(#[trigger] s[i])
}

/// The position of the last colon of `s`, or `-1` when it has none.
pub open spec fn last_colon_index(s: Seq<char>) -> int
    decreases s.len(),
{
    if s.len() == 0 {
        -1
    } else if s.last() == ':' {
        s.len() - 1
    } else {
        last_colon_index(s.drop_last())
    }
}

/// What a tunnel request's URI names: `None` unless the URI is
/// `host:port` with a nonempty host before its last colon and a run of
/// digits naming a port below 65536 after it.
pub open spec fn spec_connect_target(s: Seq<char>) -> Option<(Seq<char>, u16)> {
    let i = last_colon_index(s);
    if i > 0 {
        let port = s.skip(i + 1);
        if port.len() > 0 && all_digits(port) && digits_val(port) <= 65535 {
            Option::Some((s.take(i), digits_val(port) as u16))
        } else {
            Option::None
        }
    } else {
        Option::None
    }
}

proof fn lemma_last_colon_found(s: Seq<char>, i: int)
    requires
        0 <= i < s.len(),
        s[i] == ':',
        forall|j: int| i < j < s.len() ==> s[j] != ':',
    ensures
        last_colon_index(s) == i,
    decreases s.len(),
{
    if i == s.len() - 1 {
    } else {
        assert(s.last() != ':');
        lemma_last_colon_found(s.drop_last(), i);
    }
}

proof fn lemma_no_colon(s: Seq<char>)
    requires
        forall|j: int| 0 <= j < s.len() ==> s[j] != ':',
    ensures
        last_colon_index(s) == -1,
    decreases s.len(),
{
    if s.len() > 0 {
        lemma_no_colon(s.drop_last());
    }
}

/// Extending a digit run cannot shrink its value.
proof fn lemma_digits_val_prefix(s: Seq<char>, k: int)
    requires
        0 <= k <= s.len(),
    ensures
        digits_val(s.take(k)) <= digits_val(s),
    decreases s.len() - k,
{
    if k == s.len() {
        assert(s.take(k) =~= s);
    } else {
        assert(s.take(k + 1).drop_last() =~= s.take(k));
        assert(digits_val(s.take(k)) <= digits_val(s.take(k + 1)));
        lemma_digits_val_prefix(s, k + 1);
    }
}

fn digit_of(c: char) -> (r: Option<u32>)
    ensures
        r is Some <==> is_digit(c),
        r is Some ==> r->0 == digit_val(c) && r->0 < 10,
{
    proof {
        assert(digit_char(0) == '0' && digit_char(1) == '1' && digit_char(2) == '2' && digit_char(
            3,
        ) == '3' && digit_char(4) == '4' && digit_char(5) == '5' && digit_char(6) == '6'
            && digit_char(7) == '7' && digit_char(8) == '8' && digit_char(9) == '9');
    }
    if c == '0' {
        Some(0)
    } else if c == '1' {
        Some(1)
    } else if c == '2' {
        Some(2)
    } else if c == '3' {
        Some(3)
    } else if c == '4' {
        Some(4)
    } else if c == '5' {
        Some(5)
    } else if c == '6' {
        Some(6)
    } else if c == '7' {
        Some(7)
    } else if c == '8' {
        Some(8)
    } else if c == '9' {
        Some(9)
    } else {
        proof {
            assert(!is_digit(c)) by {
                assert forall|d: nat| d < 10 implies c != digit_char(d) by {
                    assert(digit_char(0) == '0' && digit_char(1) == '1' && digit_char(2) == '2'
                        && digit_char(3) == '3' && digit_char(4) == '4' && digit_char(5) == '5'
                        && digit_char(6) == '6' && digit_char(7) == '7' && digit_char(8) == '8'
                        && digit_char(9) == '9');
                }
            }
        }
        None
    }
}

/// Parses the `host:port` target of a tunnel request. Returns the host
/// and port exactly when the URI has that shape, and `None` otherwise.
pub fn parse_connect_target(uri: &str) -> (r: Option<(String, u16)>)
    ensures
        (match (r, spec_connect_target(uri@)) {
            (Option::Some((h, p)), Option::Some((sh, sp))) => h@ == sh && p == sp,
            (Option::None, Option::None) => true,
            _ => false,
        }),
{
    let s = str_to_chars(uri);
    let n = s.len();
    let mut i: usize = n;
    let mut found = false;
    while i > 0 && !found
        invariant
            n == s@.len(),
            i <= n,
            !found ==> forall|j: int| i <= j < n ==> s@[j] != ':',
            found ==> i < n && s@[i as int] == ':' && (forall|j: int|
                i < j < n ==> s@[j] != ':'),
        decreases i + (if found {
            0int
        } else {
            1int
        }),
    {
        if s[i - 1] == ':' {
            i = i - 1;
            found = true;
        } else {
            i = i - 1;
        }
    }
    if !found {
        proof {
            lemma_no_colon(s@);
        }
        return None;
    }
    proof {
        lemma_last_colon_found(s@, i as int);
    }
    if i == 0 {
        return None;
    }
    let ghost port_seq = s@.skip(i + 1);
    if i + 1 == n {
        proof {
            assert(port_seq.len() == 0);
        }
        return None;
    }
    let mut value: u32 = 0;
    let mut j: usize = i + 1;
    while j < n
        invariant
            n == s@.len(),
            s@ == uri@,
            0 < i,
            i + 1 < n,
            last_colon_index(s@) == i,
            i + 1 <= j <= n,
            port_seq == s@.skip(i + 1 as int),
            value == digits_val(port_seq.take(j - i - 1)),
            value <= 65535,
            all_digits(port_seq.take(j - i - 1)),
        decreases n - j,
    {
        let d = match digit_of(s[j]) {
            Some(d) => d,
            None => {
                proof {
                    assert(port_seq[j - i - 1] == s@[j as int]);
                    assert(!all_digits(port_seq));
                    assert(spec_connect_target(uri@) is None);
                }
                return None;
            }
        };
        proof {
            assert(port_seq.take(j - i) =~= port_seq.take(j - i - 1).push(s@[j as int]));
            assert(port_seq.take(j - i).drop_last() =~= port_seq.take(j - i - 1));
        }
        let next: u32 = value * 10 + d;
        if next > 65535 {
            proof {
                lemma_digits_val_prefix(port_seq, j - i);
                assert(digits_val(port_seq.take(j - i)) == value * 10 + d);
                assert(digits_val(port_seq) > 65535);
                assert(spec_connect_target(uri@) is None);
            }
            return None;
        }
        value = next;
        j = j + 1;
    }
    proof {
        assert(port_seq.take(n - i - 1) =~= port_seq);
    }
    let host_chars = {
        let mut h: Vec<char> = Vec::new();
        let mut k: usize = 0;
        while k < i
            invariant
                i <= n,
                n == s@.len(),
                k <= i,
                h@ == s@.take(k as int),
            decreases i - k,
        {
            h.push(s[k]);
            k = k + 1;
            proof {
                assert(h@ =~= s@.take(k as int));
            }
        }
        h
    };
    let host = crate::text::chars_to_string(&host_chars);
    Some((host, value as u16))
}

/// Relies on `chrono::Utc::now`, `to_rfc3339` and `format`: one instant
/// is read and rendered twice, as its RFC 3339 form and as the
/// eight-character `HH:MM:SS` form that `%H:%M:%S` always produces.
#[verifier::external_body]
fn now_timestamps() -> (r: (String, String))
    ensures
        r.1@.len() == 8,
{
    let now = chrono::Utc::now();
    (now.to_rfc3339(), now.format("%H:%M:%S").to_string())
}

/// The entry recorded for one exchange, stamped with the arrival instant.
/// The persisted artifact is keyed by the URI, which the entry keeps as
/// its `path`.
pub fn make_log_entry(method: &str, uri: &str) -> (r: HttpLog)
    ensures
        r.method@ == method@,
        r.uri@ == uri@,
        r.path@ == uri@,
        r.time_hms@.len() == 8,
{
    let (timestamp, time_hms) = now_timestamps();
    HttpLog {
        method: String::from_str(method),
        uri: String::from_str(uri),
        timestamp,
        time_hms,
        path: String::from_str(uri),
    }
}

} // verus!
