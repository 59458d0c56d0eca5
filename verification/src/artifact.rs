//! The textual artifact recording one exchange, and its re-parsing.
//!
//! The artifact holds a header block (timestamp, method, URI, status,
//! response headers) followed by the response body. A binary body goes to
//! a sibling file and the artifact records only the reference and the byte
//! count. The detail popup re-parses an artifact to recover the status and
//! the body.

use vstd::prelude::*;

use crate::filter::{lower_chars, lower_of};
use crate::persist::split_char;
use crate::text::{chars_to_string, dec_digits, seq_starts_with, starts_with_chars, str_to_chars, u64_to_dec_string};

verus! {

/// The content-type prefixes whose bodies are kept out of the textual
/// artifact.
pub open spec fn spec_is_binary(ct: Option<Seq<char>>) -> bool {
    match ct {
        Option::None => false,
        Option::Some(s) => {
            let l = lower_of(s);
            ||| seq_starts_with(l, "image/"@)
            ||| seq_starts_with(l, "video/"@)
            ||| seq_starts_with(l, "audio/"@)
            ||| seq_starts_with(l, "application/octet-stream"@)
            ||| seq_starts_with(l, "application/pdf"@)
            ||| seq_starts_with(l, "application/zip"@)
            ||| seq_starts_with(l, "font/"@)
        }
    }
}

/// The view of an optional content-type header value.
pub open spec fn opt_str_view(ct: Option<&str>) -> Option<Seq<char>> {
    match ct {
        Option::None => Option::None,
        Option::Some(s) => Option::Some(s@),
    }
}

/// Whether a response with this content-type is binary: its lowercase
/// folding starts with one of the fixed prefixes. A response without a
/// content-type is textual.
pub fn is_binary_content(content_type: Option<&str>) -> (r: bool)
    ensures
        r == spec_is_binary(opt_str_view(content_type)),
{
    match content_type {
        None => false,
        Some(ct) => {
            let l = lower_chars(ct);
            if starts_with_chars(&l, &str_to_chars("image/")) {
                true
            } else if starts_with_chars(&l, &str_to_chars("video/")) {
                true
            } else if starts_with_chars(&l, &str_to_chars("audio/")) {
                true
            } else if starts_with_chars(&l, &str_to_chars("application/octet-stream")) {
                true
            } else if starts_with_chars(&l, &str_to_chars("application/pdf")) {
                true
            } else if starts_with_chars(&l, &str_to_chars("application/zip")) {
                true
            } else {
                starts_with_chars(&l, &str_to_chars("font/"))
            }
        }
    }
}

/// What the artifact records as the response body: the decoded text of a
/// textual response, or the sibling file and byte count of a binary one.
pub enum BodyContent {
    Text(String),
    Binary(String, usize),
}

/// The body section of the artifact. An empty textual body is recorded as
/// an explicit marker; a binary body as the sibling reference and size.
pub open spec fn body_section(body: BodyContent) -> Seq<char> {
    match body {
        BodyContent::Text(t) => if t@.len() == 0 {
            "[Empty]\n"@
        } else {
            t@
        },
        BodyContent::Binary(p, n) => "[Binary data stored in: "@ + p@ + "]\nSize: "@ + dec_digits(
            n as nat,
        ) + " bytes\n"@,
    }
}

/// The header lines of the artifact, one indented `name: value` line per
/// response header, in order.
pub open spec fn headers_text(headers: Seq<(String, String)>) -> Seq<char>
    decreases headers.len(),
{
    if headers.len() == 0 {
        Seq::empty()
    } else {
        headers_text(headers.drop_last()) + "  "@ + headers.last().0@ + ": "@ + headers.last().1@
            + "\n"@
    }
}

/// The full text of the artifact for one exchange.
pub open spec fn artifact_text(
    timestamp: Seq<char>,
    method: Seq<char>,
    uri: Seq<char>,
    status: u16,
    headers: Seq<(String, String)>,
    body: BodyContent,
) -> Seq<char> {
    "=== HTTP Response ===\n"@ + "Timestamp: "@ + timestamp + "\n"@ + "Method: "@ + method + "\n"@
        + "URI: "@ + uri + "\n"@ + "Status: "@ + dec_digits(status as nat) + "\n\n"@
        + "Response Headers:\n"@ + headers_text(headers) + "\n"@ + "Response Body:\n"@
        + body_section(body)
}

/// Builds the artifact text for one exchange.
pub fn build_artifact(
    timestamp: &str,
    method: &str,
    uri: &str,
    status: u16,
    headers: &Vec<(String, String)>,
    body: &BodyContent,
) -> (r: String)
    ensures
        r@ == artifact_text(timestamp@, method@, uri@, status, headers@, *body),
{
    let mut s = String::new();
    s.append("=== HTTP Response ===\n");
    s.append("Timestamp: ");
    s.append(timestamp);
    s.append("\n");
    s.append("Method: ");
    s.append(method);
    s.append("\n");
    s.append("URI: ");
    s.append(uri);
    s.append("\n");
    s.append("Status: ");
    let status_str = u64_to_dec_string(status as u64);
    s.append(status_str.as_str());
    s.append("\n\n");
    s.append("Response Headers:\n");
    let ghost before_headers = s@;
    let n = headers.len();
    for i in 0..n
        invariant
            n == headers@.len(),
            s@ == before_headers + headers_text(headers@.take(i as int)),
    {
        s.append("  ");
        s.append(headers[i].0.as_str());
        s.append(": ");
        s.append(headers[i].1.as_str());
        s.append("\n");
        proof {
            let pre = headers@.take(i + 1 as int);
            assert(pre.drop_last() =~= headers@.take(i as int));
            assert(pre.last() == headers@[i as int]);
            assert(s@ =~= before_headers + headers_text(pre));
        }
    }
    proof {
        assert(headers@.take(n as int) =~= headers@);
    }
    s.append("\n");
    s.append("Response Body:\n");
    match body {
        BodyContent::Text(t) => {
            if t.as_str().unicode_len() == 0 {
                s.append("[Empty]\n");
            } else {
                s.append(t.as_str());
            }
        }
        BodyContent::Binary(p, sz) => {
            s.append("[Binary data stored in: ");
            s.append(p.as_str());
            s.append("]\nSize: ");
            let sz_str = u64_to_dec_string(*sz as u64);
            s.append(sz_str.as_str());
            s.append(" bytes\n");
        }
    }
    proof {
        assert(s@ =~= artifact_text(timestamp@, method@, uri@, status, headers@, *body));
    }
    s
}

/// The flat per-transaction line of the append-only request log.
pub open spec fn log_line_text(timestamp: Seq<char>, method: Seq<char>, uri: Seq<char>) -> Seq<
    char,
> {
    timestamp + " "@ + method + " "@ + uri + "\n"@
}

/// Builds one line of the append-only request log.
pub fn log_line(timestamp: &str, method: &str, uri: &str) -> (r: String)
    ensures
        r@ == log_line_text(timestamp@, method@, uri@),
{
    let mut s = String::new();
    s.append(timestamp);
    s.append(" ");
    s.append(method);
    s.append(" ");
    s.append(uri);
    s.append("\n");
    proof {
        assert(s@ =~= log_line_text(timestamp@, method@, uri@));
    }
    s
}

/// A whitespace character of the artifact text.
pub open spec fn is_ws(c: char) -> bool {
    c == ' ' || c == '\t' || c == '\n' || c == '\r'
}

/// `s` without its leading whitespace.
pub open spec fn trim_start_ws(s: Seq<char>) -> Seq<char>
    decreases s.len(),
{
    if s.len() > 0 && is_ws(s[0]) {
        trim_start_ws(s.skip(1))
    } else {
        s
    }
}

/// `s` without its trailing whitespace.
pub open spec fn trim_end_ws(s: Seq<char>) -> Seq<char>
    decreases s.len(),
{
    if s.len() > 0 && is_ws(s.last()) {
        trim_end_ws(s.drop_last())
    } else {
        s
    }
}

/// `s` without leading and trailing whitespace.
pub open spec fn trim_ws(s: Seq<char>) -> Seq<char> {
    trim_end_ws(trim_start_ws(s))
}

proof fn lemma_trim_start_at(s: Seq<char>, a: int)
    requires
        0 <= a <= s.len(),
        forall|j: int| 0 <= j < a ==> is_ws(s[j]),
        a < s.len() ==> !is_ws(s[a]),
    ensures
        trim_start_ws(s) == s.skip(a),
    decreases a,
{
    if a == 0 {
        assert(s.skip(0) =~= s);
    } else {
        assert(is_ws(s[0]));
        lemma_trim_start_at(s.skip(1), a - 1);
        assert(s.skip(1).skip(a - 1) =~= s.skip(a));
    }
}

proof fn lemma_trim_end_at(s: Seq<char>, b: int)
    requires
        0 <= b <= s.len(),
        forall|j: int| b <= j < s.len() ==> is_ws(s[j]),
        b > 0 ==> !is_ws(s[b - 1]),
    ensures
        trim_end_ws(s) == s.take(b),
    decreases s.len() - b,
{
    if b == s.len() {
        assert(s.take(b) =~= s);
    } else {
        assert(is_ws(s.last()));
        lemma_trim_end_at(s.drop_last(), b);
        assert(s.drop_last().take(b) =~= s.take(b));
    }
}

fn is_ws_exec(c: char) -> (r: bool)
    ensures
        r == is_ws(c),
{
    c == ' ' || c == '\t' || c == '\n' || c == '\r'
}

/// The characters of `s` without leading and trailing whitespace.
pub fn trim_chars(s: &Vec<char>) -> (r: Vec<char>)
    ensures
        r@ == trim_ws(s@),
{
    let n = s.len();
    let mut a: usize = 0;
    while a < n && is_ws_exec(s[a])
        invariant
            n == s@.len(),
            a <= n,
            forall|j: int| 0 <= j < a ==> is_ws(s@[j]),
        decreases n - a,
    {
        a = a + 1;
    }
    let mut b: usize = n;
    while b > a && is_ws_exec(s[b - 1])
        invariant
            n == s@.len(),
            a <= b <= n,
            forall|j: int| b <= j < n ==> is_ws(s@[j]),
        decreases b,
    {
        b = b - 1;
    }
    proof {
        lemma_trim_start_at(s@, a as int);
        let t = s@.skip(a as int);
        if b > a {
            lemma_trim_end_at(t, b - a);
        } else {
            lemma_trim_end_at(t, 0);
        }
    }
    let mut out: Vec<char> = Vec::new();
    let mut i: usize = a;
    while i < b
        invariant
            n == s@.len(),
            a <= i <= b <= n,
            out@ == s@.subrange(a as int, i as int),
        decreases b - i,
    {
        out.push(s[i]);
        i = i + 1;
        proof {
            assert(out@ =~= s@.subrange(a as int, i as int));
        }
    }
    proof {
        assert(s@.skip(a as int).take((b - a) as int) =~= s@.subrange(a as int, b as int));
    }
    out
}

/// `s` with every leading repetition of `Status:` removed.
pub open spec fn strip_status_prefix(s: Seq<char>) -> Seq<char>
    decreases s.len(),
{
    if seq_starts_with(s, "Status:"@) && "Status:"@.len() > 0 {
        strip_status_prefix(s.skip("Status:"@.len() as int))
    } else {
        s
    }
}

/// One fold step of the artifact parse: a `Status:` line resets the
/// status, the `Response Body:` marker starts the body, and later lines
/// accumulate into the body.
pub open spec fn parse_step(st: (Seq<char>, bool, Seq<char>), line: Seq<char>) -> (
    Seq<char>,
    bool,
    Seq<char>,
) {
    if seq_starts_with(line, "Status:"@) {
        (trim_ws(strip_status_prefix(line)), st.1, st.2)
    } else if seq_starts_with(line, "Response Body:"@) {
        (st.0, true, st.2)
    } else if st.1 {
        (st.0, st.1, st.2 + line + "\n"@)
    } else {
        st
    }
}

/// The parse state after folding all `lines`, starting from an unknown
/// status outside the body.
pub open spec fn parse_fold(lines: Seq<Seq<char>>) -> (Seq<char>, bool, Seq<char>)
    decreases lines.len(),
{
    if lines.len() == 0 {
        ("Unknown"@, false, Seq::empty())
    } else {
        parse_step(parse_fold(lines.drop_last()), lines.last())
    }
}

/// What re-parsing an artifact recovers: the recorded status and the
/// trimmed body.
pub open spec fn spec_parse_artifact(content: Seq<char>) -> (Seq<char>, Seq<char>) {
    let st = parse_fold(split_char(content, '\n'));
    (st.0, trim_ws(st.2))
}

/// Strips every leading repetition of `Status:` from `line`.
fn strip_status_exec(line: &Vec<char>) -> (r: Vec<char>)
    ensures
        r@ == strip_status_prefix(line@),
{
    let pre = str_to_chars("Status:");
    proof {
        reveal_strlit("Status:");
    }
    let mut off: usize = 0;
    let n = line.len();
    proof {
        assert(line@.skip(0) =~= line@);
    }
    loop
        invariant
            n == line@.len(),
            off <= n,
            pre@ == "Status:"@,
            pre@.len() == 7,
            strip_status_prefix(line@) == strip_status_prefix(line@.skip(off as int)),
        ensures
            off <= n,
            strip_status_prefix(line@) == line@.skip(off as int),
        decreases n - off,
    {
        let ghost rest = line@.skip(off as int);
        if n >= 7 && off <= n - 7 {
            let hit = crate::text::match_at(line, &pre, off);
            if hit {
                proof {
                    assert(rest.subrange(0, 7) =~= line@.subrange(off as int, off + 7 as int));
                    assert(seq_starts_with(rest, "Status:"@));
                    assert(rest.skip(7) =~= line@.skip(off + 7));
                }
                off = off + 7;
                continue;
            }
            proof {
                assert(rest.subrange(0, 7) =~= line@.subrange(off as int, off + 7 as int));
                assert(!seq_starts_with(rest, "Status:"@));
                assert(strip_status_prefix(rest) == rest);
            }
            break;
        } else {
            proof {
                assert(rest.len() < 7);
                assert(!seq_starts_with(rest, "Status:"@));
                assert(strip_status_prefix(rest) == rest);
            }
            break;
        }
    }
    let mut out: Vec<char> = Vec::new();
    let mut i: usize = off;
    while i < n
        invariant
            n == line@.len(),
            off <= i <= n,
            out@ == line@.subrange(off as int, i as int),
        decreases n - i,
    {
        out.push(line[i]);
        i = i + 1;
        proof {
            assert(out@ =~= line@.subrange(off as int, i as int));
        }
    }
    proof {
        assert(line@.skip(off as int) =~= line@.subrange(off as int, n as int));
    }
    out
}

fn starts_with_lit(line: &Vec<char>, lit: &str) -> (r: bool)
    ensures
        r == seq_starts_with(line@, lit@),
{
    let pre = str_to_chars(lit);
    starts_with_chars(line, &pre)
}

fn push_all(dst: &mut Vec<char>, src: &Vec<char>)
    ensures
        final(dst)@ == old(dst)@ + src@,
{
    let n = src.len();
    for i in 0..n
        invariant
            n == src@.len(),
            dst@ == old(dst)@ + src@.take(i as int),
    {
        dst.push(src[i]);
        proof {
            assert(dst@ =~= old(dst)@ + src@.take(i + 1 as int));
        }
    }
    proof {
        assert(old(dst)@ + src@.take(n as int) =~= old(dst)@ + src@);
    }
}

/// Re-parses an artifact's text: returns the recorded status (`Unknown`
/// when none is found) and the trimmed body.
pub fn parse_artifact(content: &str) -> (r: (String, String))
    ensures
        r.0@ == spec_parse_artifact(content@).0,
        r.1@ == spec_parse_artifact(content@).1,
{
    let chars = str_to_chars(content);
    let lines = crate::persist::split_chars(&chars, '\n');
    let mut status: Vec<char> = str_to_chars("Unknown");
    let mut in_body = false;
    let mut body: Vec<char> = Vec::new();
    let n = lines.len();
    for i in 0..n
        invariant
            n == lines@.len(),
            (status@, in_body, body@) == parse_fold(lines.deep_view().take(i as int)),
    {
        proof {
            let pre = lines.deep_view().take(i + 1 as int);
            assert(pre =~~= lines.deep_view().take(i as int).push(lines.deep_view()[i as int]));
            assert(pre.drop_last() =~~= lines.deep_view().take(i as int));
            assert(pre.last() == lines.deep_view()[i as int]);
            assert(lines.deep_view()[i as int] =~~= lines@[i as int]@);
            assert(parse_fold(pre) == parse_step(
                parse_fold(lines.deep_view().take(i as int)),
                lines@[i as int]@,
            ));
        }
        if starts_with_lit(&lines[i], "Status:") {
            let stripped = strip_status_exec(&lines[i]);
            status = trim_chars(&stripped);
        } else if starts_with_lit(&lines[i], "Response Body:") {
            in_body = true;
        } else if in_body {
            push_all(&mut body, &lines[i]);
            body.push('\n');
            proof {
                reveal_strlit("\n");
                assert(body@ =~= parse_fold(lines.deep_view().take(i as int)).2 + lines@[i as int]@
                    + "\n"@);
            }
        }
    }
    proof {
        assert(lines.deep_view().take(n as int) =~~= lines.deep_view());
    }
    let trimmed = trim_chars(&body);
    (chars_to_string(&status), chars_to_string(&trimmed))
}

} // verus!
