//! Mapping a request URI to the path of its on-disk artifact.
//!
//! The artifact of an exchange lives under a fixed base directory, in one
//! subtree per host, at a filesystem-safe rendering of the URI's path.
//! The mapping is a pure function of the URI: parse it; on failure fall
//! back to a flat sanitized name under an `unknown` bucket; on success
//! sanitize every path segment, append the sanitized query to the final
//! segment, and append the fixed extension.

use vstd::prelude::*;

use crate::text::{chars_to_string, seq_starts_with, str_to_chars};

verus! {

/// What parsing a URI yields: `None` when the string is not a URL, else
/// its host (when it has one), path, and query. The outcome depends on
/// the URI string alone.
pub uninterp spec fn uri_parts_of(s: Seq<char>) -> Option<
    (Option<Seq<char>>, Seq<char>, Option<Seq<char>>),
>;

/// Whether the plain values `r` render exactly the parse outcome `m`.
pub open spec fn parts_correspond(
    r: Option<(Option<String>, String, Option<String>)>,
    m: Option<(Option<Seq<char>>, Seq<char>, Option<Seq<char>>)>,
) -> bool {
    match (r, m) {
        (Option::None, Option::None) => true,
        (Option::Some((rh, rp, rq)), Option::Some((mh, mp, mq))) => {
            &&& (match (rh, mh) {
                (Option::None, Option::None) => true,
                (Option::Some(a), Option::Some(b)) => a@ == b,
                _ => false,
            })
            &&& rp@ == mp
            &&& (match (rq, mq) {
                (Option::None, Option::None) => true,
                (Option::Some(a), Option::Some(b)) => a@ == b,
                _ => false,
            })
        }
        _ => false,
    }
}

/// Relies on `url::Url::parse` and its `host_str`, `path` and `query`
/// accessors: parsing either fails, or yields the URL's host, path and
/// query, each a function of the URI string alone.
#[verifier::external_body]
fn parse_uri(s: &str) -> (r: Option<(Option<String>, String, Option<String>)>)
    ensures
        parts_correspond(r, uri_parts_of(s@)),
{
    match url::Url::parse(s) {
        Ok(u) => {
            let host = u.host_str().map(|h| h.to_string());
            let path = u.path().to_string();
            let query = u.query().map(|q| q.to_string());
            Some((host, path, query))
        }
        Err(_) => None,
    }
}

/// Sanitizing one character of an unparsable URI.
pub open spec fn raw_safe_char(c: char) -> char {
    if c == '/' || c == ':' || c == '?' || c == '&' || c == '=' {
        '_'
    } else {
        c
    }
}

/// Sanitizing one character of a path segment.
pub open spec fn seg_safe_char(c: char) -> char {
    if c == ':' || c == '?' || c == '&' || c == '=' || c == '*' || c == '<' || c == '>' || c == '|'
        || c == '"' {
        '_'
    } else {
        c
    }
}

/// Sanitizing one character of a query string.
pub open spec fn query_safe_char(c: char) -> char {
    if c == '/' {
        '_'
    } else {
        seg_safe_char(c)
    }
}

fn raw_safe_char_exec(c: char) -> (r: char)
    ensures
        r == raw_safe_char(c),
{
    if c == '/' || c == ':' || c == '?' || c == '&' || c == '=' {
        '_'
    } else {
        c
    }
}

fn seg_safe_char_exec(c: char) -> (r: char)
    ensures
        r == seg_safe_char(c),
{
    if c == ':' || c == '?' || c == '&' || c == '=' || c == '*' || c == '<' || c == '>' || c == '|'
        || c == '"' {
        '_'
    } else {
        c
    }
}

fn query_safe_char_exec(c: char) -> (r: char)
    ensures
        r == query_safe_char(c),
{
    if c == '/' {
        '_'
    } else {
        seg_safe_char_exec(c)
    }
}

/// The splitting of `s` at `sep`: the runs between separators, empty runs
/// included. Splitting the empty sequence gives one empty run.
pub open spec fn split_char(s: Seq<char>, sep: char) -> Seq<Seq<char>>
    decreases s.len(),
{
    if s.len() == 0 {
        seq![Seq::empty()]
    } else if s.last() == sep {
        split_char(s.drop_last(), sep).push(Seq::empty())
    } else {
        let r = split_char(s.drop_last(), sep);
        r.update(r.len() - 1, r.last().push(s.last()))
    }
}

/// Splitting always yields at least one run.
pub proof fn lemma_split_nonempty(s: Seq<char>, sep: char)
    ensures
        split_char(s, sep).len() >= 1,
    decreases s.len(),
{
    if s.len() > 0 {
        lemma_split_nonempty(s.drop_last(), sep);
    }
}

/// Splits `s` at `sep`, empty runs included.
pub fn split_chars(s: &Vec<char>, sep: char) -> (r: Vec<Vec<char>>)
    ensures
        r.deep_view() == split_char(s@, sep),
        r@.len() >= 1,
{
    let mut done: Vec<Vec<char>> = Vec::new();
    let mut cur: Vec<char> = Vec::new();
    let n = s.len();
    for i in 0..n
        invariant
            n == s@.len(),
            done@.len() + 1 == split_char(s@.take(i as int), sep).len(),
            done.deep_view().push(cur@) == split_char(s@.take(i as int), sep),
    {
        proof {
            lemma_split_nonempty(s@.take(i as int), sep);
            assert(s@.take(i + 1 as int).drop_last() =~= s@.take(i as int));
            assert(s@.take(i + 1 as int).last() == s@[i as int]);
        }
        if s[i] == sep {
            done.push(cur);
            cur = Vec::new();
            proof {
                assert(done.deep_view().push(cur@) =~~= split_char(s@.take(i + 1 as int), sep));
            }
        } else {
            cur.push(s[i]);
            proof {
                assert(done.deep_view().push(cur@) =~~= split_char(s@.take(i + 1 as int), sep));
            }
        }
    }
    done.push(cur);
    proof {
        assert(s@.take(n as int) =~= s@);
        assert(done.deep_view() =~~= split_char(s@, sep));
    }
    done
}

/// The nonempty runs of `parts`, each sanitized as a path segment.
pub open spec fn safe_segments(parts: Seq<Seq<char>>) -> Seq<Seq<char>> {
    parts.filter(|p: Seq<char>| p.len() > 0).map_values(
        |p: Seq<char>| p.map_values(|c: char| seg_safe_char(c)),
    )
}

/// One more run extends the sanitized segments exactly when it is
/// nonempty.
proof fn lemma_safe_segments_step(parts: Seq<Seq<char>>, x: Seq<char>)
    ensures
        x.len() > 0 ==> safe_segments(parts.push(x)) == safe_segments(parts).push(
            x.map_values(|c: char| seg_safe_char(c)),
        ),
        x.len() == 0 ==> safe_segments(parts.push(x)) == safe_segments(parts),
{
    reveal(Seq::filter);
    let s1 = parts.push(x);
    assert(s1.drop_last() =~~= parts);
    assert(s1.last() == x);
    if x.len() > 0 {
        assert(safe_segments(s1) =~~= safe_segments(parts).push(
            x.map_values(|c: char| seg_safe_char(c)),
        ));
    } else {
        assert(safe_segments(s1) =~~= safe_segments(parts));
    }
}

/// The segments joined by `/`.
pub open spec fn join_slash(parts: Seq<Seq<char>>) -> Seq<char>
    decreases parts.len(),
{
    if parts.len() == 0 {
        Seq::empty()
    } else if parts.len() == 1 {
        parts[0]
    } else {
        join_slash(parts.drop_last()) + "/"@ + parts.last()
    }
}

/// What the query contributes to the final segment: nothing when absent,
/// an underscore and the sanitized query when present.
pub open spec fn query_suffix(query: Option<Seq<char>>) -> Seq<char> {
    match query {
        Option::Some(q) => "_"@ + q.map_values(|c: char| query_safe_char(c)),
        Option::None => Seq::empty(),
    }
}

/// The directory part of an artifact path: the base directory, then one
/// subtree named after the host (`unknown` for a URL without one).
pub open spec fn host_prefix(host: Option<Seq<char>>) -> Seq<char> {
    ".yap/"@ + (match host {
        Option::Some(h) => h,
        Option::None => "unknown"@,
    }) + "/"@
}

/// The artifact path of a parsed URI, relative to the working directory:
/// the host subtree, the sanitized segments (`index` for an empty path),
/// the query suffix on the final segment, and the fixed extension.
pub open spec fn artifact_rel_path(
    host: Option<Seq<char>>,
    path: Seq<char>,
    query: Option<Seq<char>>,
) -> Seq<char> {
    let segs = safe_segments(split_char(path, '/'));
    let stem = if segs.len() == 0 {
        "index"@
    } else {
        join_slash(segs)
    };
    host_prefix(host) + stem + query_suffix(query) + ".yap"@
}

/// The artifact path of an unparsable URI: a flat sanitized name under
/// the `unknown` bucket.
pub open spec fn fallback_path(s: Seq<char>) -> Seq<char> {
    ".yap/unknown/"@ + s.map_values(|c: char| raw_safe_char(c)) + ".yap"@
}

/// The artifact path of any URI string.
pub open spec fn spec_artifact_path(s: Seq<char>) -> Seq<char> {
    match uri_parts_of(s) {
        Option::None => fallback_path(s),
        Option::Some((h, p, q)) => artifact_rel_path(h, p, q),
    }
}

fn map_raw_safe(s: &Vec<char>) -> (r: Vec<char>)
    ensures
        r@ == s@.map_values(|c: char| raw_safe_char(c)),
{
    let mut out: Vec<char> = Vec::new();
    let n = s.len();
    for i in 0..n
        invariant
            n == s@.len(),
            out@ == s@.take(i as int).map_values(|c: char| raw_safe_char(c)),
    {
        out.push(raw_safe_char_exec(s[i]));
        proof {
            assert(out@ =~= s@.take(i + 1 as int).map_values(|c: char| raw_safe_char(c)));
        }
    }
    proof {
        assert(s@.take(n as int) =~= s@);
    }
    out
}

fn map_seg_safe(s: &Vec<char>) -> (r: Vec<char>)
    ensures
        r@ == s@.map_values(|c: char| seg_safe_char(c)),
{
    let mut out: Vec<char> = Vec::new();
    let n = s.len();
    for i in 0..n
        invariant
            n == s@.len(),
            out@ == s@.take(i as int).map_values(|c: char| seg_safe_char(c)),
    {
        out.push(seg_safe_char_exec(s[i]));
        proof {
            assert(out@ =~= s@.take(i + 1 as int).map_values(|c: char| seg_safe_char(c)));
        }
    }
    proof {
        assert(s@.take(n as int) =~= s@);
    }
    out
}

fn map_query_safe(s: &Vec<char>) -> (r: Vec<char>)
    ensures
        r@ == s@.map_values(|c: char| query_safe_char(c)),
{
    let mut out: Vec<char> = Vec::new();
    let n = s.len();
    for i in 0..n
        invariant
            n == s@.len(),
            out@ == s@.take(i as int).map_values(|c: char| query_safe_char(c)),
    {
        out.push(query_safe_char_exec(s[i]));
        proof {
            assert(out@ =~= s@.take(i + 1 as int).map_values(|c: char| query_safe_char(c)));
        }
    }
    proof {
        assert(s@.take(n as int) =~= s@);
    }
    out
}

/// The nonempty sanitized segments of a split path.
fn collect_safe_segments(parts: &Vec<Vec<char>>) -> (r: Vec<Vec<char>>)
    ensures
        r.deep_view() == safe_segments(parts.deep_view()),
{
    let mut out: Vec<Vec<char>> = Vec::new();
    let n = parts.len();
    for i in 0..n
        invariant
            n == parts@.len(),
            out.deep_view() == safe_segments(parts.deep_view().take(i as int)),
    {
        let ghost x = parts.deep_view()[i as int];
        proof {
            assert(x =~~= parts@[i as int]@);
            assert(parts.deep_view().take(i + 1 as int) =~~= parts.deep_view().take(i as int).push(
                x,
            ));
            lemma_safe_segments_step(parts.deep_view().take(i as int), x);
        }
        if parts[i].len() > 0 {
            out.push(map_seg_safe(&parts[i]));
            proof {
                assert(out.deep_view() =~~= safe_segments(parts.deep_view().take(i + 1 as int)));
            }
        } else {
            proof {
                assert(out.deep_view() =~~= safe_segments(parts.deep_view().take(i + 1 as int)));
            }
        }
    }
    proof {
        assert(parts.deep_view().take(n as int) =~~= parts.deep_view());
    }
    out
}

/// The path, relative to the working directory, of the artifact recording
/// an exchange with the given URI. A pure function of the URI string.
pub fn uri_to_file_path(uri: &str) -> (r: String)
    ensures
        r@ == spec_artifact_path(uri@),
{
    let parsed = parse_uri(uri);
    match parsed {
        None => {
            let raw = str_to_chars(uri);
            let safe = map_raw_safe(&raw);
            let mut s = String::new();
            s.append(".yap/unknown/");
            s.append(chars_to_string(&safe).as_str());
            s.append(".yap");
            proof {
                assert(s@ =~= spec_artifact_path(uri@));
            }
            s
        }
        Some((host, path, query)) => {
            let mut s = String::new();
            s.append(".yap/");
            match &host {
                Some(h) => s.append(h.as_str()),
                None => s.append("unknown"),
            }
            s.append("/");
            let path_chars = str_to_chars(path.as_str());
            let parts = split_chars(&path_chars, '/');
            let segs = collect_safe_segments(&parts);
            let ghost m = uri_parts_of(uri@);
            let ghost mparts = m->0;
            let ghost mh = mparts.0;
            let ghost mp = mparts.1;
            proof {
                assert(path@ == mp);
                assert(segs.deep_view() == safe_segments(split_char(mp, '/')));
            }
            if segs.len() == 0 {
                s.append("index");
            } else {
                let k = segs.len();
                for j in 0..k
                    invariant
                        k == segs@.len(),
                        k >= 1,
                        s@ == host_prefix(mh) + join_slash(segs.deep_view().take(j as int))
                            + (if 0 < j < k {
                            "/"@
                        } else {
                            Seq::<char>::empty()
                        }),
                {
                    s.append(chars_to_string(&segs[j]).as_str());
                    if j + 1 < k {
                        s.append("/");
                    }
                    proof {
                        let pre = segs.deep_view().take(j + 1 as int);
                        assert(pre.drop_last() =~= segs.deep_view().take(j as int));
                        assert(pre.last() == segs.deep_view()[j as int]);
                        if j + 1 < k {
                            assert(s@ =~= host_prefix(mh) + join_slash(pre) + "/"@);
                        } else {
                            assert(s@ =~= host_prefix(mh) + join_slash(pre));
                        }
                    }
                }
                proof {
                    assert(segs.deep_view().take(k as int) =~= segs.deep_view());
                }
            }
            match &query {
                Some(q) => {
                    s.append("_");
                    let qc = str_to_chars(q.as_str());
                    let qs = map_query_safe(&qc);
                    s.append(chars_to_string(&qs).as_str());
                }
                None => {}
            }
            s.append(".yap");
            proof {
                assert(s@ =~= spec_artifact_path(uri@));
            }
            s
        }
    }
}

/// The path of the sibling file holding a binary body: the artifact path
/// with its extension replaced by `bin`.
pub fn binary_sibling_path(p: &str) -> (r: String)
    requires
        p@.len() >= 4,
        p@.subrange(p@.len() - 4, p@.len() as int) == ".yap"@,
    ensures
        r@ == p@.subrange(0, p@.len() - 3) + "bin"@,
{
    let n = p.unicode_len();
    let stem = p.substring_char(0, n - 3);
    let mut s = String::new();
    s.append(stem);
    s.append("bin");
    s
}

/// Appending a distinct query suffix to the same parsed URI moves the
/// artifact: the two paths share the host and sanitized-path prefix and
/// still name distinct files.
pub proof fn lemma_query_changes_filename(
    host: Option<Seq<char>>,
    path: Seq<char>,
    q1: Option<Seq<char>>,
    q2: Option<Seq<char>>,
)
    requires
        query_suffix(q1) != query_suffix(q2),
    ensures
        artifact_rel_path(host, path, q1) != artifact_rel_path(host, path, q2),
        seq_starts_with(
            artifact_rel_path(host, path, q1),
            host_prefix(host) + path_stem(path),
        ),
        seq_starts_with(
            artifact_rel_path(host, path, q2),
            host_prefix(host) + path_stem(path),
        ),
{
    let pre = host_prefix(host) + path_stem(path);
    let a = query_suffix(q1);
    let b = query_suffix(q2);
    let p1 = artifact_rel_path(host, path, q1);
    let p2 = artifact_rel_path(host, path, q2);
    assert(p1 =~= pre + a + ".yap"@);
    assert(p2 =~= pre + b + ".yap"@);
    assert(seq_starts_with(p1, pre)) by {
        assert(p1.subrange(0, pre.len() as int) =~= pre);
    }
    assert(seq_starts_with(p2, pre)) by {
        assert(p2.subrange(0, pre.len() as int) =~= pre);
    }
    if a.len() == b.len() {
        assert(!(a =~= b));
        let i = choose|i: int| 0 <= i < a.len() && a[i] != b[i];
        assert(p1[pre.len() + i] != p2[pre.len() + i]);
    } else {
        assert(p1.len() != p2.len());
    }
}

/// The stem of an artifact path: the sanitized segments, or `index` when
/// the path has none.
pub open spec fn path_stem(path: Seq<char>) -> Seq<char> {
    let segs = safe_segments(split_char(path, '/'));
    if segs.len() == 0 {
        "index"@
    } else {
        join_slash(segs)
    }
}

} // verus!
