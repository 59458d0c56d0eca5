//! Case-insensitive filtering of recorded exchanges.
//!
//! The viewer reads a shared filter string every frame and keeps only the
//! entries whose URI contains it, ignoring case. The empty filter keeps
//! everything.

use vstd::prelude::*;

use crate::log_store::HttpLog;
use crate::text::{contains_chars, seq_contains_sub};

verus! {

/// The lowercase folding of a character sequence, as `str::to_lowercase`
/// computes it. The folding depends on the characters alone.
pub uninterp spec fn lower_of(s: Seq<char>) -> Seq<char>;

/// Relies on `str::to_lowercase`: the result is the lowercase folding of
/// the input, and the folding of the empty string is empty.
#[verifier::external_body]
pub(crate) fn lower_chars(s: &str) -> (r: Vec<char>)
    ensures
        r@ == lower_of(s@),
        s@.len() == 0 ==> r@.len() == 0,
{
    s.to_lowercase().chars().collect()
}

/// Whether an entry with URI `uri` passes the filter `filter`: the
/// lowercase folding of the filter occurs in the lowercase folding of the
/// URI.
pub open spec fn spec_matches(uri: Seq<char>, filter: Seq<char>) -> bool {
    seq_contains_sub(lower_of(uri), lower_of(filter))
}

/// Case-insensitive substring match of `filter` against `uri`.
/// The empty filter matches every URI.
pub fn matches_filter(uri: &str, filter: &str) -> (r: bool)
    ensures
        r == spec_matches(uri@, filter@),
        filter@.len() == 0 ==> r,
{
    let u = lower_chars(uri);
    let f = lower_chars(filter);
    proof {
        if filter@.len() == 0 {
            assert(u@.subrange(0, 0 + f@.len() as int) =~= f@);
        }
    }
    contains_chars(&u, &f)
}

/// The entries of `logs` whose URI matches `filter`, in their stored
/// order. With the empty filter this is all of `logs`.
pub fn filter_logs(logs: &Vec<HttpLog>, filter: &str) -> (r: Vec<HttpLog>)
    ensures
        r@ == logs@.filter(|l: HttpLog| spec_matches(l.uri@, filter@)),
        filter@.len() == 0 ==> r@ == logs@,
{
    let ghost pred = |l: HttpLog| spec_matches(l.uri@, filter@);
    let mut out: Vec<HttpLog> = Vec::new();
    let n = logs.len();
    for i in 0..n
        invariant
            n == logs@.len(),
            out@ == logs@.take(i as int).filter(|l: HttpLog| spec_matches(l.uri@, filter@)),
            filter@.len() == 0 ==> out@ == logs@.take(i as int),
    {
        let keep = matches_filter(logs[i].uri.as_str(), filter);
        if keep {
            out.push(logs[i].clone());
        }
        proof {
            reveal(Seq::filter);
            let prefix = logs@.take(i + 1 as int);
            assert(prefix.drop_last() =~= logs@.take(i as int));
            assert(prefix.last() == logs@[i as int]);
            if filter@.len() == 0 {
                assert(out@ =~= logs@.take(i + 1 as int));
            }
        }
    }
    proof {
        assert(logs@.take(n as int) =~= logs@);
    }
    out
}

} // verus!
