//! Maps a human-facing issue URL to the tracker's REST endpoint: the host
//! must belong to the supported tracker, and the path segments are rewritten
//! onto the tracker's API base, preserving their order. An unparseable URL or
//! an unsupported host is a per-record error, never a crash of the run.

use vstd::prelude::*;
use crate::chars::chars_of;
use crate::records::Issue;

verus! {

/// What parsing a string as an absolute URL yields: its host and its path
/// segments, or nothing when the string is no absolute URL with a host and a
/// segmented path.
pub uninterp spec fn url_parts_of(s: Seq<char>) -> Option<(Seq<char>, Seq<Seq<char>>)>;

/// The host and path segments of a parsed URL, as plain values.
pub struct UrlParts {
    pub host: String,
    pub segments: Vec<String>,
}

/// A sequence of strings, viewed mathematically.
pub open spec fn strings_view(v: Seq<String>) -> Seq<Seq<char>> {
    v.map_values(|x: String| x@)
}

/// Relies on `url::Url::parse`, `url::Url::host_str` and
/// `url::Url::path_segments`: parsing yields the URL's host and its path
/// segments (the path split on `/` after its leading `/`), and fails on any
/// string that is no well-formed absolute URL; a URL without a host or
/// without a segmentable path (one that cannot be a base) yields nothing
/// here as well. The outcome depends on the input string alone.
#[verifier::external_body]
fn url_parts(s: &str) -> (r: Option<UrlParts>)
    ensures
        (r is Some <==> url_parts_of(s@) is Some),
        r matches Some(p) ==> Some((p.host@, strings_view(p.segments@))) == url_parts_of(s@),
{
    match url::Url::parse(s) {
        Ok(u) => match (u.host_str(), u.path_segments()) {
            (Some(h), Some(segs)) => Some(UrlParts {
                host: h.to_string(),
                segments: segs.map(|x| x.to_string()).collect(),
            }),
            _ => None,
        },
        Err(_) => None,
    }
}

/// Why a URL could not be canonicalized.
#[derive(Clone, Copy, Debug, PartialEq, Eq, Structural)]
pub enum CanonError {
    /// The string is no well-formed absolute URL with a host.
    InvalidUrl,
    /// The URL's host does not belong to the supported tracker.
    UnsupportedHost,
}

/// `needle` occurs contiguously somewhere in `hay`.
pub open spec fn spec_contains(hay: Seq<char>, needle: Seq<char>) -> bool {
    exists|k: int|
        0 <= k && k + needle.len() <= hay.len() && #[trigger] hay.subrange(k, k + needle.len())
            == needle
}

/// True exactly when `needle` occurs contiguously in `hay`.
pub fn contains_chars(hay: &Vec<char>, needle: &Vec<char>) -> (r: bool)
    ensures
        r <==> spec_contains(hay@, needle@),
{
    let nlen = needle.len();
    let hlen = hay.len();
    if nlen == 0 {
        assert(hay@.subrange(0, needle@.len() as int) =~= needle@);
        assert(spec_contains(hay@, needle@)) by {
            assert(0 <= 0 && 0 + needle@.len() <= hay@.len() && hay@.subrange(
                0,
                0 + needle@.len() as int,
            ) == needle@);
        }
        return true;
    }
    if nlen > hlen {
        return false;
    }
    let mut k: usize = 0;
    while k <= hlen - nlen
        invariant
            0 < nlen == needle@.len(),
            nlen <= hlen == hay@.len(),
            k <= hlen - nlen + 1,
            forall|q: int|
                0 <= q < k ==> #[trigger] hay@.subrange(q, q + needle@.len()) != needle@,
        decreases hlen - nlen + 1 - k,
    {
        let mut t: usize = 0;
        let mut hit = true;
        let ghost mut bad_q: int = 0;
        while t < nlen
            invariant
                t <= nlen,
                nlen == needle@.len(),
                hlen == hay@.len(),
                k + nlen <= hlen,
                hit ==> forall|q: int| 0 <= q < t ==> hay@[k + q] == #[trigger] needle@[q],
                !hit ==> 0 <= bad_q < needle@.len() && hay@[k + bad_q] != needle@[bad_q],
            decreases nlen - t,
        {
            if hay[k + t] != needle[t] {
                proof {
                    bad_q = t as int;
                }
                hit = false;
                t = nlen;
            } else {
                t += 1;
            }
        }
        if hit {
            assert(hay@.subrange(k as int, k + needle@.len()) =~= needle@);
            return true;
        }
        proof {
            assert(hay@.subrange(k as int, k + needle@.len())[bad_q] == hay@[k + bad_q]);
            assert(hay@.subrange(k as int, k + needle@.len()) != needle@);
        }
        k += 1;
    }
    false
}

/// The path segments joined by `/`.
pub open spec fn spec_join(segs: Seq<Seq<char>>) -> Seq<char>
    decreases segs.len(),
{
    if segs.len() == 0 {
        Seq::empty()
    } else if segs.len() == 1 {
        segs[0]
    } else {
        spec_join(segs.drop_last()) + "/"@ + segs.last()
    }
}

/// The canonical REST endpoint for the given path segments.
pub open spec fn spec_canonical(segs: Seq<Seq<char>>) -> Seq<char> {
    "https://api.github.com/repos/"@ + spec_join(segs)
}

/// Joins path segments with `/`, preserving their order.
fn join_segments(segs: &Vec<String>) -> (r: String)
    ensures
        r@ == spec_join(strings_view(segs@)),
{
    let ghost sv = strings_view(segs@);
    let mut acc = String::new();
    let mut i: usize = 0;
    assert(sv.take(0) =~= Seq::<Seq<char>>::empty());
    while i < segs.len()
        invariant
            i <= segs@.len(),
            sv == strings_view(segs@),
            acc@ == spec_join(sv.take(i as int)),
        decreases segs@.len() - i,
    {
        assert(sv[i as int] == segs@[i as int]@);
        if i > 0 {
            acc.append("/");
        }
        acc.append(segs[i].as_str());
        assert(sv.take(i + 1).drop_last() =~= sv.take(i as int));
        assert(sv.take(i + 1).last() == sv[i as int]);
        i += 1;
    }
    assert(sv.take(segs@.len() as int) =~= sv);
    acc
}

/// What canonicalization yields for a URL: the endpoint, or the reason it is
/// refused.
pub open spec fn spec_canon_result(u: Seq<char>) -> Result<Seq<char>, CanonError> {
    match url_parts_of(u) {
        Option::None => Result::Err(CanonError::InvalidUrl),
        Option::Some(p) => if spec_contains(p.0, "github"@) {
            Result::Ok(spec_canonical(p.1))
        } else {
            Result::Err(CanonError::UnsupportedHost)
        },
    }
}

impl Issue {
    /// The tracker's REST endpoint for this issue. A URL that does not parse
    /// is refused as `InvalidUrl`; a URL whose host does not belong to the
    /// supported tracker is refused as `UnsupportedHost`, as a per-record
    /// error rather than a failure of the whole run.
    pub fn canonicalize_url(&self) -> (r: Result<String, CanonError>)
        ensures
            (r is Ok <==> spec_canon_result(self.url@) is Ok),
            r matches Ok(e) ==> Result::<Seq<char>, CanonError>::Ok(e@) == spec_canon_result(
                self.url@,
            ),
            r matches Err(c) ==> Result::<Seq<char>, CanonError>::Err(c) == spec_canon_result(
                self.url@,
            ),
    {
        match url_parts(self.url.as_str()) {
            None => Err(CanonError::InvalidUrl),
            Some(p) => {
                let host_chars = chars_of(p.host.as_str());
                let needle = chars_of("github");
                if contains_chars(&host_chars, &needle) {
                    let tail = join_segments(&p.segments);
                    let mut endpoint = String::from_str("https://api.github.com/repos/");
                    endpoint.append(tail.as_str());
                    Ok(endpoint)
                } else {
                    Err(CanonError::UnsupportedHost)
                }
            },
        }
    }
}

} // verus!
