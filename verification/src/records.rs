//! The two record shapes of the pipeline: the issue record emitted by the
//! spawned build process (`{"url": ...}`) and the minimal tracker response
//! (`{"closed_at": ...}`), both read out of decoded record documents.
//!
//! Field reading follows the conventions of the emitting side: unknown
//! fields are ignored, a duplicated known field is a decode failure, a
//! wrongly typed known field is a decode failure. An absent `closed_at`
//! counts as a null one: the issue is open.

use vstd::prelude::*;
use crate::chars::{chars_of, string_from_chars};
use crate::json::{members_view, DocStep, GDocStep, GMember, GScalar, GStep, Member, Scalar};
use crate::json::{encode_str_body, lemma_decode_encoded_body, next_doc, spec_next_doc};
use crate::json::{
    spec_encode_from, spec_members, spec_parse_doc, spec_parse_scalar, spec_parse_string,
    spec_skip_ws, spec_str_body,
};

verus! {

/// One tracked issue, identified by its human-facing URL.
#[derive(Debug, Clone)]
pub struct Issue {
    pub url: String,
}

/// The minimal shape required of the tracker's response: the issue is closed
/// exactly when `closed_at` holds a timestamp.
#[derive(Debug, Clone, PartialEq)]
pub struct GithubIssue {
    pub closed_at: Option<String>,
}

impl Default for GithubIssue {
    /// An empty response: no closing timestamp.
    fn default() -> (r: GithubIssue)
        ensures
            r.closed_at is None,
    {
        GithubIssue { closed_at: None }
    }
}

impl GithubIssue {
    /// The issue is closed exactly when a closing timestamp is present.
    pub fn is_closed(&self) -> (r: bool)
        ensures
            r <==> self.closed_at is Some,
    {
        self.closed_at.is_some()
    }
}

/// The record document pipe mode emits for an issue with URL `u`.
pub open spec fn spec_encode_record(u: Seq<char>) -> Seq<char> {
    "{\"url\":\""@ + spec_encode_from(u, 0) + "\"}"@
}

impl Issue {
    /// The human-readable line list mode prints for this issue.
    pub fn describe(&self) -> (r: String)
        ensures
            r@ == "issue: "@ + self.url@,
    {
        let mut l = String::from_str("issue: ");
        l.append(self.url.as_str());
        l
    }

    /// The record document pipe mode emits for this issue.
    pub fn to_record_string(&self) -> (r: String)
        ensures
            r@ == spec_encode_record(self.url@),
    {
        let cs = chars_of(self.url.as_str());
        let body = encode_str_body(&cs);
        let bs = string_from_chars(&body);
        let mut out = String::from_str("{\"url\":\"");
        out.append(bs.as_str());
        out.append("\"}");
        assert(out@ =~= spec_encode_record(self.url@));
        out
    }
}

/// Encoding an issue record and decoding the result gives back exactly the
/// record: one encoded document, holding the same URL, consuming the whole
/// text. This holds for every URL without control characters — the encoder
/// never receives one, since the decoder would not have produced it.
pub proof fn lemma_record_round_trip(u: Seq<char>)
    requires
        forall|t: int| 0 <= t < u.len() ==> (#[trigger] (u[t] as u32)) >= 32,
    ensures
        spec_next_record(spec_encode_record(u), 0) == GRecordStep::Rec(
            u,
            spec_encode_record(u).len() as int,
        ),
{
    let pre = "{\"url\":\""@;
    let e = spec_encode_from(u, 0);
    let post = "\"}"@;
    let s = spec_encode_record(u);
    reveal_strlit("{\"url\":\"");
    reveal_strlit("\"}");
    reveal_strlit("url");
    assert(pre.len() == 8);
    assert(post.len() == 2);
    assert(s.len() == 10 + e.len());
    assert forall|p: int| 0 <= p < 8 implies s[p] == pre[p] by {}
    assert(s[0] == '{');
    assert(s[1] == '"');
    assert(s[2] == 'u');
    assert(s[3] == 'r');
    assert(s[4] == 'l');
    assert(s[5] == '"');
    assert(s[6] == ':');
    assert(s[7] == '"');
    assert(s[8 + e.len() as int] == post[0] && s[9 + e.len() as int] == post[1]);
    assert(s[8 + e.len() as int] == '"');
    assert(s[9 + e.len() as int] == '}');

    // the key string
    assert(spec_skip_ws(s, 0) == 0);
    assert(spec_skip_ws(s, 1) == 1);
    assert(Seq::<char>::empty().push('u') =~= seq!['u']);
    assert(seq!['u'].push('r') =~= seq!['u', 'r']);
    assert(seq!['u', 'r'].push('l') =~= seq!['u', 'r', 'l']);
    assert(seq!['u', 'r', 'l'] =~= "url"@);
    assert(spec_str_body(s, 2, Seq::empty()) == spec_str_body(s, 3, seq!['u']));
    assert(spec_str_body(s, 3, seq!['u']) == spec_str_body(s, 4, seq!['u', 'r']));
    assert(spec_str_body(s, 4, seq!['u', 'r']) == spec_str_body(s, 5, seq!['u', 'r', 'l']));
    assert(spec_str_body(s, 5, seq!['u', 'r', 'l']) == GStep::Found("url"@, 6));
    assert(spec_parse_string(s, 1) == GStep::Found("url"@, 6));

    // the value string: the encoded URL
    assert(spec_skip_ws(s, 6) == 6);
    assert(spec_skip_ws(s, 7) == 7);
    assert(s.subrange(8, 8 + e.len() as int) =~= e) by {
        assert forall|t: int| 0 <= t < e.len() implies s.subrange(8, 8 + e.len() as int)[t]
            == e[t] by {}
    }
    lemma_decode_encoded_body(s, u, 0, 8, Seq::empty());
    assert(Seq::<char>::empty() + u.skip(0) =~= u);
    assert(spec_parse_string(s, 7) == GStep::Found(u, 9 + e.len() as int));
    assert(spec_parse_scalar(s, 7) == GStep::Found(GScalar::Str(u), 9 + e.len() as int));

    // the closing brace ends the single-member document
    assert(spec_skip_ws(s, 9 + e.len() as int) == 9 + e.len() as int);
    let m = GMember { key: "url"@, val: GScalar::Str(u) };
    assert(spec_members(s, 1, Seq::empty()) == GStep::Found(
        Seq::empty().push(m),
        10 + e.len() as int,
    ));
    assert(spec_parse_doc(s, 0) == GStep::Found(Seq::empty().push(m), 10 + e.len() as int));
    assert(spec_next_doc(s, 0) == GDocStep::Doc(Seq::empty().push(m), 10 + e.len() as int));

    // the single member is the url field
    assert(Seq::empty().push(m).drop_first() =~= Seq::<GMember>::empty());
    assert(Seq::empty().push(m)[0] == m);
    assert(url_scan(Seq::empty().push(m), Option::None) == url_scan(
        Seq::<GMember>::empty(),
        Option::Some(u),
    ));
    assert(url_scan(Seq::<GMember>::empty(), Option::Some(u)) == Option::Some(u));
    assert(url_scan(Seq::empty().push(m), Option::None) == Option::Some(u));
    assert(spec_record_url(Seq::empty().push(m)) == Option::Some(u));
}

/// The `closed_at` value of a tracker response, viewed mathematically.
pub open spec fn opt_str_view(o: Option<String>) -> Option<Seq<char>> {
    match o {
        Option::None => Option::None,
        Option::Some(s) => Option::Some(s@),
    }
}

/// Walks the members of a document looking for the single `url` field with a
/// string value; `found` carries the value seen so far. A duplicate, a
/// wrongly typed value, or (at the end) an absent field gives `None`.
pub open spec fn url_scan(ms: Seq<GMember>, found: Option<Seq<char>>) -> Option<Seq<char>>
    decreases ms.len(),
{
    if ms.len() == 0 {
        found
    } else {
        let m = ms[0];
        if m.key == "url"@ {
            if found is Some {
                Option::None
            } else {
                match m.val {
                    GScalar::Str(v) => url_scan(ms.drop_first(), Option::Some(v)),
                    _ => Option::None,
                }
            }
        } else {
            url_scan(ms.drop_first(), found)
        }
    }
}

/// The URL of the issue record a document denotes, if the document is a
/// well-formed issue record.
pub open spec fn spec_record_url(ms: Seq<GMember>) -> Option<Seq<char>> {
    url_scan(ms, Option::None)
}

/// Walks the members of a document looking for the single `closed_at` field
/// holding null or a string. The outer option is decode success; the inner
/// one is the timestamp, `None` when the field is null or absent.
pub open spec fn closed_scan(ms: Seq<GMember>, found: Option<Option<Seq<char>>>) -> Option<
    Option<Seq<char>>,
>
    decreases ms.len(),
{
    if ms.len() == 0 {
        match found {
            Option::None => Option::Some(Option::None),
            Option::Some(x) => Option::Some(x),
        }
    } else {
        let m = ms[0];
        if m.key == "closed_at"@ {
            if found is Some {
                Option::None
            } else {
                match m.val {
                    GScalar::Null => closed_scan(ms.drop_first(), Option::Some(Option::None)),
                    GScalar::Str(v) => closed_scan(
                        ms.drop_first(),
                        Option::Some(Option::Some(v)),
                    ),
                    _ => Option::None,
                }
            }
        } else {
            closed_scan(ms.drop_first(), found)
        }
    }
}

/// The `closed_at` timestamp a document denotes, if the document is a
/// well-formed tracker response.
pub open spec fn spec_tracker_closed(ms: Seq<GMember>) -> Option<Option<Seq<char>>> {
    closed_scan(ms, Option::None)
}

/// Reads an issue record out of a decoded document.
pub fn record_from_doc(ms: &Vec<Member>) -> (r: Option<Issue>)
    ensures
        (r is Some <==> spec_record_url(members_view(ms@)) is Some),
        r matches Some(iss) ==> Option::Some(iss.url@) == spec_record_url(members_view(ms@)),
{
    let ghost mv = members_view(ms@);
    let mut found: Option<String> = None;
    let mut i: usize = 0;
    assert(mv.skip(0) =~= mv);
    while i < ms.len()
        invariant
            i <= ms@.len(),
            mv == members_view(ms@),
            found is None ==> url_scan(mv, Option::None) == url_scan(
                mv.skip(i as int),
                Option::None,
            ),
            found matches Some(u) ==> url_scan(mv, Option::None) == url_scan(
                mv.skip(i as int),
                Option::Some(u@),
            ),
        decreases ms@.len() - i,
    {
        assert(mv.skip(i as int)[0] == mv[i as int]);
        assert(mv[i as int] == ms@[i as int]@);
        assert(mv.skip(i as int).drop_first() =~= mv.skip(i as int + 1));
        let is_url = key_is(&ms[i].key, "url");
        if is_url {
            if found.is_some() {
                return None;
            }
            match &ms[i].val {
                Scalar::Str(v) => {
                    found = Some(string_from_chars(v));
                },
                _ => {
                    return None;
                },
            }
        }
        i += 1;
    }
    assert(mv.skip(ms@.len() as int).len() == 0);
    match found {
        Some(u) => Some(Issue { url: u }),
        None => None,
    }
}

/// Reads a tracker response out of a decoded document.
pub fn tracker_from_doc(ms: &Vec<Member>) -> (r: Option<GithubIssue>)
    ensures
        (r is Some <==> spec_tracker_closed(members_view(ms@)) is Some),
        r matches Some(g) ==> Option::Some(opt_str_view(g.closed_at)) == spec_tracker_closed(
            members_view(ms@),
        ),
{
    let ghost mv = members_view(ms@);
    let mut seen: bool = false;
    let mut found: Option<String> = None;
    let mut i: usize = 0;
    assert(mv.skip(0) =~= mv);
    while i < ms.len()
        invariant
            i <= ms@.len(),
            mv == members_view(ms@),
            !seen ==> found is None && spec_tracker_closed(mv) == closed_scan(
                mv.skip(i as int),
                Option::None,
            ),
            seen ==> spec_tracker_closed(mv) == closed_scan(
                mv.skip(i as int),
                Option::Some(opt_str_view(found)),
            ),
        decreases ms@.len() - i,
    {
        assert(mv.skip(i as int)[0] == mv[i as int]);
        assert(mv[i as int] == ms@[i as int]@);
        assert(mv.skip(i as int).drop_first() =~= mv.skip(i as int + 1));
        let is_closed_at = key_is(&ms[i].key, "closed_at");
        if is_closed_at {
            if seen {
                return None;
            }
            match &ms[i].val {
                Scalar::Null => {
                    seen = true;
                    found = None;
                },
                Scalar::Str(v) => {
                    seen = true;
                    found = Some(string_from_chars(v));
                },
                _ => {
                    return None;
                },
            }
        }
        i += 1;
    }
    assert(mv.skip(ms@.len() as int).len() == 0);
    Some(GithubIssue { closed_at: found })
}

/// True exactly when a decoded key holds the characters of `w`.
fn key_is(key: &Vec<char>, w: &str) -> (r: bool)
    ensures
        r <==> key@ == w@,
{
    let wlen = w.unicode_len();
    if key.len() != wlen {
        assert(key@ != w@) by {
            assert(key@.len() != w@.len());
        }
        return false;
    }
    let mut k: usize = 0;
    while k < wlen
        invariant
            k <= wlen,
            wlen == w@.len(),
            key@.len() == w@.len(),
            forall|t: int| 0 <= t < k ==> key@[t] == w@[t],
        decreases wlen - k,
    {
        if key[k] != w.get_char(k) {
            return false;
        }
        k += 1;
    }
    assert(key@ =~= w@);
    true
}

/// Outcome of decoding the next issue record of the stream.
pub enum RecordStep {
    /// One record and the position just past its document.
    Rec(Issue, usize),
    /// Only whitespace remains: the stream ended cleanly.
    End,
    /// The buffer ends inside a document.
    Partial,
    /// The next document is malformed or is no issue record.
    Bad,
}

/// Mathematical counterpart of `RecordStep`.
pub enum GRecordStep {
    Rec(Seq<char>, int),
    End,
    Partial,
    Bad,
}

/// Decodes the next issue record of the stream from position `i`.
pub open spec fn spec_next_record(s: Seq<char>, i: int) -> GRecordStep {
    match spec_next_doc(s, i) {
        GDocStep::Doc(ms, j) => match spec_record_url(ms) {
            Option::Some(u) => GRecordStep::Rec(u, j),
            Option::None => GRecordStep::Bad,
        },
        GDocStep::End => GRecordStep::End,
        GDocStep::Partial => GRecordStep::Partial,
        GDocStep::Bad => GRecordStep::Bad,
    }
}

/// Decodes the next issue record of the stream from position `i`.
pub fn next_record(s: &Vec<char>, i: usize) -> (r: RecordStep)
    requires
        i <= s@.len(),
    ensures
        (r is End <==> spec_next_record(s@, i as int) is End),
        (r is Partial <==> spec_next_record(s@, i as int) is Partial),
        (r is Bad <==> spec_next_record(s@, i as int) is Bad),
        r matches RecordStep::Rec(iss, j) ==> GRecordStep::Rec(iss.url@, j as int)
            == spec_next_record(s@, i as int) && i < j <= s@.len(),
{
    match next_doc(s, i) {
        DocStep::Doc(ms, j) => match record_from_doc(&ms) {
            Some(iss) => RecordStep::Rec(iss, j),
            None => RecordStep::Bad,
        },
        DocStep::End => RecordStep::End,
        DocStep::Partial => RecordStep::Partial,
        DocStep::Bad => RecordStep::Bad,
    }
}

} // verus!
