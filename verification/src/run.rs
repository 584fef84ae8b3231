//! The check orchestrator: consumes the record stream, resolves each record
//! against the tracker, and aggregates the per-record outcomes into one run
//! verdict and report. Reading the stream and performing the HTTP requests
//! happen outside; every decision — how a response classifies, what is
//! printed, how the verdict folds, what the exit status is — is made here.

use vstd::prelude::*;
use crate::canon::{spec_canon_result, strings_view, CanonError};
use crate::chars::string_from_chars;
use crate::json::DocStep;
use crate::json::{next_doc, skip_ws, spec_next_doc, spec_skip_ws, GDocStep};
use crate::records::{opt_str_view, spec_next_record, spec_tracker_closed, tracker_from_doc};
use crate::records::{next_record, GRecordStep, GithubIssue, Issue, RecordStep};
use crate::chars::chars_of;
use crate::Verdict;

verus! {

/// The two subcommands of the tool.
#[derive(Debug, Clone)]
pub enum Cmd {
    /// Resolve every tracked issue and fail the run if any is closed or
    /// cannot be resolved.
    Check { package: Option<String>, manifest_path: Option<String> },
    /// Print every tracked issue, regardless of its status; the verdict
    /// never flips.
    List { package: Option<String>, manifest_path: Option<String> },
}

/// The command line: the single `issue` subcommand wrapping `Cmd`.
#[derive(Debug, Clone)]
pub enum Cli {
    Issue(Cmd),
}

/// What one HTTP resolution attempt of a canonical endpoint produced: a
/// response with its status and body, or a transport-level failure.
#[derive(Debug, Clone)]
pub enum Fetch {
    Response(u16, String),
    TransportError(String),
}

/// Mathematical counterpart of `Fetch`.
pub enum GFetch {
    Response(u16, Seq<char>),
    TransportError(Seq<char>),
}

impl View for Fetch {
    type V = GFetch;

    open spec fn view(&self) -> GFetch {
        match self {
            Fetch::Response(st, body) => GFetch::Response(*st, body@),
            Fetch::TransportError(e) => GFetch::TransportError(e@),
        }
    }
}

/// Per-record result of resolving one tracked issue.
#[derive(Debug, Clone, PartialEq)]
pub enum Outcome {
    /// The issue is still open.
    Open,
    /// The issue named by this URL has been closed.
    Closed(String),
    /// The issue named by this URL could not be resolved; the detail says
    /// why.
    ResolutionError(String, String),
}

/// Mathematical counterpart of `Outcome`.
pub enum GOutcome {
    Open,
    Closed(Seq<char>),
    ResolutionError(Seq<char>, Seq<char>),
}

impl View for Outcome {
    type V = GOutcome;

    open spec fn view(&self) -> GOutcome {
        match self {
            Outcome::Open => GOutcome::Open,
            Outcome::Closed(u) => GOutcome::Closed(u@),
            Outcome::ResolutionError(u, d) => GOutcome::ResolutionError(u@, d@),
        }
    }
}

/// The character of one decimal digit.
pub open spec fn digit_char(d: nat) -> char {
    if d == 0 {
        '0'
    } else if d == 1 {
        '1'
    } else if d == 2 {
        '2'
    } else if d == 3 {
        '3'
    } else if d == 4 {
        '4'
    } else if d == 5 {
        '5'
    } else if d == 6 {
        '6'
    } else if d == 7 {
        '7'
    } else if d == 8 {
        '8'
    } else {
        '9'
    }
}

/// The decimal digits of `n`, most significant first.
pub open spec fn spec_digits(n: nat) -> Seq<char>
    decreases n,
{
    if n < 10 {
        seq![digit_char(n)]
    } else {
        spec_digits(n / 10).push(digit_char(n % 10))
    }
}

fn digit_char_of(d: u16) -> (c: char)
    requires
        d < 10,
    ensures
        c == digit_char(d as nat),
{
    if d == 0 {
        '0'
    } else if d == 1 {
        '1'
    } else if d == 2 {
        '2'
    } else if d == 3 {
        '3'
    } else if d == 4 {
        '4'
    } else if d == 5 {
        '5'
    } else if d == 6 {
        '6'
    } else if d == 7 {
        '7'
    } else if d == 8 {
        '8'
    } else {
        '9'
    }
}

fn digits_u16(n: u16) -> (v: Vec<char>)
    ensures
        v@ == spec_digits(n as nat),
    decreases n,
{
    if n < 10 {
        let mut v: Vec<char> = Vec::new();
        v.push(digit_char_of(n));
        assert(v@ =~= seq![digit_char(n as nat)]);
        v
    } else {
        let mut v = digits_u16(n / 10);
        v.push(digit_char_of(n % 10));
        v
    }
}

/// The `closed_at` value denoted by a full response body: the body must hold
/// exactly one well-formed tracker-response document, with nothing but
/// whitespace after it.
pub open spec fn spec_decode_tracker(body: Seq<char>) -> Option<Option<Seq<char>>> {
    match spec_next_doc(body, 0) {
        GDocStep::Doc(ms, j) => if spec_skip_ws(body, j) == body.len() {
            spec_tracker_closed(ms)
        } else {
            Option::None
        },
        _ => Option::None,
    }
}

/// Decodes a full response body as one tracker response.
pub fn decode_tracker(body: &str) -> (r: Option<GithubIssue>)
    ensures
        (r is Some <==> spec_decode_tracker(body@) is Some),
        r matches Some(g) ==> Option::Some(opt_str_view(g.closed_at)) == spec_decode_tracker(
            body@,
        ),
{
    let cs = chars_of(body);
    match next_doc(&cs, 0) {
        DocStep::Doc(ms, j) => {
            let w = skip_ws(&cs, j);
            if w != cs.len() {
                None
            } else {
                tracker_from_doc(&ms)
            }
        },
        _ => None,
    }
}

/// How one fetch of an issue's canonical endpoint classifies: a successful
/// response decodes as a tracker response and its `closed_at` decides; every
/// failure along the way is a resolution error naming the issue's URL.
pub open spec fn spec_outcome(url: Seq<char>, f: GFetch) -> GOutcome {
    match f {
        GFetch::TransportError(e) => GOutcome::ResolutionError(url, e),
        GFetch::Response(st, body) => if !(200 <= st < 300) {
            GOutcome::ResolutionError(
                url,
                "failed to fetch issue (status "@ + spec_digits(st as nat) + "): "@ + body,
            )
        } else {
            match spec_decode_tracker(body) {
                Option::None => GOutcome::ResolutionError(
                    url,
                    "failed to decode tracker response"@,
                ),
                Option::Some(Option::None) => GOutcome::Open,
                Option::Some(Option::Some(_)) => GOutcome::Closed(url),
            }
        },
    }
}

/// Classifies what one fetch of `url`'s canonical endpoint produced.
pub fn classify_fetch(url: &String, f: &Fetch) -> (o: Outcome)
    ensures
        o@ == spec_outcome(url@, f@),
{
    match f {
        Fetch::TransportError(e) => Outcome::ResolutionError(url.clone(), e.clone()),
        Fetch::Response(st, body) => {
            if *st < 200 || *st >= 300 {
                let mut d = String::from_str("failed to fetch issue (status ");
                let digits = digits_u16(*st);
                let ds = string_from_chars(&digits);
                d.append(ds.as_str());
                d.append("): ");
                d.append(body.as_str());
                assert(d@ =~= "failed to fetch issue (status "@ + spec_digits(*st as nat)
                    + "): "@ + body@);
                Outcome::ResolutionError(url.clone(), d)
            } else {
                match decode_tracker(body.as_str()) {
                    None => Outcome::ResolutionError(
                        url.clone(),
                        String::from_str("failed to decode tracker response"),
                    ),
                    Some(g) => if g.is_closed() {
                        Outcome::Closed(url.clone())
                    } else {
                        Outcome::Open
                    },
                }
            }
        },
    }
}

/// The per-record message for a refused URL.
pub open spec fn spec_canon_message(c: CanonError) -> Seq<char> {
    match c {
        CanonError::InvalidUrl => "invalid issue URL"@,
        CanonError::UnsupportedHost => "only github public repositories are currently supported"@,
    }
}

fn canon_message(c: CanonError) -> (r: String)
    ensures
        r@ == spec_canon_message(c),
{
    match c {
        CanonError::InvalidUrl => String::from_str("invalid issue URL"),
        CanonError::UnsupportedHost => String::from_str(
            "only github public repositories are currently supported",
        ),
    }
}

/// The outcome of one record: a URL that cannot be canonicalized is a
/// resolution error of its own; otherwise the fetch of the canonical
/// endpoint decides.
pub open spec fn spec_record_outcome(url: Seq<char>, f: GFetch) -> GOutcome {
    match spec_canon_result(url) {
        Result::Err(c) => GOutcome::ResolutionError(url, spec_canon_message(c)),
        Result::Ok(_) => spec_outcome(url, f),
    }
}

/// Resolves one record given what fetching its canonical endpoint produced.
pub fn record_outcome(issue: &Issue, f: &Fetch) -> (o: Outcome)
    ensures
        o@ == spec_record_outcome(issue.url@, f@),
{
    match issue.canonicalize_url() {
        Err(c) => Outcome::ResolutionError(issue.url.clone(), canon_message(c)),
        Ok(_) => classify_fetch(&issue.url, f),
    }
}

/// The diagnostic line check mode emits for an outcome, if any.
pub open spec fn spec_check_line(o: GOutcome) -> Option<Seq<char>> {
    match o {
        GOutcome::Open => Option::None,
        GOutcome::Closed(u) => Option::Some("Closed issue: "@ + u),
        GOutcome::ResolutionError(_, d) => Option::Some("unable to access issue: "@ + d),
    }
}

/// Check mode's diagnostic line for an outcome: silent for an open issue, a
/// line naming the issue for a closed one, a line with the failure detail
/// for an unresolved one.
pub fn check_effect(o: &Outcome) -> (e: Option<String>)
    ensures
        opt_str_view(e) == spec_check_line(o@),
{
    match o {
        Outcome::Open => None,
        Outcome::Closed(u) => {
            let mut l = String::from_str("Closed issue: ");
            l.append(u.as_str());
            Some(l)
        },
        Outcome::ResolutionError(_, d) => {
            let mut l = String::from_str("unable to access issue: ");
            l.append(d.as_str());
            Some(l)
        },
    }
}

/// Every outcome of the sequence is an open issue.
pub open spec fn gall_open(outs: Seq<GOutcome>) -> bool {
    forall|i: int| 0 <= i < outs.len() ==> (#[trigger] outs[i]) is Open
}

/// The verdict over a sequence of outcomes, folded one outcome at a time:
/// one failing outcome makes the run fail, and nothing resets it.
pub open spec fn gverdict(outs: Seq<GOutcome>) -> Verdict
    decreases outs.len(),
{
    if outs.len() == 0 {
        Verdict::Pass
    } else if !(outs.last() is Open) {
        Verdict::Fail
    } else {
        gverdict(outs.drop_last())
    }
}

/// The folded verdict passes exactly when every outcome is open.
pub proof fn lemma_verdict_characterizes(outs: Seq<GOutcome>)
    ensures
        gverdict(outs) is Pass <==> gall_open(outs),
    decreases outs.len(),
{
    if outs.len() > 0 {
        lemma_verdict_characterizes(outs.drop_last());
        assert(forall|i: int|
            0 <= i < outs.len() - 1 ==> (#[trigger] outs[i]) == outs.drop_last()[i]);
        if gall_open(outs.drop_last()) && outs.last() is Open {
            assert(gall_open(outs));
        }
    }
}

/// A sequence of outcomes, viewed mathematically.
pub open spec fn outcomes_view(outs: Seq<Outcome>) -> Seq<GOutcome> {
    outs.map_values(|o: Outcome| o@)
}

/// Folds the verdict over outcomes in the order given.
pub fn aggregate_outcomes(outs: &Vec<Outcome>) -> (v: Verdict)
    ensures
        v == gverdict(outcomes_view(outs@)),
{
    let ghost ov = outcomes_view(outs@);
    let mut v = Verdict::Pass;
    let mut i: usize = 0;
    assert(ov.take(0) =~= Seq::<GOutcome>::empty());
    while i < outs.len()
        invariant
            i <= outs@.len(),
            ov == outcomes_view(outs@),
            v == gverdict(ov.take(i as int)),
        decreases outs@.len() - i,
    {
        assert(ov[i as int] == outs@[i as int]@);
        assert(ov.take(i + 1).drop_last() =~= ov.take(i as int));
        assert(ov.take(i + 1).last() == ov[i as int]);
        match &outs[i] {
            Outcome::Open => {},
            _ => {
                v = Verdict::Fail;
            },
        }
        i += 1;
    }
    assert(ov.take(outs@.len() as int) =~= ov);
    v
}

/// Aggregation does not depend on the order outcomes arrive in: two runs
/// whose outcomes are the same up to reordering get the same verdict.
pub proof fn lemma_verdict_order_independent(a: Seq<GOutcome>, b: Seq<GOutcome>)
    requires
        a.to_multiset() == b.to_multiset(),
    ensures
        gverdict(a) == gverdict(b),
{
    broadcast use vstd::seq_lib::group_seq_properties;

    lemma_verdict_characterizes(a);
    lemma_verdict_characterizes(b);
    assert(gall_open(a) <==> gall_open(b)) by {
        if gall_open(a) {
            assert forall|i: int| 0 <= i < b.len() implies (#[trigger] b[i]) is Open by {
                assert(b.contains(b[i]));
                assert(b.to_multiset().count(b[i]) > 0);
                assert(a.to_multiset().count(b[i]) > 0);
                assert(a.contains(b[i]));
                let w = choose|w: int| 0 <= w < a.len() && a[w] == b[i];
                assert(a[w] is Open);
            }
        }
        if gall_open(b) {
            assert forall|i: int| 0 <= i < a.len() implies (#[trigger] a[i]) is Open by {
                assert(a.contains(a[i]));
                assert(a.to_multiset().count(a[i]) > 0);
                assert(b.to_multiset().count(a[i]) > 0);
                assert(b.contains(a[i]));
                let w = choose|w: int| 0 <= w < b.len() && b[w] == a[i];
                assert(b[w] is Open);
            }
        }
    }
}

/// One failing outcome anywhere in the sequence fails the whole run.
pub proof fn lemma_failing_outcome_fails_run(outs: Seq<GOutcome>, i: int)
    requires
        0 <= i < outs.len(),
        !(outs[i] is Open),
    ensures
        gverdict(outs) == Verdict::Fail,
{
    lemma_verdict_characterizes(outs);
}

/// A sequence of strings, viewed mathematically.
pub open spec fn lines_view(v: Seq<String>) -> Seq<Seq<char>> {
    strings_view(v)
}

/// A sequence of fetches, viewed mathematically.
pub open spec fn fetches_view(v: Seq<Fetch>) -> Seq<GFetch> {
    v.map_values(|f: Fetch| f@)
}

/// What a whole run accumulates: whether the stream decoded cleanly, the
/// folded verdict, the per-record outcomes in record order, and the lines
/// written to the output and error channels.
#[verifier::ext_equal]
pub struct GRun {
    pub stream_ok: bool,
    pub verdict: Verdict,
    pub outcomes: Seq<GOutcome>,
    pub out_lines: Seq<Seq<char>>,
    pub err_lines: Seq<Seq<char>>,
}

/// The state of a run before any record has been seen.
pub open spec fn init_run() -> GRun {
    GRun {
        stream_ok: true,
        verdict: Verdict::Pass,
        outcomes: Seq::empty(),
        out_lines: Seq::empty(),
        err_lines: Seq::empty(),
    }
}

/// The fetch the tracker produced for the `k`-th record; a record beyond the
/// supplied fetches counts as unreachable.
pub open spec fn fetch_at(fetches: Seq<GFetch>, k: int) -> GFetch {
    if 0 <= k < fetches.len() {
        fetches[k]
    } else {
        GFetch::TransportError("no response from tracker"@)
    }
}

/// Appends a line to a channel when there is one.
pub open spec fn push_line(lines: Seq<Seq<char>>, l: Option<Seq<char>>) -> Seq<Seq<char>> {
    match l {
        Option::Some(x) => lines.push(x),
        Option::None => lines,
    }
}

/// How one record advances a run. List mode prints the record and never
/// resolves it; check mode resolves it, records the outcome, folds the
/// verdict, and emits the outcome's diagnostic line, if any.
pub open spec fn run_step(acc: GRun, list_mode: bool, url: Seq<char>, f: GFetch) -> GRun {
    if list_mode {
        GRun {
            stream_ok: acc.stream_ok,
            verdict: acc.verdict,
            outcomes: acc.outcomes,
            out_lines: acc.out_lines.push("issue: "@ + url),
            err_lines: acc.err_lines,
        }
    } else {
        let o = spec_record_outcome(url, f);
        GRun {
            stream_ok: acc.stream_ok,
            verdict: if o is Open {
                acc.verdict
            } else {
                Verdict::Fail
            },
            outcomes: acc.outcomes.push(o),
            out_lines: acc.out_lines,
            err_lines: push_line(acc.err_lines, spec_check_line(o)),
        }
    }
}

/// Marks the stream as broken, leaving everything already accumulated.
pub open spec fn break_stream(acc: GRun) -> GRun {
    GRun {
        stream_ok: false,
        verdict: acc.verdict,
        outcomes: acc.outcomes,
        out_lines: acc.out_lines,
        err_lines: acc.err_lines,
    }
}

/// A whole run over the stream from position `pos`, resolving the `k`-th and
/// later records, starting from the accumulated state `acc`. A clean end of
/// the stream finishes the run; an incomplete or malformed document breaks
/// it, keeping the records already handled (their resolutions are included,
/// not abandoned) and failing the run through `stream_ok`.
pub open spec fn spec_run(
    list_mode: bool,
    s: Seq<char>,
    fetches: Seq<GFetch>,
    pos: int,
    k: int,
    acc: GRun,
) -> GRun
    decreases s.len() - pos,
{
    match spec_next_record(s, pos) {
        GRecordStep::End => acc,
        GRecordStep::Partial => break_stream(acc),
        GRecordStep::Bad => break_stream(acc),
        GRecordStep::Rec(u, j) => {
            if !(pos < j && j <= s.len()) {
                break_stream(acc)
            } else {
                spec_run(
                    list_mode,
                    s,
                    fetches,
                    j,
                    k + 1,
                    run_step(acc, list_mode, u, fetch_at(fetches, k)),
                )
            }
        },
    }
}

/// What a finished run reports.
pub struct RunReport {
    pub stream_ok: bool,
    pub verdict: Verdict,
    pub outcomes: Vec<Outcome>,
    pub out_lines: Vec<String>,
    pub err_lines: Vec<String>,
}

impl View for RunReport {
    type V = GRun;

    open spec fn view(&self) -> GRun {
        GRun {
            stream_ok: self.stream_ok,
            verdict: self.verdict,
            outcomes: outcomes_view(self.outcomes@),
            out_lines: lines_view(self.out_lines@),
            err_lines: lines_view(self.err_lines@),
        }
    }
}

/// Runs the whole pipeline over a fully buffered stream, with `fetches`
/// supplying, in record order, what fetching each record's canonical
/// endpoint produced.
pub fn run_stream(cmd: &Cmd, s: &Vec<char>, fetches: &Vec<Fetch>) -> (r: RunReport)
    ensures
        r@ == spec_run(cmd is List, s@, fetches_view(fetches@), 0, 0, init_run()),
{
    let ghost fv = fetches_view(fetches@);
    let list_mode = matches!(cmd, Cmd::List { .. });
    let fallback = Fetch::TransportError(String::from_str("no response from tracker"));
    let mut pos: usize = 0;
    let mut k: usize = 0;
    let mut verdict = Verdict::Pass;
    let mut outcomes: Vec<Outcome> = Vec::new();
    let mut out_lines: Vec<String> = Vec::new();
    let mut err_lines: Vec<String> = Vec::new();
    let mut stream_ok = true;
    assert(outcomes_view(outcomes@) =~= Seq::<GOutcome>::empty());
    assert(lines_view(out_lines@) =~= Seq::<Seq<char>>::empty());
    assert(lines_view(err_lines@) =~= Seq::<Seq<char>>::empty());
    loop
        invariant_except_break
            pos <= s@.len(),
            k <= pos,
            fv == fetches_view(fetches@),
            list_mode == cmd is List,
            fallback@ == GFetch::TransportError("no response from tracker"@),
            stream_ok,
            spec_run(cmd is List, s@, fv, 0, 0, init_run()) == spec_run(
                cmd is List,
                s@,
                fv,
                pos as int,
                k as int,
                GRun {
                    stream_ok: true,
                    verdict: verdict,
                    outcomes: outcomes_view(outcomes@),
                    out_lines: lines_view(out_lines@),
                    err_lines: lines_view(err_lines@),
                },
            ),
        ensures
            spec_run(cmd is List, s@, fv, 0, 0, init_run()) == (GRun {
                stream_ok: stream_ok,
                verdict: verdict,
                outcomes: outcomes_view(outcomes@),
                out_lines: lines_view(out_lines@),
                err_lines: lines_view(err_lines@),
            }),
        decreases s@.len() - pos,
    {
        let ghost accv = GRun {
            stream_ok: true,
            verdict: verdict,
            outcomes: outcomes_view(outcomes@),
            out_lines: lines_view(out_lines@),
            err_lines: lines_view(err_lines@),
        };
        match next_record(s, pos) {
            RecordStep::End => {
                proof {
                    assert(spec_run(cmd is List, s@, fv, pos as int, k as int, accv) == accv);
                }
                break ;
            },
            RecordStep::Partial => {
                stream_ok = false;
                proof {
                    assert(spec_run(cmd is List, s@, fv, pos as int, k as int, accv)
                        =~= break_stream(accv));
                }
                break ;
            },
            RecordStep::Bad => {
                stream_ok = false;
                proof {
                    assert(spec_run(cmd is List, s@, fv, pos as int, k as int, accv)
                        =~= break_stream(accv));
                }
                break ;
            },
            RecordStep::Rec(issue, j) => {
                if list_mode {
                    out_lines.push(issue.describe());
                    assert(lines_view(out_lines@) =~= accv.out_lines.push(
                        "issue: "@ + issue.url@,
                    ));
                } else {
                    let f: &Fetch = if k < fetches.len() {
                        &fetches[k]
                    } else {
                        &fallback
                    };
                    assert(f@ == fetch_at(fv, k as int));
                    let o = record_outcome(&issue, f);
                    let failed = !matches!(o, Outcome::Open);
                    verdict = verdict.and_failed(failed);
                    match check_effect(&o) {
                        Some(l) => {
                            err_lines.push(l);
                        },
                        None => {},
                    }
                    let ghost ov = o@;
                    outcomes.push(o);
                    assert(outcomes_view(outcomes@) =~= accv.outcomes.push(ov));
                    assert(lines_view(err_lines@) =~= push_line(
                        accv.err_lines,
                        spec_check_line(ov),
                    ));
                }
                proof {
                    let accv2 = GRun {
                        stream_ok: true,
                        verdict: verdict,
                        outcomes: outcomes_view(outcomes@),
                        out_lines: lines_view(out_lines@),
                        err_lines: lines_view(err_lines@),
                    };
                    assert(accv2 =~= run_step(
                        accv,
                        cmd is List,
                        issue.url@,
                        fetch_at(fv, k as int),
                    ));
                }
                pos = j;
                k += 1;
            },
        }
    }
    let r = RunReport { stream_ok, verdict, outcomes, out_lines, err_lines };
    assert(r@ =~= spec_run(cmd is List, s@, fv, 0, 0, init_run()));
    r
}

/// The final exit status is success exactly when the build process spawned,
/// the stream decoded cleanly, the build itself succeeded, and the verdict
/// passed.
pub fn final_exit_zero(spawned: bool, stream_ok: bool, child_exit_zero: bool, verdict: &Verdict) -> (r:
    bool)
    ensures
        r <==> (spawned && stream_ok && child_exit_zero && verdict is Pass),
{
    spawned && stream_ok && child_exit_zero && matches!(verdict, Verdict::Pass)
}

/// A well-formed stream with zero records leaves the run exactly as it
/// began: no outcome, no output on either channel, a passing verdict.
pub proof fn lemma_empty_stream_passes(list_mode: bool, s: Seq<char>, fetches: Seq<GFetch>)
    requires
        spec_next_record(s, 0) is End,
    ensures
        spec_run(list_mode, s, fetches, 0, 0, init_run()) == init_run(),
{
}

/// Once the folded verdict has failed, no later record can make the run
/// pass again.
pub proof fn lemma_run_fail_persists(
    list_mode: bool,
    s: Seq<char>,
    fetches: Seq<GFetch>,
    pos: int,
    k: int,
    acc: GRun,
)
    requires
        acc.verdict is Fail,
    ensures
        spec_run(list_mode, s, fetches, pos, k, acc).verdict is Fail,
    decreases s.len() - pos,
{
    match spec_next_record(s, pos) {
        GRecordStep::Rec(u, j) => {
            if pos < j && j <= s.len() {
                lemma_run_fail_persists(
                    list_mode,
                    s,
                    fetches,
                    j,
                    k + 1,
                    run_step(acc, list_mode, u, fetch_at(fetches, k)),
                );
            }
        },
        _ => {},
    }
}

/// A run only ever extends what it has accumulated: every outcome and every
/// line already recorded stays, at its position.
pub proof fn lemma_run_extends(
    list_mode: bool,
    s: Seq<char>,
    fetches: Seq<GFetch>,
    pos: int,
    k: int,
    acc: GRun,
)
    ensures
        acc.outcomes.len() <= spec_run(list_mode, s, fetches, pos, k, acc).outcomes.len(),
        forall|t: int|
            0 <= t < acc.outcomes.len() ==> #[trigger] spec_run(
                list_mode,
                s,
                fetches,
                pos,
                k,
                acc,
            ).outcomes[t] == acc.outcomes[t],
        acc.err_lines.len() <= spec_run(list_mode, s, fetches, pos, k, acc).err_lines.len(),
        forall|t: int|
            0 <= t < acc.err_lines.len() ==> #[trigger] spec_run(
                list_mode,
                s,
                fetches,
                pos,
                k,
                acc,
            ).err_lines[t] == acc.err_lines[t],
        acc.out_lines.len() <= spec_run(list_mode, s, fetches, pos, k, acc).out_lines.len(),
        forall|t: int|
            0 <= t < acc.out_lines.len() ==> #[trigger] spec_run(
                list_mode,
                s,
                fetches,
                pos,
                k,
                acc,
            ).out_lines[t] == acc.out_lines[t],
    decreases s.len() - pos,
{
    match spec_next_record(s, pos) {
        GRecordStep::Rec(u, j) => {
            if pos < j && j <= s.len() {
                let acc2 = run_step(acc, list_mode, u, fetch_at(fetches, k));
                lemma_run_extends(list_mode, s, fetches, j, k + 1, acc2);
            }
        },
        _ => {},
    }
}

/// A listing run leaves the verdict unchanged.
pub proof fn lemma_list_mode_keeps_verdict(
    s: Seq<char>,
    fetches: Seq<GFetch>,
    pos: int,
    k: int,
    acc: GRun,
)
    ensures
        spec_run(true, s, fetches, pos, k, acc).verdict == acc.verdict,
    decreases s.len() - pos,
{
    match spec_next_record(s, pos) {
        GRecordStep::Rec(u, j) => {
            if pos < j && j <= s.len() {
                lemma_list_mode_keeps_verdict(
                    s,
                    fetches,
                    j,
                    k + 1,
                    run_step(acc, true, u, fetch_at(fetches, k)),
                );
            }
        },
        _ => {},
    }
}

/// In list mode every decoded record is printed: the run's output contains
/// the record's line, whatever the record's status would have been.
pub proof fn lemma_list_mode_prints_record(
    s: Seq<char>,
    fetches: Seq<GFetch>,
    pos: int,
    k: int,
    acc: GRun,
    u: Seq<char>,
    j: int,
)
    requires
        spec_next_record(s, pos) == GRecordStep::Rec(u, j),
        pos < j <= s.len(),
    ensures
        spec_run(true, s, fetches, pos, k, acc).out_lines.contains("issue: "@ + u),
{
    let acc2 = run_step(acc, true, u, fetch_at(fetches, k));
    assert(acc2.out_lines.last() == "issue: "@ + u);
    lemma_run_extends(true, s, fetches, j, k + 1, acc2);
    let r = spec_run(true, s, fetches, pos, k, acc);
    assert(r.out_lines[acc2.out_lines.len() - 1] == "issue: "@ + u);
}

/// In check mode a record whose canonical endpoint answers with a non-null
/// closed timestamp fails the run and emits the diagnostic line naming the
/// record's URL; nothing later in the stream removes either.
pub proof fn lemma_closed_record_fails_check(
    s: Seq<char>,
    fetches: Seq<GFetch>,
    pos: int,
    k: int,
    acc: GRun,
    u: Seq<char>,
    j: int,
)
    requires
        spec_next_record(s, pos) == GRecordStep::Rec(u, j),
        pos < j <= s.len(),
        spec_canon_result(u) is Ok,
        fetch_at(fetches, k) matches GFetch::Response(st, body) && 200 <= st < 300
            && spec_decode_tracker(body) matches Some(Some(ts)),
    ensures
        spec_run(false, s, fetches, pos, k, acc).verdict is Fail,
        spec_run(false, s, fetches, pos, k, acc).err_lines.contains("Closed issue: "@ + u),
{
    let f = fetch_at(fetches, k);
    let o = spec_record_outcome(u, f);
    assert(o == GOutcome::Closed(u));
    let acc2 = run_step(acc, false, u, f);
    assert(acc2.verdict is Fail);
    assert(acc2.err_lines.last() == "Closed issue: "@ + u);
    lemma_run_fail_persists(false, s, fetches, j, k + 1, acc2);
    lemma_run_extends(false, s, fetches, j, k + 1, acc2);
    let r = spec_run(false, s, fetches, pos, k, acc);
    assert(r.err_lines[acc2.err_lines.len() - 1] == "Closed issue: "@ + u);
}

/// In check mode a record whose canonical endpoint answers with a null
/// closed timestamp resolves as open: it adds no diagnostic line and leaves
/// the verdict as it was.
pub proof fn lemma_open_record_passes_check(
    s: Seq<char>,
    fetches: Seq<GFetch>,
    pos: int,
    k: int,
    acc: GRun,
    u: Seq<char>,
    j: int,
)
    requires
        spec_next_record(s, pos) == GRecordStep::Rec(u, j),
        pos < j <= s.len(),
        spec_canon_result(u) is Ok,
        fetch_at(fetches, k) matches GFetch::Response(st, body) && 200 <= st < 300
            && spec_decode_tracker(body) == Some(Option::<Seq<char>>::None),
    ensures
        spec_record_outcome(u, fetch_at(fetches, k)) == GOutcome::Open,
        run_step(acc, false, u, fetch_at(fetches, k)).verdict == acc.verdict,
        run_step(acc, false, u, fetch_at(fetches, k)).err_lines == acc.err_lines,
{
}

/// The verdict a run ends with is the aggregate of the outcomes it
/// collected: the run machinery adds nothing beyond the fold.
pub proof fn lemma_run_verdict_aggregates(
    list_mode: bool,
    s: Seq<char>,
    fetches: Seq<GFetch>,
    pos: int,
    k: int,
    acc: GRun,
)
    requires
        acc.verdict == gverdict(acc.outcomes),
    ensures
        spec_run(list_mode, s, fetches, pos, k, acc).verdict == gverdict(
            spec_run(list_mode, s, fetches, pos, k, acc).outcomes,
        ),
    decreases s.len() - pos,
{
    match spec_next_record(s, pos) {
        GRecordStep::Rec(u, j) => {
            if pos < j && j <= s.len() {
                let acc2 = run_step(acc, list_mode, u, fetch_at(fetches, k));
                assert(acc2.verdict == gverdict(acc2.outcomes)) by {
                    if !list_mode {
                        let o = spec_record_outcome(u, fetch_at(fetches, k));
                        assert(acc.outcomes.push(o).last() == o);
                        assert(acc.outcomes.push(o).drop_last() =~= acc.outcomes);
                    }
                }
                lemma_run_verdict_aggregates(list_mode, s, fetches, j, k + 1, acc2);
            }
        },
        _ => {},
    }
}

} // verus!
