use issue::chars::chars_of;
use issue::run::{
    aggregate_outcomes, check_effect, classify_fetch, final_exit_zero, record_outcome, run_stream,
    Cmd, Fetch, Outcome,
};
use issue::records::{GithubIssue, Issue};
use issue::run::Cli;
use issue::Verdict;

fn check_cmd() -> Cmd {
    Cmd::Check { package: None, manifest_path: None }
}

fn list_cmd() -> Cmd {
    Cmd::List { package: None, manifest_path: None }
}

fn ok_body(closed: Option<&str>) -> Fetch {
    match closed {
        None => Fetch::Response(200, "{\"closed_at\":null}".to_string()),
        Some(ts) => Fetch::Response(200, format!("{{\"closed_at\":\"{}\"}}", ts)),
    }
}

#[test]
fn empty_stream_check_passes_with_no_output() {
    let input = chars_of("");
    let report = run_stream(&check_cmd(), &input, &Vec::new());
    assert!(report.stream_ok);
    assert_eq!(report.verdict, Verdict::Pass);
    assert!(report.out_lines.is_empty());
    assert!(report.err_lines.is_empty());
    assert!(report.outcomes.is_empty());
    assert!(final_exit_zero(true, report.stream_ok, true, &report.verdict));
}

#[test]
fn whitespace_only_stream_is_a_clean_end() {
    let input = chars_of("  \n\t ");
    let report = run_stream(&check_cmd(), &input, &Vec::new());
    assert!(report.stream_ok);
    assert_eq!(report.verdict, Verdict::Pass);
    assert!(report.err_lines.is_empty());
}

#[test]
fn closed_issue_fails_check_and_names_the_url() {
    let input = chars_of("{\"url\":\"https://github.com/acme/widget/issues/2\"}");
    let fetches = vec![ok_body(Some("2021-05-01T00:00:00Z"))];
    let report = run_stream(&check_cmd(), &input, &fetches);
    assert!(report.stream_ok);
    assert_eq!(report.verdict, Verdict::Fail);
    assert_eq!(
        report.err_lines,
        vec!["Closed issue: https://github.com/acme/widget/issues/2".to_string()]
    );
    assert!(!final_exit_zero(true, report.stream_ok, true, &report.verdict));
}

#[test]
fn open_issue_passes_check_silently_and_list_prints_it() {
    let input = chars_of("{\"url\":\"https://github.com/acme/widget/issues/1\"}");
    let fetches = vec![ok_body(None)];
    let report = run_stream(&check_cmd(), &input, &fetches);
    assert!(report.stream_ok);
    assert_eq!(report.verdict, Verdict::Pass);
    assert!(report.err_lines.is_empty());
    assert!(final_exit_zero(true, report.stream_ok, true, &report.verdict));

    let listing = run_stream(&list_cmd(), &input, &Vec::new());
    assert_eq!(listing.verdict, Verdict::Pass);
    assert_eq!(
        listing.out_lines,
        vec!["issue: https://github.com/acme/widget/issues/1".to_string()]
    );
}

#[test]
fn two_records_one_closed() {
    let input = chars_of(
        "{\"url\":\"https://github.com/acme/widget/issues/1\"}{\"url\":\"https://github.com/acme/widget/issues/2\"}",
    );
    let fetches = vec![ok_body(None), ok_body(Some("2020-01-01T00:00:00Z"))];
    let report = run_stream(&check_cmd(), &input, &fetches);
    assert!(report.stream_ok);
    assert_eq!(report.verdict, Verdict::Fail);
    assert!(!final_exit_zero(true, report.stream_ok, true, &report.verdict));
    let err = report.err_lines.join("\n");
    assert!(err.contains("https://github.com/acme/widget/issues/2"));
    assert!(!err.contains("https://github.com/acme/widget/issues/1"));

    let listing = run_stream(&list_cmd(), &input, &Vec::new());
    assert!(listing.stream_ok);
    assert_eq!(listing.verdict, Verdict::Pass);
    assert!(final_exit_zero(true, listing.stream_ok, true, &listing.verdict));
    assert_eq!(listing.out_lines.len(), 2);
    assert!(listing.out_lines.contains(&"issue: https://github.com/acme/widget/issues/1".to_string()));
    assert!(listing.out_lines.contains(&"issue: https://github.com/acme/widget/issues/2".to_string()));
}

#[test]
fn malformed_trailing_bytes_fail_the_run_but_keep_resolved_records() {
    // One valid record, then bytes that are no document: the valid record's
    // resolution is included, the run itself fails through the stream error.
    let input = chars_of("{\"url\":\"https://github.com/acme/widget/issues/1\"}xyz");
    let fetches = vec![ok_body(None)];
    let report = run_stream(&check_cmd(), &input, &fetches);
    assert!(!report.stream_ok);
    assert_eq!(report.outcomes, vec![Outcome::Open]);
    assert!(!final_exit_zero(true, report.stream_ok, true, &report.verdict));
}

#[test]
fn truncated_document_is_an_incomplete_stream() {
    let input = chars_of("{\"url\":\"https://github.com/acme/widget/issues/1\"}{\"url\":\"https:");
    let fetches = vec![ok_body(None)];
    let report = run_stream(&check_cmd(), &input, &fetches);
    assert!(!report.stream_ok);
    assert_eq!(report.outcomes.len(), 1);
    assert!(!final_exit_zero(true, report.stream_ok, true, &report.verdict));
}

#[test]
fn duplicate_url_field_is_malformed() {
    let input = chars_of("{\"url\":\"a\",\"url\":\"b\"}");
    let report = run_stream(&list_cmd(), &input, &Vec::new());
    assert!(!report.stream_ok);
    assert!(report.out_lines.is_empty());
}

#[test]
fn unknown_fields_and_numbers_are_ignored() {
    let input = chars_of(
        "{\"n\":12.5e3,\"url\":\"https://github.com/a/b/issues/1\",\"ok\":true} {\"url\":\"https://github.com/a/b/issues/2\",\"note\":null}",
    );
    let report = run_stream(&list_cmd(), &input, &Vec::new());
    assert!(report.stream_ok);
    assert_eq!(report.out_lines.len(), 2);
}

#[test]
fn nested_values_in_ignored_fields_are_skipped() {
    let input = chars_of(
        "{\"user\":{\"login\":\"a\",\"ids\":[1,2,{\"x\":[]}]},\"url\":\"https://github.com/a/b/issues/3\",\"labels\":[]}",
    );
    let report = run_stream(&list_cmd(), &input, &Vec::new());
    assert!(report.stream_ok);
    assert_eq!(report.out_lines, vec!["issue: https://github.com/a/b/issues/3".to_string()]);
}

#[test]
fn tracker_response_with_nested_fields_still_decodes() {
    let url = "https://github.com/a/b/issues/3".to_string();
    let body = "{\"user\":{\"login\":\"octocat\"},\"closed_at\":null,\"labels\":[{\"name\":\"bug\"}]}";
    let o = classify_fetch(&url, &Fetch::Response(200, body.to_string()));
    assert_eq!(o, Outcome::Open);
}

#[test]
fn unterminated_nested_value_is_incomplete() {
    let input = chars_of("{\"user\":{\"login\":[1,");
    let report = run_stream(&list_cmd(), &input, &Vec::new());
    assert!(!report.stream_ok);
}

#[test]
fn trailing_comma_in_nested_value_is_malformed() {
    let input = chars_of("{\"xs\":[1,],\"url\":\"u\"}");
    let report = run_stream(&list_cmd(), &input, &Vec::new());
    assert!(!report.stream_ok);
}

#[test]
fn unicode_escapes_decode_in_record_urls() {
    // A basic escape, and a surrogate pair denoting one astral character.
    let input = chars_of("{\"url\":\"a\\u0041b\\ud83d\\ude00c\"}");
    let report = run_stream(&list_cmd(), &input, &Vec::new());
    assert!(report.stream_ok);
    assert_eq!(report.out_lines, vec!["issue: aAb\u{1F600}c".to_string()]);
}

#[test]
fn lone_surrogate_escape_is_malformed() {
    let input = chars_of("{\"url\":\"a\\ud83db\"}");
    let report = run_stream(&list_cmd(), &input, &Vec::new());
    assert!(!report.stream_ok);
}

#[test]
fn escaped_characters_decode_in_record_urls() {
    let input = chars_of("{\"url\":\"a\\\"b\\\\c\\nd\"}");
    let report = run_stream(&list_cmd(), &input, &Vec::new());
    assert!(report.stream_ok);
    assert_eq!(report.out_lines, vec!["issue: a\"b\\c\nd".to_string()]);
}

#[test]
fn non_success_status_is_a_resolution_error_with_status_and_body() {
    let url = "https://github.com/acme/widget/issues/9".to_string();
    let o = classify_fetch(&url, &Fetch::Response(404, "Not Found".to_string()));
    assert_eq!(
        o,
        Outcome::ResolutionError(url.clone(), "failed to fetch issue (status 404): Not Found".to_string())
    );
    let line = check_effect(&o).unwrap();
    assert_eq!(
        line,
        "unable to access issue: failed to fetch issue (status 404): Not Found".to_string()
    );
}

#[test]
fn transport_error_is_a_resolution_error() {
    let url = "https://github.com/acme/widget/issues/9".to_string();
    let o = classify_fetch(&url, &Fetch::TransportError("connection refused".to_string()));
    assert_eq!(o, Outcome::ResolutionError(url, "connection refused".to_string()));
}

#[test]
fn undecodable_response_body_is_a_resolution_error() {
    let url = "https://github.com/acme/widget/issues/9".to_string();
    let bad_bodies = ["", "null", "{\"closed_at\":7}", "{\"closed_at\":null} extra", "[1,2]"];
    for body in bad_bodies {
        let o = classify_fetch(&url, &Fetch::Response(200, body.to_string()));
        assert_eq!(
            o,
            Outcome::ResolutionError(url.clone(), "failed to decode tracker response".to_string()),
            "body: {body:?}"
        );
    }
}

#[test]
fn closed_at_presence_decides() {
    assert!(!GithubIssue::default().is_closed());
    assert!(!GithubIssue { closed_at: None }.is_closed());
    assert!(GithubIssue { closed_at: Some("2020-01-01T00:00:00Z".to_string()) }.is_closed());
}

#[test]
fn cli_wraps_the_subcommand() {
    let Cli::Issue(cmd) = Cli::Issue(list_cmd());
    assert!(matches!(cmd, Cmd::List { .. }));
}

#[test]
fn absent_closed_at_counts_as_open() {
    let url = "https://github.com/acme/widget/issues/9".to_string();
    let o = classify_fetch(&url, &Fetch::Response(200, "{\"number\": 9}".to_string()));
    assert_eq!(o, Outcome::Open);
    let o = classify_fetch(&url, &Fetch::Response(200, " {\"closed_at\":null,\"title\":\"t\"} ".to_string()));
    assert_eq!(o, Outcome::Open);
}

#[test]
fn resolution_error_records_fail_check_but_not_list() {
    let input = chars_of("{\"url\":\"https://example.com/not/github\"}");
    let report = run_stream(&check_cmd(), &input, &vec![ok_body(None)]);
    assert!(report.stream_ok);
    assert_eq!(report.verdict, Verdict::Fail);
    assert_eq!(
        report.err_lines,
        vec![
            "unable to access issue: only github public repositories are currently supported"
                .to_string()
        ]
    );

    let listing = run_stream(&list_cmd(), &input, &Vec::new());
    assert_eq!(listing.verdict, Verdict::Pass);
    assert_eq!(listing.out_lines, vec!["issue: https://example.com/not/github".to_string()]);
}

#[test]
fn aggregation_is_order_independent() {
    let u = "https://github.com/a/b/issues/1".to_string();
    let one_closed = vec![
        Outcome::Open,
        Outcome::Closed(u.clone()),
        Outcome::Open,
    ];
    let reordered = vec![
        Outcome::Closed(u.clone()),
        Outcome::Open,
        Outcome::Open,
    ];
    assert_eq!(aggregate_outcomes(&one_closed), Verdict::Fail);
    assert_eq!(aggregate_outcomes(&reordered), Verdict::Fail);
    let all_open = vec![Outcome::Open, Outcome::Open];
    assert_eq!(aggregate_outcomes(&all_open), Verdict::Pass);
    assert_eq!(aggregate_outcomes(&Vec::new()), Verdict::Pass);
}

#[test]
fn delayed_or_missing_fetches_never_pass_silently() {
    // A record beyond the supplied fetches resolves as an error, not as open.
    let input = chars_of("{\"url\":\"https://github.com/a/b/issues/1\"}");
    let report = run_stream(&check_cmd(), &input, &Vec::new());
    assert_eq!(report.verdict, Verdict::Fail);
    assert_eq!(
        report.err_lines,
        vec!["unable to access issue: no response from tracker".to_string()]
    );
}

#[test]
fn encoded_record_decodes_back() {
    let issue = Issue { url: "https://github.com/a/b/issues/1?q=\"x\\y\"".to_string() };
    let doc = issue.to_record_string();
    assert_eq!(doc, "{\"url\":\"https://github.com/a/b/issues/1?q=\\\"x\\\\y\\\"\"}".to_string());
    let input = chars_of(&doc);
    let report = run_stream(&list_cmd(), &input, &Vec::new());
    assert!(report.stream_ok);
    assert_eq!(report.out_lines, vec![format!("issue: {}", issue.url)]);
}

#[test]
fn record_outcome_composes_canonicalization_and_fetch() {
    let issue = Issue { url: "not a url".to_string() };
    let o = record_outcome(&issue, &ok_body(None));
    assert_eq!(
        o,
        Outcome::ResolutionError("not a url".to_string(), "invalid issue URL".to_string())
    );
    let issue = Issue { url: "https://github.com/a/b/issues/1".to_string() };
    assert_eq!(record_outcome(&issue, &ok_body(None)), Outcome::Open);
}
