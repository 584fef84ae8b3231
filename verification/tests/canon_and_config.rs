use issue::config::{resolve_mode, Level, Mode};
use issue::records::Issue;
use issue::canon::CanonError;

fn canon(url: &str) -> Result<String, CanonError> {
    Issue { url: url.to_string() }.canonicalize_url()
}

#[test]
fn github_issue_url_maps_to_the_api_endpoint() {
    assert_eq!(
        canon("https://github.com/acme/widget/issues/1"),
        Ok("https://api.github.com/repos/acme/widget/issues/1".to_string())
    );
}

#[test]
fn segment_order_is_preserved() {
    assert_eq!(
        canon("https://github.com/rust-lang/rust/issues/35121"),
        Ok("https://api.github.com/repos/rust-lang/rust/issues/35121".to_string())
    );
}

#[test]
fn unparseable_url_is_invalid() {
    assert_eq!(canon("not a url"), Err(CanonError::InvalidUrl));
    assert_eq!(canon(""), Err(CanonError::InvalidUrl));
    // A URL without a host cannot name a tracked issue either.
    assert_eq!(canon("data:text/plain,x"), Err(CanonError::InvalidUrl));
}

#[test]
fn unsupported_host_is_a_recoverable_error_not_a_crash() {
    assert_eq!(canon("https://example.com/acme/widget/issues/1"), Err(CanonError::UnsupportedHost));
    assert_eq!(canon("https://gitlab.example.org/a/b"), Err(CanonError::UnsupportedHost));
}

#[test]
fn canonicalizing_a_canonical_endpoint_stays_on_the_tracker() {
    // The canonical endpoint's own host still belongs to the tracker, so a
    // second canonicalization succeeds rather than aborting the run.
    let first = canon("https://github.com/acme/widget/issues/1").unwrap();
    let second = canon(&first);
    assert_eq!(
        second,
        Ok("https://api.github.com/repos/repos/acme/widget/issues/1".to_string())
    );
}

#[test]
fn mode_names_parse() {
    assert_eq!(Mode::from_str("Pipe"), Ok(Mode::Pipe));
    assert_eq!(Mode::from_str("Emit(Warn)"), Ok(Mode::Emit(Level::Warn)));
    assert_eq!(Mode::from_str("Emit(Error)"), Ok(Mode::Emit(Level::Error)));
    assert!(Mode::from_str("Noop").is_err());
    assert!(Mode::from_str("").is_err());
}

#[test]
fn mode_default_is_a_build_warning() {
    assert_eq!(Mode::default(), Mode::Emit(Level::Warn));
}

#[test]
fn mode_config_round_trips() {
    for m in [Mode::Pipe, Mode::Noop, Mode::Emit(Level::Warn), Mode::Emit(Level::Error)] {
        let encoded = m.to_config_string();
        assert_eq!(Mode::from_config_str(&encoded), Some(m));
    }
    assert_eq!(Mode::Pipe.to_config_string(), "\"Pipe\"".to_string());
    assert_eq!(Mode::Emit(Level::Warn).to_config_string(), "{\"Emit\":\"Warn\"}".to_string());
}

#[test]
fn ignore_variable_forces_noop() {
    let cfg = Mode::Pipe.to_config_string();
    assert_eq!(resolve_mode(Some(&cfg), true), Some(Mode::Noop));
    assert_eq!(resolve_mode(None, true), Some(Mode::Noop));
}

#[test]
fn configuration_variable_decides_when_not_ignored() {
    let cfg = Mode::Pipe.to_config_string();
    assert_eq!(resolve_mode(Some(&cfg), false), Some(Mode::Pipe));
    assert_eq!(resolve_mode(None, false), Some(Mode::Emit(Level::Warn)));
    let bad = "nonsense".to_string();
    assert_eq!(resolve_mode(Some(&bad), false), None);
}
