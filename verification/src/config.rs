//! Operating mode of the build-time annotation side: emit records over a pipe,
//! check synchronously during the build, or do nothing. The mode travels to
//! the spawned build process through one configuration variable holding a
//! small JSON encoding, so the encoding and its decoding live here, verified.

use vstd::prelude::*;
use crate::chars::str_eq_chars;

verus! {

/// Severity used by the in-build checking mode.
#[derive(Clone, Copy, Debug, PartialEq, Eq, Structural)]
pub enum Level {
    Warn,
    Error,
}

/// What the annotation side of the build does with each tracked issue.
#[derive(Clone, Copy, Debug, PartialEq, Eq, Structural)]
pub enum Mode {
    /// Emit one record per tracked issue on standard output, for this
    /// pipeline to consume.
    Pipe,
    /// Check each issue synchronously during the build and emit a build
    /// diagnostic at the given severity.
    Emit(Level),
    /// Parse the attribute and do nothing else.
    Noop,
}

/// The JSON document that configures `m` in the child process's environment.
pub open spec fn spec_mode_config(m: Mode) -> Seq<char> {
    match m {
        Mode::Pipe => "\"Pipe\""@,
        Mode::Emit(Level::Warn) => "{\"Emit\":\"Warn\"}"@,
        Mode::Emit(Level::Error) => "{\"Emit\":\"Error\"}"@,
        Mode::Noop => "\"Noop\""@,
    }
}

/// The mode a configuration string denotes, if it is one of the accepted
/// encodings.
pub open spec fn spec_mode_from_config(s: Seq<char>) -> Option<Mode> {
    if s == "\"Pipe\""@ {
        Some(Mode::Pipe)
    } else if s == "{\"Emit\":\"Warn\"}"@ {
        Some(Mode::Emit(Level::Warn))
    } else if s == "{\"Emit\":\"Error\"}"@ {
        Some(Mode::Emit(Level::Error))
    } else if s == "\"Noop\""@ {
        Some(Mode::Noop)
    } else {
        None
    }
}

/// The mode a short human-facing name denotes.
pub open spec fn spec_mode_from_name(s: Seq<char>) -> Option<Mode> {
    if s == "Pipe"@ {
        Some(Mode::Pipe)
    } else if s == "Emit(Warn)"@ {
        Some(Mode::Emit(Level::Warn))
    } else if s == "Emit(Error)"@ {
        Some(Mode::Emit(Level::Error))
    } else {
        None
    }
}

impl Mode {
    /// Encode this mode as the JSON document placed in the configuration
    /// variable of the spawned build process.
    pub fn to_config_string(&self) -> (r: String)
        ensures
            r@ == spec_mode_config(*self),
    {
        match self {
            Mode::Pipe => String::from_str("\"Pipe\""),
            Mode::Emit(Level::Warn) => String::from_str("{\"Emit\":\"Warn\"}"),
            Mode::Emit(Level::Error) => String::from_str("{\"Emit\":\"Error\"}"),
            Mode::Noop => String::from_str("\"Noop\""),
        }
    }

    /// Decode a configuration variable's value back into a mode.
    pub fn from_config_str(s: &str) -> (r: Option<Mode>)
        ensures
            r == spec_mode_from_config(s@),
    {
        if str_eq_chars(s, "\"Pipe\"") {
            Some(Mode::Pipe)
        } else if str_eq_chars(s, "{\"Emit\":\"Warn\"}") {
            Some(Mode::Emit(Level::Warn))
        } else if str_eq_chars(s, "{\"Emit\":\"Error\"}") {
            Some(Mode::Emit(Level::Error))
        } else if str_eq_chars(s, "\"Noop\"") {
            Some(Mode::Noop)
        } else {
            None
        }
    }

    /// Parse a short human-facing mode name.
    pub fn from_str(s: &str) -> (r: Result<Mode, &'static str>)
        ensures
            spec_mode_from_name(s@) matches Some(m) ==> r == Result::<Mode, &'static str>::Ok(m),
            spec_mode_from_name(s@) is None ==> r is Err,
    {
        if str_eq_chars(s, "Pipe") {
            Ok(Mode::Pipe)
        } else if str_eq_chars(s, "Emit(Warn)") {
            Ok(Mode::Emit(Level::Warn))
        } else if str_eq_chars(s, "Emit(Error)") {
            Ok(Mode::Emit(Level::Error))
        } else {
            Err("unrecognized Mode")
        }
    }
}

impl Default for Mode {
    /// Absent any configuration the build checks synchronously and warns.
    fn default() -> (r: Mode)
        ensures
            r == Mode::Emit(Level::Warn),
    {
        Mode::Emit(Level::Warn)
    }
}

/// The mode a run operates in, given the two configuration inputs read at
/// process start: the value of the configuration variable, if set, and
/// whether the ignore variable is set. The ignore variable forces `Noop`
/// regardless of the configuration variable; otherwise the configuration
/// variable's JSON encoding decides, and a set but undecodable value is
/// reported as `None` rather than accepted or ignored.
pub fn resolve_mode(config: Option<&String>, ignore: bool) -> (r: Option<Mode>)
    ensures
        ignore ==> r == Some(Mode::Noop),
        !ignore && config is None ==> r == Some(Mode::Emit(Level::Warn)),
        !ignore ==> (config matches Some(s) ==> r == spec_mode_from_config(s@)),
{
    if ignore {
        Some(Mode::Noop)
    } else {
        match config {
            None => Some(Mode::Emit(Level::Warn)),
            Some(s) => Mode::from_config_str(s.as_str()),
        }
    }
}

/// Encoding then decoding a mode's configuration value gives back the same
/// mode: the configuration variable faithfully carries every mode across the
/// process boundary.
pub proof fn lemma_mode_config_round_trip(m: Mode)
    ensures
        spec_mode_from_config(spec_mode_config(m)) == Some(m),
{
    reveal_strlit("\"Pipe\"");
    reveal_strlit("{\"Emit\":\"Warn\"}");
    reveal_strlit("{\"Emit\":\"Error\"}");
    reveal_strlit("\"Noop\"");
    assert("\"Pipe\""@.len() == 6);
    assert("{\"Emit\":\"Warn\"}"@.len() == 15);
    assert("{\"Emit\":\"Error\"}"@.len() == 16);
    assert("\"Noop\""@.len() == 6);
    assert("\"Pipe\""@[1] == 'P');
    assert("\"Noop\""@[1] == 'N');
}

} // verus!
