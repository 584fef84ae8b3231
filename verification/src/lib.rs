//! Tracks externally referenced issues and reports when any of them has been
//! closed: records arrive as back-to-back JSON documents on a byte stream, each
//! naming one issue URL; every record is resolved against the tracker's REST
//! API and the per-record outcomes are aggregated into a single run verdict.

use vstd::prelude::*;

pub mod chars;
pub mod config;
pub mod json;
pub mod canon;
pub mod records;
pub mod run;

verus! {

/// Name of the variable that carries the encoded `Mode` to the spawned
/// build process.
pub const CONFIG_ENV: &'static str = "ISSUE_RS::Config::Mode";

/// Name of the variable that, when set, forces `Mode::Noop` regardless of
/// the configuration variable.
pub const IGNORE_ENV: &'static str = "ISSUE_RS_IGNORE";

/// The client identifier sent with every tracker request.
pub const APP_USER_AGENT: &'static str = "issue/0.1.0";

/// Run-level aggregate over all per-record outcomes: `Pass` only when every
/// resolved record turned out to still be open.
#[derive(Clone, Copy, Debug, PartialEq, Eq, Structural)]
pub enum Verdict {
    Pass,
    Fail,
}

impl Verdict {
    /// Monotonic aggregation step: once a run has failed it can never recover.
    pub fn and_failed(self, failed: bool) -> (r: Verdict)
        ensures
            r is Pass <==> (self is Pass && !failed),
    {
        if failed {
            Verdict::Fail
        } else {
            self
        }
    }
}

} // verus!
