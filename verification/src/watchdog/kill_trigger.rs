//! The emergency stop: halt, flatten, and exit where flattening fails.

use crate::text::join2;
use crate::trading::risk::{RiskManager, RiskView};
use vstd::prelude::*;
use vstd::string::*;

verus! {

/// What became of the script that cancels orders and sells positions.
#[derive(Clone, Copy, Debug, PartialEq, Eq, Structural)]
pub enum ScriptOutcome {
    NotStarted,
    Succeeded,
    ExitedWithError,
    WaitFailed,
    TimedOut,
}

/// Production kill trigger that hands over to the flatten script.
#[derive(Debug)]
pub struct KillTrigger {
    pub kill_flatten_script: String,
}

/// What the emergency stop begins with.
#[derive(Debug)]
pub struct KillStart {
    /// An entry for the error log.
    pub log: String,
    /// The reason under which all trading is halted.
    pub halt_reason: String,
}

impl KillTrigger {
    pub fn new(kill_flatten_script: String) -> (r: KillTrigger)
        ensures
            r.kill_flatten_script == kill_flatten_script,
    {
        KillTrigger { kill_flatten_script }
    }

    /// Begin the emergency kill and flatten sequence: all trading is halted before the script runs.
    pub fn execute_kill_flatten(&self, risk: &mut RiskManager, reason: &str) -> (r: KillStart)
        requires
            old(risk).well_formed(),
        ensures
            final(risk).well_formed(),
            final(risk).limits() == old(risk).limits(),
            final(risk)@ == (RiskView { global_halt: true, ..old(risk)@ }),
            r.log@ == "Watchdog kill+flatten triggered: "@ + reason@,
            r.halt_reason@ == "watchdog: "@ + reason@,
    {
        let halt_reason = join2("watchdog: ", reason);
        risk.global_halt(halt_reason.as_str());
        KillStart { log: join2("Watchdog kill+flatten triggered: ", reason), halt_reason }
    }

    /// What the error log says before the process is forced to exit: that happens unless the script
    /// succeeded.
    pub fn fallback_exit(&self, outcome: ScriptOutcome, reason: &str) -> (r: Option<String>)
        ensures
            match r {
                Some(log) => outcome != ScriptOutcome::Succeeded && log@
                    == "Watchdog fallback exit — kill_flatten.py failed: "@ + reason@,
                None => outcome == ScriptOutcome::Succeeded,
            },
    {
        match outcome {
            ScriptOutcome::Succeeded => None,
            _ => Some(join2("Watchdog fallback exit — kill_flatten.py failed: ", reason)),
        }
    }
}

} // verus!
