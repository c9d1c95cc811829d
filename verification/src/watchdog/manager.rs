//! The escalation that turns verdicts into halts and kills.

use crate::text::{count_chars, count_text, join2, opt_text};
use crate::watchdog::health::{
    elapsed_secs, opt_time, secs_between, HealthVerdict, VerdictView, WatchdogConfig,
};
use crate::watchdog::status_poller::StatusVerdict;
use vstd::prelude::*;
use vstd::string::*;

pub mod laws;

verus! {

/// Escalation state for the watchdog.
#[derive(Clone, Copy, Debug, PartialEq, Eq, Structural)]
pub enum EscalationLevel {
    Normal,
    Warning,
    KillPending,
    Killed,
}

/// What is done when a kill is confirmed.
pub trait KillAction {
    fn execute(&self, reason: &str) -> Result<(), String>;
}

/// Severity under which a change of level is logged.
#[derive(Clone, Copy, Debug, PartialEq, Eq, Structural)]
pub enum LogLevel {
    High,
    Warn,
}

/// What a check of the watchdog calls for.
#[derive(Debug)]
pub struct WatchdogActions {
    /// An entry for the error log.
    pub log: Option<(LogLevel, String)>,
    /// A global halt, for this reason.
    pub halt: Option<String>,
    /// The kill, for this reason, after so many seconds of waiting.
    pub kill: Option<(String, u64)>,
    /// Halt or kill would have been called for, but the watchdog only observes.
    pub kill_actions_suppressed: bool,
}

pub struct ActionsView {
    pub log: Option<(LogLevel, Seq<char>)>,
    pub halt: Option<Seq<char>>,
    pub kill: Option<(Seq<char>, int)>,
    pub suppressed: bool,
}

impl View for WatchdogActions {
    type V = ActionsView;

    open spec fn view(&self) -> ActionsView {
        ActionsView {
            log: match self.log {
                Some((level, text)) => Some((level, text@)),
                None => None,
            },
            halt: opt_text(self.halt),
            kill: match self.kill {
                Some((reason, elapsed)) => Some((reason@, elapsed as int)),
                None => None,
            },
            suppressed: self.kill_actions_suppressed,
        }
    }
}

/// The main watchdog orchestrator: where the escalation stands, and since when.
#[derive(Debug)]
pub struct WatchdogManager {
    pub escalation: EscalationLevel,
    pub warning_started_at: Option<u64>,
    pub kill_pending_since: Option<u64>,
    pub kill_reason: String,
}

pub struct WatchdogView {
    pub escalation: EscalationLevel,
    pub warning_started_at: Option<int>,
    pub kill_pending_since: Option<int>,
    pub kill_reason: Seq<char>,
}

impl View for WatchdogManager {
    type V = WatchdogView;

    open spec fn view(&self) -> WatchdogView {
        WatchdogView {
            escalation: self.escalation,
            warning_started_at: opt_time(self.warning_started_at),
            kill_pending_since: opt_time(self.kill_pending_since),
            kill_reason: self.kill_reason@,
        }
    }
}

/// Both verdicts taken together: critical, degraded, and why.
pub open spec fn combined(ws: VerdictView, status: VerdictView) -> (bool, bool, Seq<char>) {
    (
        ws is Critical || status is Critical,
        ws is Degraded || status is Degraded,
        match (ws, status) {
            (VerdictView::Critical(w), VerdictView::Critical(s)) => "WS: "@ + w + " | Status: "@ + s,
            (VerdictView::Critical(w), _) => "WS: "@ + w,
            (_, VerdictView::Critical(s)) => "Status: "@ + s,
            (VerdictView::Degraded(w), VerdictView::Degraded(s)) => "WS: "@ + w + " | Status: "@ + s,
            (VerdictView::Degraded(w), _) => "WS: "@ + w,
            (_, VerdictView::Degraded(s)) => "Status: "@ + s,
            _ => Seq::empty(),
        },
    )
}

pub open spec fn no_actions(suppressed: bool) -> ActionsView {
    ActionsView { log: None, halt: None, kill: None, suppressed }
}

/// What a check does when something is critical: the kill is pending first, and confirmed only
/// after the delay. Without enforcement nothing is halted or killed.
pub open spec fn critical_check(
    v: WatchdogView,
    config: WatchdogConfig,
    reason: Seq<char>,
    now: int,
) -> (WatchdogView, ActionsView) {
    let enforce = config.enforce_actions;
    if v.escalation != EscalationLevel::KillPending {
        (
            WatchdogView {
                escalation: EscalationLevel::KillPending,
                kill_pending_since: Some(now),
                kill_reason: reason,
                ..v
            },
            ActionsView {
                log: Some((LogLevel::High, "Watchdog critical: "@ + reason)),
                halt: if enforce {
                    Some("watchdog critical: "@ + reason)
                } else {
                    None
                },
                kill: None,
                suppressed: !enforce,
            },
        )
    } else {
        match v.kill_pending_since {
            Some(since) => if secs_between(since, now) >= config.kill_confirmation_delay_secs
                && enforce {
                (
                    WatchdogView { escalation: EscalationLevel::Killed, ..v },
                    ActionsView {
                        log: None,
                        halt: None,
                        kill: Some((v.kill_reason, secs_between(since, now))),
                        suppressed: false,
                    },
                )
            } else {
                (v, no_actions(!enforce))
            },
            None => (v, no_actions(!enforce)),
        }
    }
}

/// What a check does when something is degraded, and nothing critical: a warning first, and a
/// pending kill once it lasts too long; a pending kill goes back to a warning.
pub open spec fn degraded_check(
    v: WatchdogView,
    config: WatchdogConfig,
    reason: Seq<char>,
    now: int,
) -> (WatchdogView, ActionsView) {
    let enforce = config.enforce_actions;
    match v.escalation {
        EscalationLevel::Normal => (
            WatchdogView {
                escalation: EscalationLevel::Warning,
                warning_started_at: Some(now),
                ..v
            },
            ActionsView {
                log: Some((LogLevel::Warn, "Watchdog degraded: "@ + reason)),
                ..no_actions(false)
            },
        ),
        EscalationLevel::Warning => match v.warning_started_at {
            Some(since) => if secs_between(since, now) >= config.degraded_timeout_secs {
                (
                    WatchdogView {
                        escalation: EscalationLevel::KillPending,
                        kill_pending_since: Some(now),
                        kill_reason: "Sustained degradation ("@ + count_chars(
                            secs_between(since, now) as nat,
                        ) + "s): "@ + reason,
                        ..v
                    },
                    ActionsView {
                        log: None,
                        halt: if enforce {
                            Some("watchdog degraded timeout: "@ + reason)
                        } else {
                            None
                        },
                        kill: None,
                        suppressed: !enforce,
                    },
                )
            } else {
                (v, no_actions(false))
            },
            None => (v, no_actions(false)),
        },
        _ => (
            WatchdogView {
                escalation: EscalationLevel::Warning,
                warning_started_at: Some(now),
                kill_pending_since: None,
                kill_reason: Seq::empty(),
            },
            no_actions(false),
        ),
    }
}

/// One check of the watchdog.
pub open spec fn checked(
    v: WatchdogView,
    config: WatchdogConfig,
    ws: VerdictView,
    status: VerdictView,
    now: int,
) -> (WatchdogView, ActionsView) {
    let (critical, degraded, reason) = combined(ws, status);
    if v.escalation == EscalationLevel::Killed {
        (v, no_actions(!config.enforce_actions))
    } else if critical {
        critical_check(v, config, reason, now)
    } else if degraded {
        degraded_check(v, config, reason, now)
    } else if v.escalation != EscalationLevel::Normal {
        (
            WatchdogView {
                escalation: EscalationLevel::Normal,
                warning_started_at: None,
                kill_pending_since: None,
                kill_reason: Seq::empty(),
            },
            no_actions(false),
        )
    } else {
        (v, no_actions(false))
    }
}

impl WatchdogManager {
    pub fn new() -> (r: WatchdogManager)
        ensures
            r@ == (WatchdogView {
                escalation: EscalationLevel::Normal,
                warning_started_at: None,
                kill_pending_since: None,
                kill_reason: Seq::empty(),
            }),
    {
        WatchdogManager {
            escalation: EscalationLevel::Normal,
            warning_started_at: None,
            kill_pending_since: None,
            kill_reason: String::new(),
        }
    }

    /// Combine WS and status verdicts into a single assessment.
    pub fn combine_verdicts(ws: &HealthVerdict, status: &StatusVerdict) -> (r: (
        bool,
        bool,
        String,
    ))
        ensures
            (r.0, r.1, r.2@) == combined(ws@, status@),
    {
        let (ws_critical, ws_degraded) = match ws {
            HealthVerdict::Healthy => (false, false),
            HealthVerdict::Degraded { .. } => (false, true),
            HealthVerdict::Critical { .. } => (true, false),
        };
        let (status_critical, status_degraded) = match status {
            StatusVerdict::Healthy => (false, false),
            StatusVerdict::Degraded { .. } => (false, true),
            StatusVerdict::Critical { .. } => (true, false),
        };
        let reason = match (ws, status) {
            (HealthVerdict::Critical { reason }, StatusVerdict::Critical { reason: sr }) => {
                let mut text = join2("WS: ", reason.as_str());
                text.append(" | Status: ");
                text.append(sr.as_str());
                text
            },
            (HealthVerdict::Critical { reason }, _) => join2("WS: ", reason.as_str()),
            (_, StatusVerdict::Critical { reason }) => join2("Status: ", reason.as_str()),
            (HealthVerdict::Degraded { reason }, StatusVerdict::Degraded { reason: sr }) => {
                let mut text = join2("WS: ", reason.as_str());
                text.append(" | Status: ");
                text.append(sr.as_str());
                text
            },
            (HealthVerdict::Degraded { reason }, _) => join2("WS: ", reason.as_str()),
            (_, StatusVerdict::Degraded { reason }) => join2("Status: ", reason.as_str()),
            _ => String::new(),
        };
        (ws_critical || status_critical, ws_degraded || status_degraded, reason)
    }

    /// One check: what the verdicts at `now` do to the escalation, and what they call for.
    pub fn run(
        &mut self,
        config: &WatchdogConfig,
        ws_verdict: &HealthVerdict,
        status_verdict: &StatusVerdict,
        now: u64,
    ) -> (r: WatchdogActions)
        ensures
            (final(self)@, r@) == checked(
                old(self)@,
                *config,
                ws_verdict@,
                status_verdict@,
                now as int,
            ),
    {
        let (is_critical, is_degraded, reason) = WatchdogManager::combine_verdicts(
            ws_verdict,
            status_verdict,
        );
        let enforce = config.enforce_actions;
        let mut actions = WatchdogActions {
            log: None,
            halt: None,
            kill: None,
            kill_actions_suppressed: false,
        };
        if self.escalation == EscalationLevel::Killed {
            actions.kill_actions_suppressed = !enforce;
            return actions;
        }
        if is_critical {
            actions.kill_actions_suppressed = !enforce;
            if self.escalation != EscalationLevel::KillPending {
                actions.log = Some((
                    LogLevel::High,
                    join2("Watchdog critical: ", reason.as_str()),
                ));
                if enforce {
                    actions.halt = Some(join2("watchdog critical: ", reason.as_str()));
                }
                self.escalation = EscalationLevel::KillPending;
                self.kill_pending_since = Some(now);
                self.kill_reason = reason;
            } else {
                match self.kill_pending_since {
                    Some(since) => {
                        let elapsed: u64 = elapsed_secs(since, now);
                        if elapsed >= config.kill_confirmation_delay_secs && enforce {
                            actions.kill = Some((self.kill_reason.clone(), elapsed));
                            self.escalation = EscalationLevel::Killed;
                        }
                    },
                    None => {},
                }
            }
            return actions;
        }
        if is_degraded {
            match self.escalation {
                EscalationLevel::Normal => {
                    actions.log = Some((
                        LogLevel::Warn,
                        join2("Watchdog degraded: ", reason.as_str()),
                    ));
                    self.escalation = EscalationLevel::Warning;
                    self.warning_started_at = Some(now);
                },
                EscalationLevel::Warning => {
                    match self.warning_started_at {
                        Some(since) => {
                            let elapsed: u64 = elapsed_secs(since, now);
                            if elapsed >= config.degraded_timeout_secs {
                                let mut kill_reason = "Sustained degradation (".to_owned();
                                kill_reason.append(count_text(elapsed).as_str());
                                kill_reason.append("s): ");
                                kill_reason.append(reason.as_str());
                                self.escalation = EscalationLevel::KillPending;
                                self.kill_pending_since = Some(now);
                                self.kill_reason = kill_reason;
                                actions.kill_actions_suppressed = !enforce;
                                if enforce {
                                    actions.halt = Some(
                                        join2("watchdog degraded timeout: ", reason.as_str()),
                                    );
                                }
                            }
                        },
                        None => {},
                    }
                },
                _ => {
                    self.escalation = EscalationLevel::Warning;
                    self.warning_started_at = Some(now);
                    self.kill_pending_since = None;
                    self.kill_reason = String::new();
                },
            }
            return actions;
        }
        if self.escalation != EscalationLevel::Normal {
            self.escalation = EscalationLevel::Normal;
            self.warning_started_at = None;
            self.kill_pending_since = None;
            self.kill_reason = String::new();
        }
        actions
    }

    pub fn verdict_name(verdict: &HealthVerdict) -> (r: &'static str)
        ensures
            r@ == verdict_label(verdict@),
    {
        match verdict {
            HealthVerdict::Healthy => "healthy",
            HealthVerdict::Degraded { .. } => "degraded",
            HealthVerdict::Critical { .. } => "critical",
        }
    }

    pub fn verdict_reason(verdict: &HealthVerdict) -> (r: Option<&str>)
        ensures
            match r {
                Some(reason) => verdict_why(verdict@) == Some(reason@),
                None => verdict_why(verdict@) is None,
            },
    {
        match verdict {
            HealthVerdict::Healthy => None,
            HealthVerdict::Degraded { reason } => Some(reason.as_str()),
            HealthVerdict::Critical { reason } => Some(reason.as_str()),
        }
    }

    pub fn status_verdict_name(verdict: &StatusVerdict) -> (r: &'static str)
        ensures
            r@ == verdict_label(verdict@),
    {
        match verdict {
            StatusVerdict::Healthy => "healthy",
            StatusVerdict::Degraded { .. } => "degraded",
            StatusVerdict::Critical { .. } => "critical",
        }
    }

    pub fn status_verdict_reason(verdict: &StatusVerdict) -> (r: Option<&str>)
        ensures
            match r {
                Some(reason) => verdict_why(verdict@) == Some(reason@),
                None => verdict_why(verdict@) is None,
            },
    {
        match verdict {
            StatusVerdict::Healthy => None,
            StatusVerdict::Degraded { reason } => Some(reason.as_str()),
            StatusVerdict::Critical { reason } => Some(reason.as_str()),
        }
    }

    pub fn escalation_name(level: EscalationLevel) -> (r: &'static str)
        ensures
            r@ == match level {
                EscalationLevel::Normal => "normal"@,
                EscalationLevel::Warning => "warning"@,
                EscalationLevel::KillPending => "kill_pending"@,
                EscalationLevel::Killed => "killed"@,
            },
    {
        match level {
            EscalationLevel::Normal => "normal",
            EscalationLevel::Warning => "warning",
            EscalationLevel::KillPending => "kill_pending",
            EscalationLevel::Killed => "killed",
        }
    }
}

pub open spec fn verdict_label(v: VerdictView) -> Seq<char> {
    match v {
        VerdictView::Healthy => "healthy"@,
        VerdictView::Degraded(_) => "degraded"@,
        VerdictView::Critical(_) => "critical"@,
    }
}

pub open spec fn verdict_why(v: VerdictView) -> Option<Seq<char>> {
    match v {
        VerdictView::Healthy => None,
        VerdictView::Degraded(reason) => Some(reason),
        VerdictView::Critical(reason) => Some(reason),
    }
}

/// Whatever the verdicts, a watchdog that only observes halts and kills nothing, and says of every
/// critical check, and as long as a kill is pending, that it holds back.
pub proof fn law_observe_only_never_acts(
    v: WatchdogView,
    config: WatchdogConfig,
    ws: VerdictView,
    status: VerdictView,
    now: int,
)
    requires
        !config.enforce_actions,
    ensures
        checked(v, config, ws, status, now).1.halt is None,
        checked(v, config, ws, status, now).1.kill is None,
        v.escalation != EscalationLevel::Killed ==> checked(v, config, ws, status, now).0.escalation
            != EscalationLevel::Killed,
        ws is Critical || status is Critical ==> checked(v, config, ws, status, now).1.suppressed,
        checked(v, config, ws, status, now).0.escalation == EscalationLevel::KillPending ==> checked(
            v,
            config,
            ws,
            status,
            now,
        ).1.suppressed,
{
}

/// A kill comes only while something is critical, and only once a kill has been pending for the
/// confirmation delay.
pub proof fn law_kill_needs_confirmation(
    v: WatchdogView,
    config: WatchdogConfig,
    ws: VerdictView,
    status: VerdictView,
    now: int,
)
    requires
        checked(v, config, ws, status, now).1.kill is Some,
    ensures
        config.enforce_actions,
        ws is Critical || status is Critical,
        v.escalation == EscalationLevel::KillPending,
        v.kill_pending_since matches Some(since) && secs_between(since, now)
            >= config.kill_confirmation_delay_secs,
        checked(v, config, ws, status, now).0.escalation == EscalationLevel::Killed,
{
}

/// After the kill nothing happens any more.
pub proof fn law_killed_is_final(
    v: WatchdogView,
    config: WatchdogConfig,
    ws: VerdictView,
    status: VerdictView,
    now: int,
)
    requires
        v.escalation == EscalationLevel::Killed,
    ensures
        checked(v, config, ws, status, now).0 == v,
        checked(v, config, ws, status, now).1.halt is None,
        checked(v, config, ws, status, now).1.kill is None,
{
}

/// The verdicts and the time of a check.
pub struct Tick {
    pub ws: VerdictView,
    pub status: VerdictView,
    pub now: int,
}

/// The watchdog after the first `n` checks.
pub open spec fn after_checks(
    v: WatchdogView,
    config: WatchdogConfig,
    ticks: Seq<Tick>,
    n: nat,
) -> WatchdogView
    decreases n,
{
    if n == 0 {
        v
    } else {
        let t = ticks[n - 1];
        checked(after_checks(v, config, ticks, (n - 1) as nat), config, t.ws, t.status, t.now).0
    }
}

/// What check number `i` (from zero) calls for.
pub open spec fn called_for(
    v: WatchdogView,
    config: WatchdogConfig,
    ticks: Seq<Tick>,
    i: nat,
) -> ActionsView {
    let t = ticks[i as int];
    checked(after_checks(v, config, ticks, i), config, t.ws, t.status, t.now).1
}

/// Over a whole run there is at most one kill: from then on the watchdog is killed, and calls for
/// neither a halt nor a kill.
pub proof fn law_one_kill_in_a_run(
    v: WatchdogView,
    config: WatchdogConfig,
    ticks: Seq<Tick>,
    i: nat,
    j: nat,
)
    requires
        i < j < ticks.len(),
        called_for(v, config, ticks, i).kill is Some,
    ensures
        after_checks(v, config, ticks, j).escalation == EscalationLevel::Killed,
        after_checks(v, config, ticks, j) == after_checks(v, config, ticks, i + 1),
        called_for(v, config, ticks, j).kill is None,
        called_for(v, config, ticks, j).halt is None,
    decreases j,
{
    if i + 1 < j {
        law_one_kill_in_a_run(v, config, ticks, i, (j - 1) as nat);
    }
}

/// A run that begins without a kill ends killed only if some check called for the kill, and a kill
/// is called for only by an enforcing watchdog, in a critical check, while a kill was pending for
/// the confirmation delay.
pub proof fn law_killed_runs_were_confirmed(
    v: WatchdogView,
    config: WatchdogConfig,
    ticks: Seq<Tick>,
    n: nat,
)
    requires
        n <= ticks.len(),
        v.escalation != EscalationLevel::Killed,
        after_checks(v, config, ticks, n).escalation == EscalationLevel::Killed,
    ensures
        config.enforce_actions,
        exists|i: nat|
            i < n && (#[trigger] called_for(v, config, ticks, i)).kill is Some && (
            ticks[i as int].ws is Critical || ticks[i as int].status is Critical) && (after_checks(
                v,
                config,
                ticks,
                i,
            ).kill_pending_since matches Some(since) && secs_between(since, ticks[i as int].now)
                >= config.kill_confirmation_delay_secs),
    decreases n,
{
    if n > 0 {
        let m = (n - 1) as nat;
        if after_checks(v, config, ticks, m).escalation == EscalationLevel::Killed {
            law_killed_runs_were_confirmed(v, config, ticks, m);
        } else {
            assert(called_for(v, config, ticks, m).kill is Some);
        }
    }
}

/// Whenever an enforcing watchdog moves to a pending kill it halts all trading.
pub proof fn law_pending_kill_halts(
    v: WatchdogView,
    config: WatchdogConfig,
    ws: VerdictView,
    status: VerdictView,
    now: int,
)
    requires
        config.enforce_actions,
        v.escalation != EscalationLevel::KillPending,
        checked(v, config, ws, status, now).0.escalation == EscalationLevel::KillPending,
    ensures
        checked(v, config, ws, status, now).1.halt is Some,
        checked(v, config, ws, status, now).0.kill_pending_since == Some(now),
{
}

/// Healthy verdicts bring the escalation back to normal.
pub proof fn law_health_resets(
    v: WatchdogView,
    config: WatchdogConfig,
    ws: VerdictView,
    status: VerdictView,
    now: int,
)
    requires
        v.escalation != EscalationLevel::Killed,
        ws is Healthy && status is Healthy,
    ensures
        checked(v, config, ws, status, now).0.escalation == EscalationLevel::Normal,
{
}

} // verus!
