//! How the watchdog moves from one level to the next.

use crate::watchdog::health::{VerdictView, WatchdogConfig};
use crate::watchdog::manager::{checked, combined, EscalationLevel, WatchdogView};
use vstd::prelude::*;

verus! {

/// So many seconds have passed since then.
pub open spec fn passed(since: int, secs: int, now: int) -> bool {
    secs == 0 || now - since >= secs * 1_000_000_000
}

/// Something critical makes a kill pending from that check on, for its reason. Once the confirmation
/// delay has passed, something critical again brings the kill, for the reason of the first, where
/// actions are enforced; before that it changes nothing.
pub proof fn law_critical_checks_kill_after_the_delay(
    v: WatchdogView,
    config: WatchdogConfig,
    ws: VerdictView,
    status: VerdictView,
    now: int,
    since: int,
)
    requires
        ws is Critical || status is Critical,
        v.escalation != EscalationLevel::Killed,
        v.escalation == EscalationLevel::KillPending ==> v.kill_pending_since == Some(since),
    ensures
        ({
            let (after, actions) = checked(v, config, ws, status, now);
            let pending = v.escalation == EscalationLevel::KillPending;
            let kills = pending && config.enforce_actions && passed(
                since,
                config.kill_confirmation_delay_secs as int,
                now,
            );
            &&& !pending ==> after.escalation == EscalationLevel::KillPending
                && after.kill_pending_since == Some(now) && after.kill_reason == combined(
                ws,
                status,
            ).2 && actions.kill is None && (actions.halt is Some == config.enforce_actions)
            &&& kills ==> after.escalation == EscalationLevel::Killed && actions.kill is Some
                && (actions.kill->0).0 == v.kill_reason
            &&& pending && !kills ==> after == v && actions.kill is None && actions.halt is None
        }),
{
    assert(crate::watchdog::health::secs_between(since, now)
        >= config.kill_confirmation_delay_secs <==> passed(
        since,
        config.kill_confirmation_delay_secs as int,
        now,
    ));
}

/// Something degraded, and nothing critical, is warned of. A warning that has lasted for the timeout
/// makes a kill pending; a pending kill goes back to a warning. Neither kills.
pub proof fn law_lasting_warnings_escalate(
    v: WatchdogView,
    config: WatchdogConfig,
    ws: VerdictView,
    status: VerdictView,
    now: int,
    since: int,
)
    requires
        !(ws is Critical) && !(status is Critical),
        ws is Degraded || status is Degraded,
        v.escalation == EscalationLevel::Warning ==> v.warning_started_at == Some(since),
        v.escalation != EscalationLevel::Killed,
    ensures
        ({
            let (after, actions) = checked(v, config, ws, status, now);
            let lasted = v.escalation == EscalationLevel::Warning && passed(
                since,
                config.degraded_timeout_secs as int,
                now,
            );
            &&& actions.kill is None
            &&& v.escalation != EscalationLevel::Warning ==> after.escalation
                == EscalationLevel::Warning && after.warning_started_at == Some(now)
                && actions.halt is None
            &&& lasted ==> after.escalation == EscalationLevel::KillPending
                && after.kill_pending_since == Some(now) && (actions.halt is Some
                == config.enforce_actions)
            &&& v.escalation == EscalationLevel::Warning && !lasted ==> after == v
                && actions.halt is None
        }),
{
    assert(crate::watchdog::health::secs_between(since, now) >= config.degraded_timeout_secs
        <==> passed(since, config.degraded_timeout_secs as int, now));
}

/// What is critical on either side is critical taken together, and what is degraded on either is
/// degraded; the reasons given are those of the worse side, or of both.
pub proof fn law_the_worse_verdict_counts(w: Seq<char>, s: Seq<char>, other: VerdictView)
    ensures
        combined(VerdictView::Critical(w), other).0 && combined(other, VerdictView::Critical(s)).0,
        combined(VerdictView::Degraded(w), other).1 && combined(other, VerdictView::Degraded(s)).1,
        combined(VerdictView::Healthy, VerdictView::Healthy) == (false, false, Seq::<char>::empty()),
        combined(VerdictView::Critical(w), VerdictView::Critical(s)).2 == "WS: "@ + w
            + " | Status: "@ + s,
        combined(VerdictView::Degraded(w), VerdictView::Degraded(s)).2 == "WS: "@ + w
            + " | Status: "@ + s,
        !(other is Critical) ==> combined(VerdictView::Critical(w), other).2 == "WS: "@ + w,
        !(other is Critical) ==> combined(other, VerdictView::Critical(s)).2 == "Status: "@ + s,
        other is Healthy ==> combined(VerdictView::Degraded(w), other).2 == "WS: "@ + w,
        other is Healthy ==> combined(other, VerdictView::Degraded(s)).2 == "Status: "@ + s,
{
}

} // verus!
