//! When a probe passes, and what reported positions hold.

use crate::decimal::Decimal;
use crate::runtime::hedge_live_probe::preflight::LiveProbePlan;
use crate::runtime::hedge_live_probe::trigger::{
    ScopedLiveRunnerReport, TriggerAcquisitionSummary,
};
use crate::runtime::hedge_live_probe::verdict::{
    critical_types, event_types, first_missing, holding_in, is_magnitude, meta_failures,
    standard_mismatches, EventEnvelope, ObservedHedgeOutcome, Priority, ProbeRawPosition,
};
use crate::runtime::hedge_live_probe::{LiveProbeEventSummary, LiveProbeExpected, LiveProbeSafety};
use crate::text::{opt_text, texts};
use vstd::prelude::*;

verus! {

/// A value keeps to its bound, if it has one; where it is missing it does so only if that counts as
/// zero.
pub open spec fn keeps_to(max: Option<Decimal>, actual: Option<Decimal>, missing_is_zero: bool) -> bool {
    match max {
        Some(max) => match actual {
            Some(value) => value@ <= max@,
            None => missing_is_zero && max@ >= 0,
        },
        None => true,
    }
}

/// The exposure is no further from zero than that, either way.
pub open spec fn exposed_within(exposure: Option<Decimal>, max: int) -> bool {
    exposure matches Some(e) ==> -max <= e@ <= max
}

/// Nothing speaks against a probe exactly where all is as expected: the outcome, the side, what became
/// of each part, every bound and limit, the trigger's trade and size, and the critical events in
/// order.
pub proof fn law_probes_pass_where_all_is_as_expected(
    expected: LiveProbeExpected,
    safety: LiveProbeSafety,
    plan: LiveProbePlan,
    observed: ObservedHedgeOutcome,
    trigger: TriggerAcquisitionSummary,
    critical: Seq<LiveProbeEventSummary>,
    exposure: Option<Decimal>,
    safety_exposure: Option<Decimal>,
)
    requires
        is_magnitude(exposure, observed.post_sync_net_exposure),
        is_magnitude(safety_exposure, observed.post_sync_net_exposure),
    ensures
        ({
            let code = opt_text(trigger.failure_code);
            (standard_mismatches(
                expected,
                safety,
                plan,
                observed,
                trigger,
                critical,
                exposure,
                safety_exposure,
            ).len() == 0) == {
                &&& expected.success == (opt_text(observed.result_status) == Some("success"@))
                &&& expected.halted == observed.halted
                &&& expected.hedge_side == observed.hedge_side
                &&& opt_text(expected.result_status) == opt_text(observed.result_status)
                &&& opt_text(expected.hedge_leg_status) == opt_text(observed.hedge_leg_status)
                &&& opt_text(expected.sellback_leg_status) == opt_text(observed.sellback_leg_status)
                &&& keeps_to(
                    expected.max_planned_hedge_shares,
                    observed.planned_hedge_shares,
                    false,
                )
                &&& keeps_to(
                    expected.max_planned_sellback_shares,
                    observed.planned_sellback_shares,
                    true,
                )
                &&& expected.max_post_sync_net_exposure matches Some(max) ==> (
                observed.post_sync_net_exposure is Some && exposed_within(
                    observed.post_sync_net_exposure,
                    max@,
                ))
                &&& trigger.ws_trade_observed
                &&& first_missing(
                    texts(expected.critical_event_types@),
                    event_types(critical),
                ) is None
                &&& plan.planned_hedge_shares@ <= safety.max_planned_hedge_shares@
                &&& plan.planned_sellback_shares@ <= safety.max_planned_sellback_shares@
                &&& plan.planned_hedge_notional_usdc@ <= safety.max_planned_hedge_notional_usdc@
                &&& exposed_within(
                    observed.post_sync_net_exposure,
                    safety.max_post_sync_net_exposure@,
                )
                &&& code != Some("trigger_partial_fill"@) && code != Some("trigger_overshoot"@)
            }
        }),
{
}

/// Nothing speaks against the run itself exactly where it went the normal way and the trigger's trade
/// was seen.
pub proof fn law_runs_are_sound_where_they_went_the_normal_way(
    trigger: TriggerAcquisitionSummary,
    report: ScopedLiveRunnerReport,
)
    ensures
        (meta_failures(trigger, report).len() == 0) == (report.used_normal_post_hedge_mode
            && opt_text(trigger.failure_code) != Some("trigger_ws_not_observed"@)),
{
}

/// The critical events are those of critical priority, in order, and no other.
pub proof fn law_critical_events_are_those_marked_so(events: Seq<EventEnvelope>)
    ensures
        critical_types(events) == events.filter(
            |e: EventEnvelope| e.priority == Priority::Critical,
        ).map_values(|e: EventEnvelope| e.event_type@),
    decreases events.len(),
{
    reveal(Seq::filter);
    let p = |e: EventEnvelope| e.priority == Priority::Critical;
    let f = |e: EventEnvelope| e.event_type@;
    if events.len() > 0 {
        let rest = events.drop_last();
        law_critical_events_are_those_marked_so(rest);
        if p(events.last()) {
            assert(rest.filter(p).push(events.last()).map_values(f) =~= rest.filter(p).map_values(
                f,
            ).push(events.last().event_type@));
        }
    }
    assert(critical_types(events) =~= events.filter(p).map_values(f));
}

/// The report is of shares of that outcome in the market.
pub open spec fn tells_side(r: ProbeRawPosition, id: Seq<char>, yes: bool) -> bool {
    &&& opt_text(r.condition_id) == Some(id)
    &&& yes ==> opt_text(r.outcome) == Some("Yes"@) || opt_text(r.outcome) == Some("YES"@)
    &&& !yes ==> opt_text(r.outcome) == Some("No"@) || opt_text(r.outcome) == Some("NO"@)
}

/// The shares held and the price paid on a side are those of its last report; a number that is missing
/// there is zero.
pub proof fn law_last_report_tells_the_holding(
    raw: Seq<ProbeRawPosition>,
    id: Seq<char>,
    yes: bool,
    k: int,
)
    requires
        0 <= k < raw.len(),
        tells_side(raw[k], id, yes),
        forall|i: int| k < i < raw.len() ==> !tells_side(#[trigger] raw[i], id, yes),
    ensures
        ({
            let h = holding_in(raw, id);
            let (size, price) = if yes {
                (h.yes, h.avg_yes)
            } else {
                (h.no, h.avg_no)
            };
            &&& raw[k].size matches Some(d) ==> size == d@
            &&& raw[k].size is None ==> size == 0
            &&& raw[k].avg_price matches Some(d) ==> price == d@
            &&& raw[k].avg_price is None ==> price == 0
        }),
    decreases raw.len(),
{
    reveal_strlit("Yes");
    reveal_strlit("YES");
    reveal_strlit("No");
    reveal_strlit("NO");
    assert("Yes"@.len() == 3 && "YES"@.len() == 3 && "No"@.len() == 2 && "NO"@.len() == 2);
    if k < raw.len() - 1 {
        assert(!tells_side(raw[raw.len() - 1], id, yes));
        let t = raw.drop_last();
        assert forall|i: int| k < i < t.len() implies !tells_side(#[trigger] t[i], id, yes) by {
            assert(t[i] == raw[i]);
        }
        law_last_report_tells_the_holding(t, id, yes, k);
    }
}

/// A side of which nothing is reported holds nothing.
pub proof fn law_unreported_side_holds_nothing(
    raw: Seq<ProbeRawPosition>,
    id: Seq<char>,
    yes: bool,
)
    requires
        forall|i: int| 0 <= i < raw.len() ==> !tells_side(#[trigger] raw[i], id, yes),
    ensures
        yes ==> holding_in(raw, id).yes == 0 && holding_in(raw, id).avg_yes == 0,
        !yes ==> holding_in(raw, id).no == 0 && holding_in(raw, id).avg_no == 0,
    decreases raw.len(),
{
    if raw.len() > 0 {
        assert(!tells_side(raw[raw.len() - 1], id, yes));
        let t = raw.drop_last();
        assert forall|i: int| 0 <= i < t.len() implies !tells_side(#[trigger] t[i], id, yes) by {
            assert(t[i] == raw[i]);
        }
        law_unreported_side_holds_nothing(t, id, yes);
    }
}

} // verus!
