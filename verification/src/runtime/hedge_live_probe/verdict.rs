//! Whether a probe went as its scenario expects.

use crate::decimal::{abs_value, value_of, Decimal};
use crate::json::Json;
use crate::models::{Position, Side};
use crate::runtime::hedge_live_probe::preflight::LiveProbePlan;
use crate::runtime::hedge_live_probe::trigger::{
    ScopedLiveRunnerReport, TriggerAcquisitionSummary,
};
use crate::runtime::hedge_live_probe::{LiveProbeEventSummary, LiveProbeExpected, LiveProbeSafety};
use crate::text::{
    append_texts, bool_chars, bool_text, opt_quoted_chars, opt_quoted_text, opt_text, push_text,
    same_opt_text, same_text, texts, listed_if,
};
use vstd::prelude::*;
use vstd::string::*;

pub mod laws;

verus! {

/// What a hedge did, as its events and positions show.
#[derive(Debug)]
pub struct ObservedHedgeOutcome {
    pub result_status: Option<String>,
    pub hedge_side: Option<Side>,
    pub planned_hedge_shares: Option<Decimal>,
    pub planned_sellback_shares: Option<Decimal>,
    pub hedge_leg_status: Option<String>,
    pub sellback_leg_status: Option<String>,
    pub hedge_price: Option<Decimal>,
    pub sellback_price: Option<Decimal>,
    pub post_sync_yes_size: Option<Decimal>,
    pub post_sync_no_size: Option<Decimal>,
    pub post_sync_net_exposure: Option<Decimal>,
    pub neutrality_residual_exposure: Option<Decimal>,
    pub halted: bool,
    pub request_log: Vec<String>,
}

/// What there is to observe when the trigger was not seen.
pub fn empty_observed_outcome() -> (r: ObservedHedgeOutcome)
    ensures
        r.result_status is None && r.hedge_side is None,
        r.planned_hedge_shares is None && r.planned_sellback_shares is None,
        r.hedge_leg_status is None && r.sellback_leg_status is None,
        r.hedge_price is None && r.sellback_price is None,
        r.post_sync_yes_size is None && r.post_sync_no_size is None,
        r.post_sync_net_exposure is None && r.neutrality_residual_exposure is None,
        !r.halted,
        r.request_log@.len() == 0,
{
    ObservedHedgeOutcome {
        result_status: None,
        hedge_side: None,
        planned_hedge_shares: None,
        planned_sellback_shares: None,
        hedge_leg_status: None,
        sellback_leg_status: None,
        hedge_price: None,
        sellback_price: None,
        post_sync_yes_size: None,
        post_sync_no_size: None,
        post_sync_net_exposure: None,
        neutrality_residual_exposure: None,
        halted: false,
        request_log: Vec::new(),
    }
}

/// Urgency of an event.
#[derive(Clone, Copy, Debug, PartialEq, Eq, Structural)]
pub enum Priority {
    Critical,
    Normal,
}

/// An event that the engine emitted.
#[derive(Debug)]
pub struct EventEnvelope {
    pub event_type: String,
    pub source_component: String,
    pub priority: Priority,
    pub payload: Json,
}

/// Types of the critical events among the first.
pub open spec fn critical_types(events: Seq<EventEnvelope>) -> Seq<Seq<char>>
    decreases events.len(),
{
    if events.len() == 0 {
        Seq::empty()
    } else if events.last().priority == Priority::Critical {
        critical_types(events.drop_last()).push(events.last().event_type@)
    } else {
        critical_types(events.drop_last())
    }
}

pub open spec fn event_types(s: Seq<LiveProbeEventSummary>) -> Seq<Seq<char>> {
    s.map_values(|e: LiveProbeEventSummary| e.event_type@)
}

pub fn collect_critical_events(events: &Vec<EventEnvelope>) -> (r: Vec<LiveProbeEventSummary>)
    ensures
        event_types(r@) == critical_types(events@),
{
    let ghost all = events@;
    let mut r: Vec<LiveProbeEventSummary> = Vec::new();
    let mut i: usize = 0;
    assert(event_types(r@) =~= critical_types(all.take(0)));
    while i < events.len()
        invariant
            i <= events.len(),
            all == events@,
            event_types(r@) == critical_types(all.take(i as int)),
        decreases events.len() - i,
    {
        let ghost before = event_types(r@);
        assert(all.take(i + 1).drop_last() =~= all.take(i as int));
        assert(all.take(i + 1).last() == all[i as int]);
        if events[i].priority == Priority::Critical {
            r.push(LiveProbeEventSummary { event_type: events[i].event_type.clone() });
            assert(event_types(r@) =~= before.push(all[i as int].event_type@));
        }
        i = i + 1;
    }
    assert(all.take(i as int) =~= all);
    r
}

pub open spec fn side_chars(side: Option<Side>) -> Seq<char> {
    match side {
        Some(Side::Buy) => "Some(Buy)"@,
        Some(Side::Sell) => "Some(Sell)"@,
        None => "None"@,
    }
}

fn side_text(side: Option<Side>) -> (r: &'static str)
    ensures
        r@ == side_chars(side),
{
    match side {
        Some(Side::Buy) => "Some(Buy)",
        Some(Side::Sell) => "Some(Sell)",
        None => "None",
    }
}

/// The complaint about a text that is not as expected.
pub open spec fn option_mismatch(
    field: Seq<char>,
    expected: Option<Seq<char>>,
    actual: Option<Seq<char>>,
) -> Seq<Seq<char>> {
    listed_if(
        expected != actual,
        field + " mismatch: expected "@ + opt_quoted_chars(expected) + ", got "@
            + opt_quoted_chars(actual),
    )
}

pub fn compare_option_value(
    mismatches: &mut Vec<String>,
    field: &str,
    expected: &Option<String>,
    actual: &Option<String>,
)
    ensures
        texts(final(mismatches)@) == texts(old(mismatches)@) + option_mismatch(
            field@,
            opt_text(*expected),
            opt_text(*actual),
        ),
{
    if !same_opt_text(expected, actual) {
        let mut text = field.to_owned();
        text.append(" mismatch: expected ");
        text.append(opt_quoted_text(expected).as_str());
        text.append(", got ");
        text.append(opt_quoted_text(actual).as_str());
        push_text(mismatches, text);
    } else {
        assert(texts(mismatches@) + Seq::empty() =~= texts(mismatches@));
    }
}

/// The complaint about a value beyond its bound.
pub open spec fn max_mismatch(
    field: Seq<char>,
    expected_max: Option<Decimal>,
    actual: Option<Decimal>,
    treat_missing_as_zero: bool,
) -> Seq<Seq<char>> {
    match (expected_max, actual) {
        (Some(max), Some(value)) => listed_if(
            value@ > max@,
            field + " exceeded max: expected <= "@ + max.text_spec() + ", got "@
                + value.text_spec(),
        ),
        (Some(max), None) => listed_if(
            !(treat_missing_as_zero && 0 <= max@),
            field + " missing from observed outcome while max bound was provided"@,
        ),
        _ => Seq::empty(),
    }
}

pub fn compare_max_decimal(
    mismatches: &mut Vec<String>,
    field: &str,
    expected_max: Option<Decimal>,
    actual: Option<Decimal>,
    treat_missing_as_zero: bool,
)
    ensures
        texts(final(mismatches)@) == texts(old(mismatches)@) + max_mismatch(
            field@,
            expected_max,
            actual,
            treat_missing_as_zero,
        ),
{
    let ghost before = texts(mismatches@);
    assert(before + Seq::empty() =~= before);
    match (expected_max, actual) {
        (Some(max), Some(value)) => {
            if value > max {
                let mut text = field.to_owned();
                text.append(" exceeded max: expected <= ");
                text.append(max.to_text().as_str());
                text.append(", got ");
                text.append(value.to_text().as_str());
                push_text(mismatches, text);
            }
        },
        (Some(max), None) => {
            if !(treat_missing_as_zero && Decimal::zero() <= max) {
                let mut text = field.to_owned();
                text.append(" missing from observed outcome while max bound was provided");
                push_text(mismatches, text);
            }
        },
        _ => {},
    }
}

/// `d` is the magnitude of `of`, written with as many digits.
pub open spec fn is_magnitude(d: Option<Decimal>, of: Option<Decimal>) -> bool {
    match (d, of) {
        (Some(d), Some(of)) => d@ == abs_value(of@) && d.digits() == abs_value(of.digits())
            && d.places() == of.places(),
        (None, None) => true,
        _ => false,
    }
}

fn magnitude(d: Option<Decimal>) -> (r: Option<Decimal>)
    ensures
        is_magnitude(r, d),
{
    match d {
        Some(d) => Some(d.abs()),
        None => None,
    }
}

/// The complaints about an outcome, with `exposure` for the magnitude of the exposure.
pub open spec fn outcome_mismatches(
    expected: LiveProbeExpected,
    observed: ObservedHedgeOutcome,
    actual_success: bool,
    exposure: Option<Decimal>,
) -> Seq<Seq<char>> {
    listed_if(
        expected.success != actual_success,
        "success mismatch: expected "@ + bool_chars(expected.success) + ", got "@ + bool_chars(
            actual_success,
        ),
    ) + listed_if(
        expected.halted != observed.halted,
        "halted mismatch: expected "@ + bool_chars(expected.halted) + ", got "@ + bool_chars(
            observed.halted,
        ),
    ) + listed_if(
        expected.hedge_side != observed.hedge_side,
        "hedge_side mismatch: expected "@ + side_chars(expected.hedge_side) + ", got "@
            + side_chars(observed.hedge_side),
    ) + option_mismatch(
        "result_status"@,
        opt_text(expected.result_status),
        opt_text(observed.result_status),
    ) + option_mismatch(
        "hedge_leg_status"@,
        opt_text(expected.hedge_leg_status),
        opt_text(observed.hedge_leg_status),
    ) + option_mismatch(
        "sellback_leg_status"@,
        opt_text(expected.sellback_leg_status),
        opt_text(observed.sellback_leg_status),
    ) + max_mismatch(
        "planned_hedge_shares"@,
        expected.max_planned_hedge_shares,
        observed.planned_hedge_shares,
        false,
    ) + max_mismatch(
        "planned_sellback_shares"@,
        expected.max_planned_sellback_shares,
        observed.planned_sellback_shares,
        true,
    ) + max_mismatch(
        "post_sync_net_exposure"@,
        expected.max_post_sync_net_exposure,
        exposure,
        false,
    )
}

fn push_when(v: &mut Vec<String>, b: bool, a: &str, x: &str, y: &str, z: &str)
    ensures
        texts(final(v)@) == texts(old(v)@) + listed_if(b, a@ + x@ + y@ + z@),
{
    if b {
        let mut text = a.to_owned();
        text.append(x);
        text.append(y);
        text.append(z);
        push_text(v, text);
    } else {
        assert(texts(v@) + Seq::empty() =~= texts(v@));
    }
}

/// Holds what was observed against what the scenario expects.
pub fn compare_expected_to_observed(
    expected: &LiveProbeExpected,
    observed: &ObservedHedgeOutcome,
    actual_success: bool,
) -> (r: Vec<String>)
    ensures
        exists|exposure: Option<Decimal>| #[trigger]
            is_magnitude(exposure, observed.post_sync_net_exposure) && texts(r@)
                == outcome_mismatches(*expected, *observed, actual_success, exposure),
{
    let mut mismatches: Vec<String> = Vec::new();
    assert(texts(mismatches@) + Seq::empty() =~= Seq::empty());
    push_when(
        &mut mismatches,
        expected.success != actual_success,
        "success mismatch: expected ",
        bool_text(expected.success),
        ", got ",
        bool_text(actual_success),
    );
    assert(texts(mismatches@) =~= listed_if(
        expected.success != actual_success,
        "success mismatch: expected "@ + bool_chars(expected.success) + ", got "@ + bool_chars(
            actual_success,
        ),
    ));
    push_when(
        &mut mismatches,
        expected.halted != observed.halted,
        "halted mismatch: expected ",
        bool_text(expected.halted),
        ", got ",
        bool_text(observed.halted),
    );
    let side_differs = match (expected.hedge_side, observed.hedge_side) {
        (Some(a), Some(b)) => a != b,
        (None, None) => false,
        _ => true,
    };
    push_when(
        &mut mismatches,
        side_differs,
        "hedge_side mismatch: expected ",
        side_text(expected.hedge_side),
        ", got ",
        side_text(observed.hedge_side),
    );
    compare_option_value(
        &mut mismatches,
        "result_status",
        &expected.result_status,
        &observed.result_status,
    );
    compare_option_value(
        &mut mismatches,
        "hedge_leg_status",
        &expected.hedge_leg_status,
        &observed.hedge_leg_status,
    );
    compare_option_value(
        &mut mismatches,
        "sellback_leg_status",
        &expected.sellback_leg_status,
        &observed.sellback_leg_status,
    );
    compare_max_decimal(
        &mut mismatches,
        "planned_hedge_shares",
        expected.max_planned_hedge_shares,
        observed.planned_hedge_shares,
        false,
    );
    compare_max_decimal(
        &mut mismatches,
        "planned_sellback_shares",
        expected.max_planned_sellback_shares,
        observed.planned_sellback_shares,
        true,
    );
    let exposure = magnitude(observed.post_sync_net_exposure);
    compare_max_decimal(
        &mut mismatches,
        "post_sync_net_exposure",
        expected.max_post_sync_net_exposure,
        exposure,
        false,
    );
    assert(is_magnitude(exposure, observed.post_sync_net_exposure));
    mismatches
}

/// `e` can be had from `a` by leaving items out.
pub open spec fn is_subsequence(e: Seq<Seq<char>>, a: Seq<Seq<char>>) -> bool
    decreases a.len(),
{
    if e.len() == 0 {
        true
    } else if a.len() == 0 {
        false
    } else {
        (e[0] == a[0] && is_subsequence(e.drop_first(), a.drop_first())) || is_subsequence(
            e,
            a.drop_first(),
        )
    }
}

/// The first item of `e` that is not found in `a` after the items before it.
pub open spec fn first_missing(e: Seq<Seq<char>>, a: Seq<Seq<char>>) -> Option<Seq<char>>
    decreases a.len(),
{
    if e.len() == 0 {
        None
    } else if a.len() == 0 {
        Some(e[0])
    } else if e[0] == a[0] {
        first_missing(e.drop_first(), a.drop_first())
    } else {
        first_missing(e, a.drop_first())
    }
}

proof fn lemma_subsequence_drop(e: Seq<Seq<char>>, a: Seq<Seq<char>>)
    requires
        e.len() > 0,
        is_subsequence(e, a),
    ensures
        is_subsequence(e.drop_first(), a),
        a.len() > 0,
        is_subsequence(e.drop_first(), a.drop_first()),
    decreases a.len(),
{
    let rest = e.drop_first();
    if e[0] == a[0] && is_subsequence(rest, a.drop_first()) {
    } else {
        lemma_subsequence_drop(e, a.drop_first());
    }
}

/// Nothing is missing exactly when the expected items are a subsequence of the actual ones.
pub proof fn law_nothing_missing_means_subsequence(e: Seq<Seq<char>>, a: Seq<Seq<char>>)
    ensures
        first_missing(e, a) is None <==> is_subsequence(e, a),
    decreases a.len(),
{
    if e.len() > 0 && a.len() > 0 {
        if e[0] == a[0] {
            law_nothing_missing_means_subsequence(e.drop_first(), a.drop_first());
            if is_subsequence(e, a) {
                lemma_subsequence_drop(e, a);
            }
        } else {
            law_nothing_missing_means_subsequence(e, a.drop_first());
        }
    }
}

/// Complains about the first expected critical event that did not come in its turn.
pub fn compare_expected_critical_event_types(
    expected: &Vec<String>,
    actual: &Vec<LiveProbeEventSummary>,
) -> (r: Vec<String>)
    ensures
        texts(r@) == match first_missing(texts(expected@), event_types(actual@)) {
            Some(item) => seq!["critical_event_types missing subsequence item: "@ + item],
            None => Seq::empty(),
        },
{
    let ghost e = texts(expected@);
    let ghost a = event_types(actual@);
    let mut mismatches: Vec<String> = Vec::new();
    assert(texts(mismatches@) =~= Seq::empty());
    assert(e.skip(0) =~= e);
    assert(a.skip(0) =~= a);
    let mut wanted: usize = 0;
    let mut cursor: usize = 0;
    while wanted < expected.len() && cursor < actual.len()
        invariant
            wanted <= expected.len(),
            cursor <= actual.len(),
            e == texts(expected@),
            a == event_types(actual@),
            first_missing(e, a) == first_missing(e.skip(wanted as int), a.skip(cursor as int)),
        decreases actual.len() - cursor,
    {
        assert(e.skip(wanted as int)[0] == expected@[wanted as int]@);
        assert(a.skip(cursor as int)[0] == actual@[cursor as int].event_type@);
        assert(a.skip(cursor as int).drop_first() =~= a.skip(cursor + 1));
        assert(e.skip(wanted as int).drop_first() =~= e.skip(wanted + 1));
        if same_text(actual[cursor].event_type.as_str(), expected[wanted].as_str()) {
            wanted = wanted + 1;
        }
        cursor = cursor + 1;
    }
    if wanted < expected.len() {
        assert(e.skip(wanted as int)[0] == expected@[wanted as int]@);
        let mut text = "critical_event_types missing subsequence item: ".to_owned();
        text.append(expected[wanted].as_str());
        push_text(&mut mismatches, text);
        assert(texts(mismatches@) =~= seq![
            "critical_event_types missing subsequence item: "@ + e[wanted as int],
        ]);
    }
    mismatches
}

/// The complaint about a figure beyond a safety limit.
pub open spec fn safety_mismatch(name: Seq<char>, value: Decimal, max: Decimal) -> Seq<Seq<char>> {
    listed_if(
        value@ > max@,
        "safety violation: "@ + name + " "@ + value.text_spec() + " exceeded safety.max_"@ + name
            + " "@ + max.text_spec(),
    )
}

fn compare_with_limit(v: &mut Vec<String>, name: &str, value: Decimal, max: Decimal)
    ensures
        texts(final(v)@) == texts(old(v)@) + safety_mismatch(name@, value, max),
{
    if value > max {
        let mut text = "safety violation: ".to_owned();
        text.append(name);
        text.append(" ");
        text.append(value.to_text().as_str());
        text.append(" exceeded safety.max_");
        text.append(name);
        text.append(" ");
        text.append(max.to_text().as_str());
        push_text(v, text);
    } else {
        assert(texts(v@) + Seq::empty() =~= texts(v@));
    }
}

/// The complaints about the safety limits, with `exposure` for the magnitude of the exposure.
pub open spec fn safety_mismatches(
    safety: LiveProbeSafety,
    plan: LiveProbePlan,
    exposure: Option<Decimal>,
) -> Seq<Seq<char>> {
    safety_mismatch(
        "planned_hedge_shares"@,
        plan.planned_hedge_shares,
        safety.max_planned_hedge_shares,
    ) + safety_mismatch(
        "planned_sellback_shares"@,
        plan.planned_sellback_shares,
        safety.max_planned_sellback_shares,
    ) + safety_mismatch(
        "planned_hedge_notional_usdc"@,
        plan.planned_hedge_notional_usdc,
        safety.max_planned_hedge_notional_usdc,
    ) + match exposure {
        Some(value) => safety_mismatch(
            "post_sync_net_exposure"@,
            value,
            safety.max_post_sync_net_exposure,
        ),
        None => Seq::empty(),
    }
}

/// Holds the plan and the exposure that was left against the safety limits.
pub fn compare_safety_to_observed(
    safety: &LiveProbeSafety,
    plan: &LiveProbePlan,
    observed: &ObservedHedgeOutcome,
) -> (r: Vec<String>)
    ensures
        exists|exposure: Option<Decimal>| #[trigger]
            is_magnitude(exposure, observed.post_sync_net_exposure) && texts(r@)
                == safety_mismatches(*safety, *plan, exposure),
{
    let mut mismatches: Vec<String> = Vec::new();
    compare_with_limit(
        &mut mismatches,
        "planned_hedge_shares",
        plan.planned_hedge_shares,
        safety.max_planned_hedge_shares,
    );
    assert(texts(mismatches@) =~= safety_mismatch(
        "planned_hedge_shares"@,
        plan.planned_hedge_shares,
        safety.max_planned_hedge_shares,
    ));
    compare_with_limit(
        &mut mismatches,
        "planned_sellback_shares",
        plan.planned_sellback_shares,
        safety.max_planned_sellback_shares,
    );
    compare_with_limit(
        &mut mismatches,
        "planned_hedge_notional_usdc",
        plan.planned_hedge_notional_usdc,
        safety.max_planned_hedge_notional_usdc,
    );
    let exposure = magnitude(observed.post_sync_net_exposure);
    match exposure {
        Some(value) => {
            compare_with_limit(
                &mut mismatches,
                "post_sync_net_exposure",
                value,
                safety.max_post_sync_net_exposure,
            );
        },
        None => {
            assert(texts(mismatches@) + Seq::empty() =~= texts(mismatches@));
        },
    }
    assert(is_magnitude(exposure, observed.post_sync_net_exposure));
    mismatches
}

pub open spec fn or_unknown(reason: Option<Seq<char>>) -> Seq<char> {
    match reason {
        Some(reason) => reason,
        None => "unknown trigger failure"@,
    }
}

fn reason_or_unknown(reason: &Option<String>) -> (r: String)
    ensures
        r@ == or_unknown(opt_text(*reason)),
{
    match reason {
        Some(reason) => reason.clone(),
        None => "unknown trigger failure".to_owned(),
    }
}

/// What speaks against the run itself, whatever the hedge did.
pub open spec fn meta_failures(
    trigger: TriggerAcquisitionSummary,
    report: ScopedLiveRunnerReport,
) -> Seq<Seq<char>> {
    listed_if(
        !report.used_normal_post_hedge_mode,
        "runner_deviated_from_normal_post_hedge_mode: Layer 3 did not use the normal production post-hedge path"@,
    ) + listed_if(
        opt_text(trigger.failure_code) == Some("trigger_ws_not_observed"@),
        "trigger_ws_not_observed: no matching user-stream trigger trade reached the production path ("@
            + or_unknown(opt_text(trigger.failure_reason)) + ")"@,
    )
}

fn has_code(code: &Option<String>, wanted: &str) -> (r: bool)
    ensures
        r == (opt_text(*code) == Some(wanted@)),
{
    match code {
        Some(code) => same_text(code.as_str(), wanted),
        None => false,
    }
}

pub fn compare_meta_to_runtime(
    trigger: &TriggerAcquisitionSummary,
    runtime_report: &ScopedLiveRunnerReport,
) -> (r: Vec<String>)
    ensures
        texts(r@) == meta_failures(*trigger, *runtime_report),
{
    let mut failures: Vec<String> = Vec::new();
    assert(texts(failures@) =~= Seq::empty());
    if !runtime_report.used_normal_post_hedge_mode {
        push_text(
            &mut failures,
            "runner_deviated_from_normal_post_hedge_mode: Layer 3 did not use the normal production post-hedge path".to_owned(),
        );
    }
    let ghost before = texts(failures@);
    assert(before =~= listed_if(
        !runtime_report.used_normal_post_hedge_mode,
        "runner_deviated_from_normal_post_hedge_mode: Layer 3 did not use the normal production post-hedge path"@,
    ));
    assert(before + Seq::empty() =~= before);
    if has_code(&trigger.failure_code, "trigger_ws_not_observed") {
        let mut text =
            "trigger_ws_not_observed: no matching user-stream trigger trade reached the production path (".to_owned();
        text.append(reason_or_unknown(&trigger.failure_reason).as_str());
        text.append(")");
        push_text(&mut failures, text);
    }
    failures
}

/// What speaks against the size of the trigger.
pub open spec fn trigger_mismatches(trigger: TriggerAcquisitionSummary) -> Seq<Seq<char>> {
    let code = opt_text(trigger.failure_code);
    listed_if(
        code == Some("trigger_partial_fill"@) || code == Some("trigger_overshoot"@),
        code->0 + ": requested "@ + trigger.requested_shares.text_spec()
            + " normalized trigger shares but observed "@
            + trigger.resolved_trade_shares.text_spec()
            + " on the real user-stream trigger path"@,
    )
}

pub fn compare_trigger_to_standard(trigger: &TriggerAcquisitionSummary) -> (r: Vec<String>)
    ensures
        texts(r@) == trigger_mismatches(*trigger),
{
    let mut mismatches: Vec<String> = Vec::new();
    assert(texts(mismatches@) =~= Seq::empty());
    match &trigger.failure_code {
        Some(code) => {
            if same_text(code.as_str(), "trigger_partial_fill") || same_text(
                code.as_str(),
                "trigger_overshoot",
            ) {
                let mut text = code.clone();
                text.append(": requested ");
                text.append(trigger.requested_shares.to_text().as_str());
                text.append(" normalized trigger shares but observed ");
                text.append(trigger.resolved_trade_shares.to_text().as_str());
                text.append(" on the real user-stream trigger path");
                push_text(&mut mismatches, text);
                assert(texts(mismatches@) =~= trigger_mismatches(*trigger));
            }
        },
        None => {},
    }
    mismatches
}

/// Whether a probe passed, and if not, why.
#[derive(Debug)]
pub struct ProbeVerdict {
    pub passed: bool,
    pub meta_pass: bool,
    pub standard_pass: bool,
    pub actual_success: bool,
    pub meta_failures: Vec<String>,
    pub standard_mismatches: Vec<String>,
}

/// All that speaks against the hedge of a probe, with `exposure` for the magnitude of the
/// exposure.
pub open spec fn standard_mismatches(
    expected: LiveProbeExpected,
    safety: LiveProbeSafety,
    plan: LiveProbePlan,
    observed: ObservedHedgeOutcome,
    trigger: TriggerAcquisitionSummary,
    critical: Seq<LiveProbeEventSummary>,
    exposure: Option<Decimal>,
    safety_exposure: Option<Decimal>,
) -> Seq<Seq<char>> {
    outcome_mismatches(
        expected,
        observed,
        opt_text(observed.result_status) == Some("success"@),
        exposure,
    ) + listed_if(
        !trigger.ws_trade_observed,
        "standard verdict unavailable: trigger did not reach the production user-stream trade path ("@
            + or_unknown(opt_text(trigger.failure_reason)) + ")"@,
    ) + (match first_missing(texts(expected.critical_event_types@), event_types(critical)) {
        Some(item) => seq!["critical_event_types missing subsequence item: "@ + item],
        None => Seq::empty(),
    }) + safety_mismatches(safety, plan, safety_exposure) + trigger_mismatches(trigger)
}

/// The verdict on a probe.
pub fn judge_probe(
    expected: &LiveProbeExpected,
    safety: &LiveProbeSafety,
    plan: &LiveProbePlan,
    observed: &ObservedHedgeOutcome,
    trigger: &TriggerAcquisitionSummary,
    runtime_report: &ScopedLiveRunnerReport,
    critical_events: &Vec<LiveProbeEventSummary>,
) -> (r: ProbeVerdict)
    ensures
        r.actual_success == (opt_text(observed.result_status) == Some("success"@)),
        texts(r.meta_failures@) == meta_failures(*trigger, *runtime_report),
        exists|exposure: Option<Decimal>, safety_exposure: Option<Decimal>| #[trigger]
            is_magnitude(exposure, observed.post_sync_net_exposure) && #[trigger] is_magnitude(
                safety_exposure,
                observed.post_sync_net_exposure,
            ) && texts(r.standard_mismatches@) == standard_mismatches(
                *expected,
                *safety,
                *plan,
                *observed,
                *trigger,
                critical_events@,
                exposure,
                safety_exposure,
            ),
        r.meta_pass == (r.meta_failures@.len() == 0),
        r.standard_pass == (r.standard_mismatches@.len() == 0),
        r.passed == (r.meta_pass && r.standard_pass),
{
    let actual_success = has_code(&observed.result_status, "success");
    let meta = compare_meta_to_runtime(trigger, runtime_report);
    let mut standard = compare_expected_to_observed(expected, observed, actual_success);
    let ghost exposure = choose|exposure: Option<Decimal>| #[trigger]
        is_magnitude(exposure, observed.post_sync_net_exposure) && texts(standard@)
            == outcome_mismatches(*expected, *observed, actual_success, exposure);
    if !trigger.ws_trade_observed {
        let mut text =
            "standard verdict unavailable: trigger did not reach the production user-stream trade path (".to_owned();
        text.append(reason_or_unknown(&trigger.failure_reason).as_str());
        text.append(")");
        push_text(&mut standard, text);
    } else {
        assert(texts(standard@) + Seq::empty() =~= texts(standard@));
    }
    let events = compare_expected_critical_event_types(
        &expected.critical_event_types,
        critical_events,
    );
    append_texts(&mut standard, &events);
    let limits = compare_safety_to_observed(safety, plan, observed);
    let ghost safety_exposure = choose|exposure: Option<Decimal>| #[trigger]
        is_magnitude(exposure, observed.post_sync_net_exposure) && texts(limits@)
            == safety_mismatches(*safety, *plan, exposure);
    append_texts(&mut standard, &limits);
    let sizes = compare_trigger_to_standard(trigger);
    append_texts(&mut standard, &sizes);
    assert(is_magnitude(exposure, observed.post_sync_net_exposure) && is_magnitude(
        safety_exposure,
        observed.post_sync_net_exposure,
    ));
    let meta_pass = meta.len() == 0;
    let standard_pass = standard.len() == 0;
    ProbeVerdict {
        passed: meta_pass && standard_pass,
        meta_pass,
        standard_pass,
        actual_success,
        meta_failures: meta,
        standard_mismatches: standard,
    }
}

/// A position as the data interface of the exchange reports it.
#[derive(Debug)]
pub struct ProbeRawPosition {
    pub condition_id: Option<String>,
    pub size: Option<Decimal>,
    pub avg_price: Option<Decimal>,
    pub outcome: Option<String>,
}

/// A number that a JSON value writes, as a number or as a text; nothing where there is no value.
pub open spec fn json_decimal(j: Option<Json>) -> Result<Option<int>, ()> {
    match j {
        None => Ok(None),
        Some(Json::Null) => Ok(None),
        Some(Json::String(t)) => match crate::decimal::decimal_of_text(t@) {
            Some(v) => Ok(Some(v)),
            None => Err(()),
        },
        Some(Json::Number(t)) => match crate::decimal::decimal_of_text(t@) {
            Some(v) => Ok(Some(v)),
            None => Err(()),
        },
        Some(_) => Err(()),
    }
}

pub fn deserialize_optional_json_decimal(j: Option<&Json>) -> (r: Result<Option<Decimal>, ()>)
    ensures
        match json_decimal(
            match j {
                Some(j) => Some(*j),
                None => None,
            },
        ) {
            Ok(v) => r is Ok && value_of(r->Ok_0) == v,
            Err(_) => r is Err,
        },
{
    match j {
        None => Ok(None),
        Some(Json::Null) => Ok(None),
        Some(Json::String(text)) => match Decimal::parse(text.as_str()) {
            Some(v) => Ok(Some(v)),
            None => Err(()),
        },
        Some(Json::Number(text)) => match Decimal::parse(text.as_str()) {
            Some(v) => Ok(Some(v)),
            None => Err(()),
        },
        Some(_) => Err(()),
    }
}

/// A text that a JSON value holds; nothing where there is no value.
pub open spec fn json_text(j: Option<Json>) -> Result<Option<Seq<char>>, ()> {
    match j {
        None => Ok(None),
        Some(Json::Null) => Ok(None),
        Some(Json::String(t)) => Ok(Some(t@)),
        Some(_) => Err(()),
    }
}

fn read_text(j: Option<&Json>) -> (r: Result<Option<String>, ()>)
    ensures
        match json_text(
            match j {
                Some(j) => Some(*j),
                None => None,
            },
        ) {
            Ok(v) => r is Ok && opt_text(r->Ok_0) == v,
            Err(_) => r is Err,
        },
{
    match j {
        None => Ok(None),
        Some(Json::Null) => Ok(None),
        Some(Json::String(text)) => Ok(Some(text.clone())),
        Some(_) => Err(()),
    }
}

impl ProbeRawPosition {
    /// Reads a position; sizes and prices may be numbers or texts.
    pub fn from_json(j: &Json) -> (r: Result<ProbeRawPosition, ()>)
        ensures
            ({
                let condition_id = json_text(crate::json::field_of(*j, "conditionId"@));
                let size = json_decimal(crate::json::field_of(*j, "size"@));
                let avg_price = json_decimal(crate::json::field_of(*j, "avgPrice"@));
                let outcome = json_text(crate::json::field_of(*j, "outcome"@));
                if j is Object && condition_id is Ok && size is Ok && avg_price is Ok && outcome is Ok {
                    r is Ok && opt_text(r->Ok_0.condition_id) == condition_id->Ok_0 && value_of(
                        r->Ok_0.size,
                    ) == size->Ok_0 && value_of(r->Ok_0.avg_price) == avg_price->Ok_0 && opt_text(
                        r->Ok_0.outcome,
                    ) == outcome->Ok_0
                } else {
                    r is Err
                }
            }),
    {
        match j {
            Json::Object(_) => {},
            _ => {
                return Err(());
            },
        }
        let condition_id = match read_text(j.get("conditionId")) {
            Ok(v) => v,
            Err(_) => {
                return Err(());
            },
        };
        let size = match deserialize_optional_json_decimal(j.get("size")) {
            Ok(v) => v,
            Err(_) => {
                return Err(());
            },
        };
        let avg_price = match deserialize_optional_json_decimal(j.get("avgPrice")) {
            Ok(v) => v,
            Err(_) => {
                return Err(());
            },
        };
        let outcome = match read_text(j.get("outcome")) {
            Ok(v) => v,
            Err(_) => {
                return Err(());
            },
        };
        Ok(ProbeRawPosition { condition_id, size, avg_price, outcome })
    }
}

pub open spec fn raw_value(d: Option<Decimal>) -> int {
    match d {
        Some(d) => d@,
        None => 0,
    }
}

/// Sizes and average prices of YES and NO.
pub struct HoldingView {
    pub yes: int,
    pub no: int,
    pub avg_yes: int,
    pub avg_no: int,
}

pub open spec fn names_yes(outcome: Option<Seq<char>>) -> bool {
    outcome == Some("Yes"@) || outcome == Some("YES"@)
}

pub open spec fn names_no(outcome: Option<Seq<char>>) -> bool {
    outcome == Some("No"@) || outcome == Some("NO"@)
}

/// What the reported positions say of a market: the last report of each token counts.
pub open spec fn holding_in(raw: Seq<ProbeRawPosition>, condition_id: Seq<char>) -> HoldingView
    decreases raw.len(),
{
    if raw.len() == 0 {
        HoldingView { yes: 0, no: 0, avg_yes: 0, avg_no: 0 }
    } else {
        let rest = holding_in(raw.drop_last(), condition_id);
        let p = raw.last();
        if opt_text(p.condition_id) != Some(condition_id) {
            rest
        } else if names_yes(opt_text(p.outcome)) {
            HoldingView { yes: raw_value(p.size), avg_yes: raw_value(p.avg_price), ..rest }
        } else if names_no(opt_text(p.outcome)) {
            HoldingView { no: raw_value(p.size), avg_no: raw_value(p.avg_price), ..rest }
        } else {
            rest
        }
    }
}

fn raw_or_zero(d: Option<Decimal>) -> (r: Decimal)
    ensures
        r@ == raw_value(d),
{
    match d {
        Some(d) => d,
        None => Decimal::zero(),
    }
}

/// The position in a market, by the reported positions.
pub fn fetch_position(raw: &Vec<ProbeRawPosition>, condition_id: &str) -> (r: Position)
    ensures
        r.condition_id@ == condition_id@,
        holding_in(raw@, condition_id@) == (HoldingView {
            yes: r.yes_size@,
            no: r.no_size@,
            avg_yes: r.avg_yes_price@,
            avg_no: r.avg_no_price@,
        }),
{
    let ghost all = raw@;
    let mut position = Position::new(condition_id.to_owned());
    let mut i: usize = 0;
    proof {
        reveal_strlit("Yes");
        reveal_strlit("YES");
        reveal_strlit("No");
        reveal_strlit("NO");
        assert("Yes"@.len() == 3 && "YES"@.len() == 3 && "No"@.len() == 2 && "NO"@.len() == 2);
    }
    while i < raw.len()
        invariant
            i <= raw.len(),
            all == raw@,
            position.condition_id@ == condition_id@,
            "Yes"@.len() == 3 && "YES"@.len() == 3 && "No"@.len() == 2 && "NO"@.len() == 2,
            holding_in(all.take(i as int), condition_id@) == (HoldingView {
                yes: position.yes_size@,
                no: position.no_size@,
                avg_yes: position.avg_yes_price@,
                avg_no: position.avg_no_price@,
            }),
        decreases raw.len() - i,
    {
        assert(all.take(i + 1).drop_last() =~= all.take(i as int));
        assert(all.take(i + 1).last() == all[i as int]);
        let p = &raw[i];
        if has_code(&p.condition_id, condition_id) {
            if has_code(&p.outcome, "Yes") || has_code(&p.outcome, "YES") {
                position.yes_size = raw_or_zero(p.size);
                position.avg_yes_price = raw_or_zero(p.avg_price);
            } else if has_code(&p.outcome, "No") || has_code(&p.outcome, "NO") {
                position.no_size = raw_or_zero(p.size);
                position.avg_no_price = raw_or_zero(p.avg_price);
            }
        }
        i = i + 1;
    }
    assert(all.take(i as int) =~= all);
    position
}

} // verus!
