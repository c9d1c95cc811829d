//! Reports in words, line by line.

use crate::decimal::Decimal;
use crate::models::{QuoteLeg, Side};
use crate::runtime::hedge_live_probe::cleanup::CleanupSummary;
use crate::runtime::hedge_live_probe::preflight::LiveProbePlan;
use crate::runtime::hedge_live_probe::trigger::TriggerAcquisitionSummary;
use crate::runtime::hedge_live_probe::verdict::{ObservedHedgeOutcome, ProbeVerdict};
use crate::runtime::hedge_live_probe::{
    CleanupStatus, HedgeLiveProbeScenario, LiveProbeEventSummary,
};
use crate::runtime::replay::{ReplayDetail, ReplaySummary};
use crate::text::{
    bool_chars, bool_text, count_chars, count_text, join2, joined, join_texts, opt_quoted_chars,
    opt_quoted_text, opt_text, push_text, quoted_chars, quoted_text, texts,
};
use vstd::prelude::*;
use vstd::string::*;

verus! {

/// A heading and the items under it, each with a dash; nothing where there are no items.
pub open spec fn listing(heading: Seq<char>, items: Seq<Seq<char>>) -> Seq<Seq<char>> {
    if items.len() == 0 {
        Seq::empty()
    } else {
        seq![heading] + items.map_values(|item: Seq<char>| "- "@ + item)
    }
}

/// Adds a heading and the items under it to a report.
pub fn push_listing(lines: &mut Vec<String>, heading: &str, items: &Vec<String>)
    ensures
        texts(final(lines)@) == texts(old(lines)@) + listing(heading@, texts(items@)),
{
    let ghost before = texts(lines@);
    let ghost all = texts(items@);
    let ghost dashed = |item: Seq<char>| "- "@ + item;
    if items.len() == 0 {
        assert(before + listing(heading@, all) =~= before);
        return;
    }
    push_text(lines, heading.to_owned());
    let mut i: usize = 0;
    assert(all.take(0).map_values(dashed) =~= Seq::empty());
    assert(texts(lines@) =~= before + (seq![heading@] + all.take(0).map_values(dashed)));
    while i < items.len()
        invariant
            i <= items.len(),
            all == texts(items@),
            dashed == (|item: Seq<char>| "- "@ + item),
            texts(lines@) == before + (seq![heading@] + all.take(i as int).map_values(dashed)),
        decreases items.len() - i,
    {
        let ghost so_far = texts(lines@);
        push_text(lines, join2("- ", items[i].as_str()));
        proof {
            assert(all[i as int] == items@[i as int]@);
            assert(all.take(i + 1).map_values(dashed) =~= all.take(i as int).map_values(dashed)
                + seq!["- "@ + all[i as int]]);
            assert(texts(lines@) =~= before + (seq![heading@] + all.take(i + 1).map_values(
                dashed,
            )));
        }
        i = i + 1;
    }
    assert(all.take(i as int) =~= all);
}

/// An optional number in its debug form.
pub open spec fn opt_number_chars(n: Option<Decimal>) -> Seq<char> {
    match n {
        Some(n) => "Some("@ + n.text_spec() + ")"@,
        None => "None"@,
    }
}

fn opt_number_text(n: Option<Decimal>) -> (r: String)
    ensures
        r@ == opt_number_chars(n),
{
    match n {
        Some(n) => {
            let mut r = join2("Some(", n.to_text().as_str());
            r.append(")");
            r
        },
        None => "None".to_owned(),
    }
}

/// A list of texts in its debug form.
pub open spec fn list_chars(items: Seq<Seq<char>>) -> Seq<char> {
    "["@ + joined(items.map_values(|item: Seq<char>| quoted_chars(item)), ", "@) + "]"@
}

fn list_text(items: &Vec<String>) -> (r: String)
    ensures
        r@ == list_chars(texts(items@)),
{
    let ghost all = texts(items@);
    let ghost quoted = |item: Seq<char>| quoted_chars(item);
    let mut parts: Vec<String> = Vec::new();
    let mut i: usize = 0;
    assert(texts(parts@) =~= all.take(0).map_values(quoted));
    while i < items.len()
        invariant
            i <= items.len(),
            all == texts(items@),
            quoted == (|item: Seq<char>| quoted_chars(item)),
            texts(parts@) == all.take(i as int).map_values(quoted),
        decreases items.len() - i,
    {
        push_text(&mut parts, quoted_text(items[i].as_str()));
        proof {
            assert(all[i as int] == items@[i as int]@);
            assert(all.take(i + 1).map_values(quoted) =~= all.take(i as int).map_values(quoted)
                + seq![quoted_chars(all[i as int])]);
        }
        i = i + 1;
    }
    assert(all.take(i as int) =~= all);
    let mut r = join2("[", join_texts(&parts, ", ").as_str());
    r.append("]");
    r
}

/// A leg by name.
pub open spec fn leg_chars(v: QuoteLeg) -> Seq<char> {
    match v {
        QuoteLeg::YesBid => "YesBid"@,
        QuoteLeg::YesAsk => "YesAsk"@,
        QuoteLeg::NoBid => "NoBid"@,
        QuoteLeg::NoAsk => "NoAsk"@,
    }
}

fn leg_text(v: QuoteLeg) -> (r: &'static str)
    ensures
        r@ == leg_chars(v),
{
    match v {
        QuoteLeg::YesBid => "YesBid",
        QuoteLeg::YesAsk => "YesAsk",
        QuoteLeg::NoBid => "NoBid",
        QuoteLeg::NoAsk => "NoAsk",
    }
}

/// A side by name.
pub open spec fn side_chars(v: Side) -> Seq<char> {
    match v {
        Side::Buy => "Buy"@,
        Side::Sell => "Sell"@,
    }
}

fn side_text(v: Side) -> (r: &'static str)
    ensures
        r@ == side_chars(v),
{
    match v {
        Side::Buy => "Buy",
        Side::Sell => "Sell",
    }
}

/// An optional side in its debug form.
pub open spec fn opt_side_chars(v: Option<Side>) -> Seq<char> {
    match v {
        Some(Side::Buy) => "Some(Buy)"@,
        Some(Side::Sell) => "Some(Sell)"@,
        None => "None"@,
    }
}

fn opt_side_text(v: Option<Side>) -> (r: &'static str)
    ensures
        r@ == opt_side_chars(v),
{
    match v {
        Some(Side::Buy) => "Some(Buy)",
        Some(Side::Sell) => "Some(Sell)",
        None => "None",
    }
}

/// How the account was cleaned up, in its debug form.
pub open spec fn cleanup_chars(v: Option<CleanupStatus>) -> Seq<char> {
    match v {
        Some(CleanupStatus::Merged) => "Some(Merged)"@,
        Some(CleanupStatus::Flattened) => "Some(Flattened)"@,
        None => "None"@,
    }
}

fn cleanup_text(v: Option<CleanupStatus>) -> (r: &'static str)
    ensures
        r@ == cleanup_chars(v),
{
    match v {
        Some(CleanupStatus::Merged) => "Some(Merged)",
        Some(CleanupStatus::Flattened) => "Some(Flattened)",
        None => "None",
    }
}

/// A verdict in a word.
pub open spec fn pass_chars(v: bool) -> Seq<char> {
    match v {
        true => "PASS"@,
        false => "FAIL"@,
    }
}

fn pass_text(v: bool) -> (r: &'static str)
    ensures
        r@ == pass_chars(v),
{
    match v {
        true => "PASS",
        false => "FAIL",
    }
}

/// A result in a word.
pub open spec fn success_chars(v: bool) -> Seq<char> {
    match v {
        true => "success"@,
        false => "failure"@,
    }
}

fn success_text(v: bool) -> (r: &'static str)
    ensures
        r@ == success_chars(v),
{
    match v {
        true => "success",
        false => "failure",
    }
}

/// A decision in a word.
pub open spec fn trade_chars(v: bool) -> Seq<char> {
    match v {
        true => "TRADE"@,
        false => "PASS"@,
    }
}

fn trade_text(v: bool) -> (r: &'static str)
    ensures
        r@ == trade_chars(v),
{
    match v {
        true => "TRADE",
        false => "PASS",
    }
}

/// A number, or that there is none.
pub open spec fn number_chars_or_na(n: Option<Decimal>) -> Seq<char> {
    match n {
        Some(n) => n.text_spec(),
        None => "N/A"@,
    }
}

fn number_or_na(n: Option<Decimal>) -> (r: String)
    ensures
        r@ == number_chars_or_na(n),
{
    match n {
        Some(n) => n.to_text(),
        None => "N/A".to_owned(),
    }
}

/// An amount in dollars, or that there is none.
pub open spec fn dollars_chars(n: Option<Decimal>) -> Seq<char> {
    match n {
        Some(n) => "$"@ + n.text_spec(),
        None => "N/A"@,
    }
}

fn dollars_text(n: Option<Decimal>) -> (r: String)
    ensures
        r@ == dollars_chars(n),
{
    match n {
        Some(n) => join2("$", n.to_text().as_str()),
        None => "N/A".to_owned(),
    }
}

/// What became of one decision, without the mark of a change.
pub open spec fn detail_chars(d: ReplayDetail) -> Seq<char> {
    "  "@
        + d.market_slug@
        + " | orig="@
        + trade_chars(d.original_would_trade)
        + " repl="@
        + trade_chars(d.replayed_would_trade)
        + " | edge: "@
        + dollars_chars(d.original_edge)
        + " -> "@
        + dollars_chars(d.replayed_edge)
        + " | score_proxy="@
        + number_chars_or_na(d.score_proxy)
        + " (approx)"@
}

fn detail_text(d: &ReplayDetail) -> (r: String)
    ensures
        r@ == detail_chars(*d),
{
    let mut r = "  ".to_owned();
    r.append(d.market_slug.as_str());
    r.append(" | orig=");
    r.append(trade_text(d.original_would_trade));
    r.append(" repl=");
    r.append(trade_text(d.replayed_would_trade));
    r.append(" | edge: ");
    r.append(dollars_text(d.original_edge).as_str());
    r.append(" -> ");
    r.append(dollars_text(d.replayed_edge).as_str());
    r.append(" | score_proxy=");
    r.append(number_or_na(d.score_proxy).as_str());
    r.append(" (approx)");
    r
}

/// What became of one decision.
pub open spec fn detail_line(d: ReplayDetail) -> Seq<char> {
    if d.original_would_trade != d.replayed_would_trade {
        detail_chars(d) + " [CHANGED]"@
    } else {
        detail_chars(d)
    }
}

/// What a replay found in all.
pub open spec fn summary_chars(s: ReplaySummary) -> Seq<char> {
    "\nSummary: "@
        + count_chars(s.total_markets as nat)
        + " markets, "@
        + count_chars(s.decision_changes as nat)
        + " decision changes, avg score proxy: "@
        + number_chars_or_na(s.avg_score_proxy)
        + " (approx)"@
}

fn summary_text(s: &ReplaySummary) -> (r: String)
    ensures
        r@ == summary_chars(*s),
{
    let mut r = "\nSummary: ".to_owned();
    r.append(count_text(s.total_markets as u64).as_str());
    r.append(" markets, ");
    r.append(count_text(s.decision_changes as u64).as_str());
    r.append(" decision changes, avg score proxy: ");
    r.append(number_or_na(s.avg_score_proxy).as_str());
    r.append(" (approx)");
    r
}

/// A replay in words: the session, each decision, and the summary.
pub open spec fn replay_lines(s: ReplaySummary, session: Seq<char>) -> Seq<Seq<char>> {
    seq!["\n=== REPLAY: "@ + session + " ==="@] + s.details@.map_values(
        |d: ReplayDetail| detail_line(d),
    ) + seq![summary_chars(s)]
}

/// A replay in words. `session_name` is the name of the session's file, if its path has one.
pub fn replay_summary_lines(summary: &ReplaySummary, session_name: Option<&str>) -> (r: Vec<String>)
    ensures
        texts(r@) == replay_lines(
            *summary,
            match session_name {
                Some(name) => name@,
                None => "unknown"@,
            },
        ),
{
    let name = match session_name {
        Some(name) => name,
        None => "unknown",
    };
    let mut lines: Vec<String> = Vec::new();
    assert(texts(lines@) =~= Seq::empty());
    let mut heading = join2("\n=== REPLAY: ", name);
    heading.append(" ===");
    let ghost first = seq!["\n=== REPLAY: "@ + name@ + " ==="@];
    let ghost in_words = |d: ReplayDetail| detail_line(d);
    let ghost all = summary.details@;
    push_text(&mut lines, heading);
    let mut i: usize = 0;
    assert(texts(lines@) =~= first + all.take(0).map_values(in_words));
    while i < summary.details.len()
        invariant
            i <= summary.details.len(),
            all == summary.details@,
            in_words == (|d: ReplayDetail| detail_line(d)),
            texts(lines@) == first + all.take(i as int).map_values(in_words),
        decreases summary.details.len() - i,
    {
        let detail = &summary.details[i];
        let mut line = detail_text(detail);
        if detail.original_would_trade != detail.replayed_would_trade {
            line.append(" [CHANGED]");
        }
        push_text(&mut lines, line);
        proof {
            assert(all.take(i + 1).map_values(in_words) =~= all.take(i as int).map_values(in_words)
                + seq![detail_line(all[i as int])]);
            assert(texts(lines@) =~= first + all.take(i + 1).map_values(in_words));
        }
        i = i + 1;
    }
    assert(all.take(i as int) =~= all);
    push_text(&mut lines, summary_text(summary));
    lines
}

/// The result of a live probe.
#[derive(Debug)]
pub struct HedgeLiveProbeResult {
    pub scenario_name: String,
    pub expected_success: bool,
    pub halted: bool,
    pub verdict: ProbeVerdict,
    pub observed: ObservedHedgeOutcome,
    pub critical_events: Vec<LiveProbeEventSummary>,
    pub preflight: LiveProbePlan,
    pub trigger: TriggerAcquisitionSummary,
    pub cleanup: CleanupSummary,
}

/// Which probe it is.
pub open spec fn probe_name_chars(p: HedgeLiveProbeResult) -> Seq<char> {
    "=== Hedge Live Probe: "@
        + p.scenario_name@
        + " ==="@
}

fn probe_name_text(p: &HedgeLiveProbeResult) -> (r: String)
    ensures
        r@ == probe_name_chars(*p),
{
    let mut r = "=== Hedge Live Probe: ".to_owned();
    r.append(p.scenario_name.as_str());
    r.append(" ===");
    r
}

/// How it went.
pub open spec fn overall_chars(p: HedgeLiveProbeResult) -> Seq<char> {
    "Overall result: "@
        + pass_chars(p.verdict.passed)
}

fn overall_text(p: &HedgeLiveProbeResult) -> (r: String)
    ensures
        r@ == overall_chars(*p),
{
    let mut r = "Overall result: ".to_owned();
    r.append(pass_text(p.verdict.passed));
    r
}

/// How its parts went.
pub open spec fn parts_chars(p: HedgeLiveProbeResult) -> Seq<char> {
    "Meta pass: "@
        + bool_chars(p.verdict.meta_pass)
        + " | Standard pass: "@
        + bool_chars(p.verdict.standard_pass)
        + " | Cleanup result: "@
        + success_chars(p.cleanup.success)
}

fn parts_text(p: &HedgeLiveProbeResult) -> (r: String)
    ensures
        r@ == parts_chars(*p),
{
    let mut r = "Meta pass: ".to_owned();
    r.append(bool_text(p.verdict.meta_pass));
    r.append(" | Standard pass: ");
    r.append(bool_text(p.verdict.standard_pass));
    r.append(" | Cleanup result: ");
    r.append(success_text(p.cleanup.success));
    r
}

/// What was expected of it.
pub open spec fn successes_chars(p: HedgeLiveProbeResult) -> Seq<char> {
    "Expected success: "@
        + bool_chars(p.expected_success)
        + ", Actual: "@
        + bool_chars(p.verdict.actual_success)
}

fn successes_text(p: &HedgeLiveProbeResult) -> (r: String)
    ensures
        r@ == successes_chars(*p),
{
    let mut r = "Expected success: ".to_owned();
    r.append(bool_text(p.expected_success));
    r.append(", Actual: ");
    r.append(bool_text(p.verdict.actual_success));
    r
}

/// What was planned.
pub open spec fn plan_chars(p: HedgeLiveProbeResult) -> Seq<char> {
    "Preflight: trigger_leg="@
        + leg_chars(p.preflight.trigger_leg)
        + " trigger="@
        + p.preflight.trigger_shares.text_spec()
        + " trigger_limit="@
        + p.preflight.trigger_limit_price.text_spec()
        + " hedge="@
        + p.preflight.planned_hedge_shares.text_spec()
        + " sellback="@
        + p.preflight.planned_sellback_shares.text_spec()
        + " hedge_notional="@
        + p.preflight.planned_hedge_notional_usdc.text_spec()
}

fn plan_text(p: &HedgeLiveProbeResult) -> (r: String)
    ensures
        r@ == plan_chars(*p),
{
    let mut r = "Preflight: trigger_leg=".to_owned();
    r.append(leg_text(p.preflight.trigger_leg));
    r.append(" trigger=");
    r.append(p.preflight.trigger_shares.to_text().as_str());
    r.append(" trigger_limit=");
    r.append(p.preflight.trigger_limit_price.to_text().as_str());
    r.append(" hedge=");
    r.append(p.preflight.planned_hedge_shares.to_text().as_str());
    r.append(" sellback=");
    r.append(p.preflight.planned_sellback_shares.to_text().as_str());
    r.append(" hedge_notional=");
    r.append(p.preflight.planned_hedge_notional_usdc.to_text().as_str());
    r
}

/// What became of the trigger.
pub open spec fn trigger_chars(p: HedgeLiveProbeResult) -> Seq<char> {
    "Trigger: success="@
        + bool_chars(p.trigger.success)
        + " requested="@
        + p.trigger.requested_shares.text_spec()
        + " resolved_trade_shares="@
        + p.trigger.resolved_trade_shares.text_spec()
        + " order_id="@
        + opt_quoted_chars(opt_text(p.trigger.order_id))
        + " placement_status="@
        + opt_quoted_chars(opt_text(p.trigger.placement_status))
        + " trade_ids="@
        + list_chars(texts(p.trigger.trade_ids@))
        + " lookup_status="@
        + opt_quoted_chars(opt_text(p.trigger.lookup_status))
        + " lookup_matched="@
        + opt_number_chars(p.trigger.lookup_matched_shares)
        + " resolved_trade_id="@
        + opt_quoted_chars(opt_text(p.trigger.resolved_trade_id))
        + " ws_trade_observed="@
        + bool_chars(p.trigger.ws_trade_observed)
        + " ws_connected_observed="@
        + bool_chars(p.trigger.ws_connected_observed)
        + " matched_order_events="@
        + count_chars(p.trigger.matched_order_events as nat)
        + " verification_attempts="@
        + count_chars(p.trigger.verification_attempts as nat)
        + " failure_code="@
        + opt_quoted_chars(opt_text(p.trigger.failure_code))
}

fn trigger_text(p: &HedgeLiveProbeResult) -> (r: String)
    ensures
        r@ == trigger_chars(*p),
{
    let mut r = "Trigger: success=".to_owned();
    r.append(bool_text(p.trigger.success));
    r.append(" requested=");
    r.append(p.trigger.requested_shares.to_text().as_str());
    r.append(" resolved_trade_shares=");
    r.append(p.trigger.resolved_trade_shares.to_text().as_str());
    r.append(" order_id=");
    r.append(opt_quoted_text(&p.trigger.order_id).as_str());
    r.append(" placement_status=");
    r.append(opt_quoted_text(&p.trigger.placement_status).as_str());
    r.append(" trade_ids=");
    r.append(list_text(&p.trigger.trade_ids).as_str());
    r.append(" lookup_status=");
    r.append(opt_quoted_text(&p.trigger.lookup_status).as_str());
    r.append(" lookup_matched=");
    r.append(opt_number_text(p.trigger.lookup_matched_shares).as_str());
    r.append(" resolved_trade_id=");
    r.append(opt_quoted_text(&p.trigger.resolved_trade_id).as_str());
    r.append(" ws_trade_observed=");
    r.append(bool_text(p.trigger.ws_trade_observed));
    r.append(" ws_connected_observed=");
    r.append(bool_text(p.trigger.ws_connected_observed));
    r.append(" matched_order_events=");
    r.append(count_text(p.trigger.matched_order_events as u64).as_str());
    r.append(" verification_attempts=");
    r.append(count_text(p.trigger.verification_attempts as u64).as_str());
    r.append(" failure_code=");
    r.append(opt_quoted_text(&p.trigger.failure_code).as_str());
    r
}

/// What became of the cleanup.
pub open spec fn clean_up_chars(p: HedgeLiveProbeResult) -> Seq<char> {
    "Cleanup: attempted="@
        + bool_chars(p.cleanup.attempted)
        + " success="@
        + bool_chars(p.cleanup.success)
        + " status="@
        + cleanup_chars(p.cleanup.status)
        + " clean_end_state="@
        + bool_chars(p.cleanup.clean_end_state)
        + " resting_orders="@
        + count_chars(p.cleanup.resting_order_count as nat)
        + " engine_yes="@
        + opt_number_chars(p.cleanup.final_yes_size)
        + " engine_no="@
        + opt_number_chars(p.cleanup.final_no_size)
        + " direct_yes="@
        + opt_number_chars(p.cleanup.final_direct_yes_size)
        + " direct_no="@
        + opt_number_chars(p.cleanup.final_direct_no_size)
        + " failure_code="@
        + opt_quoted_chars(opt_text(p.cleanup.failure_code))
}

fn clean_up_text(p: &HedgeLiveProbeResult) -> (r: String)
    ensures
        r@ == clean_up_chars(*p),
{
    let mut r = "Cleanup: attempted=".to_owned();
    r.append(bool_text(p.cleanup.attempted));
    r.append(" success=");
    r.append(bool_text(p.cleanup.success));
    r.append(" status=");
    r.append(cleanup_text(p.cleanup.status));
    r.append(" clean_end_state=");
    r.append(bool_text(p.cleanup.clean_end_state));
    r.append(" resting_orders=");
    r.append(count_text(p.cleanup.resting_order_count as u64).as_str());
    r.append(" engine_yes=");
    r.append(opt_number_text(p.cleanup.final_yes_size).as_str());
    r.append(" engine_no=");
    r.append(opt_number_text(p.cleanup.final_no_size).as_str());
    r.append(" direct_yes=");
    r.append(opt_number_text(p.cleanup.final_direct_yes_size).as_str());
    r.append(" direct_no=");
    r.append(opt_number_text(p.cleanup.final_direct_no_size).as_str());
    r.append(" failure_code=");
    r.append(opt_quoted_text(&p.cleanup.failure_code).as_str());
    r
}

/// What was observed.
pub open spec fn observed_chars(p: HedgeLiveProbeResult) -> Seq<char> {
    "Observed: result_status="@
        + opt_quoted_chars(opt_text(p.observed.result_status))
        + ", hedge_side="@
        + opt_side_chars(p.observed.hedge_side)
        + ", planned_hedge_shares="@
        + opt_number_chars(p.observed.planned_hedge_shares)
        + ", planned_sellback_shares="@
        + opt_number_chars(p.observed.planned_sellback_shares)
        + ", post_sync_net_exposure="@
        + opt_number_chars(p.observed.post_sync_net_exposure)
}

fn observed_text(p: &HedgeLiveProbeResult) -> (r: String)
    ensures
        r@ == observed_chars(*p),
{
    let mut r = "Observed: result_status=".to_owned();
    r.append(opt_quoted_text(&p.observed.result_status).as_str());
    r.append(", hedge_side=");
    r.append(opt_side_text(p.observed.hedge_side));
    r.append(", planned_hedge_shares=");
    r.append(opt_number_text(p.observed.planned_hedge_shares).as_str());
    r.append(", planned_sellback_shares=");
    r.append(opt_number_text(p.observed.planned_sellback_shares).as_str());
    r.append(", post_sync_net_exposure=");
    r.append(opt_number_text(p.observed.post_sync_net_exposure).as_str());
    r
}

/// A line for a reason, where there is one.
pub open spec fn reason_line(heading: Seq<char>, reason: Option<Seq<char>>) -> Seq<Seq<char>> {
    match reason {
        Some(reason) => seq![heading + reason],
        None => Seq::empty(),
    }
}

fn push_reason(lines: &mut Vec<String>, heading: &str, reason: &Option<String>)
    ensures
        texts(final(lines)@) == texts(old(lines)@) + reason_line(heading@, opt_text(*reason)),
{
    let ghost before = texts(lines@);
    match reason {
        Some(reason) => push_text(lines, join2(heading, reason.as_str())),
        None => {
            assert(before + reason_line(heading@, None) =~= before);
        },
    }
}

/// A probe in words.
pub open spec fn probe_lines(p: HedgeLiveProbeResult) -> Seq<Seq<char>> {
    seq![
        probe_name_chars(p),
        overall_chars(p),
        parts_chars(p),
        successes_chars(p),
        plan_chars(p),
        trigger_chars(p),
    ] + reason_line("Trigger failure: "@, opt_text(p.trigger.failure_reason)) + seq![
        clean_up_chars(p),
    ] + reason_line("Cleanup failure: "@, opt_text(p.cleanup.failure_reason)) + seq![
        observed_chars(p),
    ] + listing("Meta failures:"@, texts(p.verdict.meta_failures@)) + listing(
        "Standard mismatches:"@,
        texts(p.verdict.standard_mismatches@),
    )
}

/// A probe in words.
pub fn probe_report_lines(p: &HedgeLiveProbeResult) -> (r: Vec<String>)
    ensures
        texts(r@) == probe_lines(*p),
{
    let mut lines: Vec<String> = Vec::new();
    assert(texts(lines@) =~= Seq::empty());
    push_text(&mut lines, probe_name_text(p));
    push_text(&mut lines, overall_text(p));
    push_text(&mut lines, parts_text(p));
    push_text(&mut lines, successes_text(p));
    push_text(&mut lines, plan_text(p));
    push_text(&mut lines, trigger_text(p));
    assert(texts(lines@) =~= seq![
        probe_name_chars(*p),
        overall_chars(*p),
        parts_chars(*p),
        successes_chars(*p),
        plan_chars(*p),
        trigger_chars(*p),
    ]);
    push_reason(&mut lines, "Trigger failure: ", &p.trigger.failure_reason);
    push_text(&mut lines, clean_up_text(p));
    push_reason(&mut lines, "Cleanup failure: ", &p.cleanup.failure_reason);
    push_text(&mut lines, observed_text(p));
    push_listing(&mut lines, "Meta failures:", &p.verdict.meta_failures);
    push_listing(&mut lines, "Standard mismatches:", &p.verdict.standard_mismatches);
    lines
}

/// The trigger that will be placed.
pub open spec fn planned_trigger_chars(plan: LiveProbePlan) -> Seq<char> {
    "trigger: leg="@
        + leg_chars(plan.trigger_leg)
        + " shares="@
        + plan.trigger_shares.text_spec()
        + " best_ask="@
        + plan.trigger_snapshot_ask_price.text_spec()
        + " limit="@
        + plan.trigger_limit_price.text_spec()
        + " notional="@
        + plan.trigger_notional_usdc.text_spec()
}

fn planned_trigger_text(plan: &LiveProbePlan) -> (r: String)
    ensures
        r@ == planned_trigger_chars(*plan),
{
    let mut r = "trigger: leg=".to_owned();
    r.append(leg_text(plan.trigger_leg));
    r.append(" shares=");
    r.append(plan.trigger_shares.to_text().as_str());
    r.append(" best_ask=");
    r.append(plan.trigger_snapshot_ask_price.to_text().as_str());
    r.append(" limit=");
    r.append(plan.trigger_limit_price.to_text().as_str());
    r.append(" notional=");
    r.append(plan.trigger_notional_usdc.to_text().as_str());
    r
}

/// The hedge that is expected.
pub open spec fn planned_hedge_chars(plan: LiveProbePlan) -> Seq<char> {
    "hedge preflight: side="@
        + side_chars(plan.hedge_side)
        + " hedge_shares="@
        + plan.planned_hedge_shares.text_spec()
        + " sellback_shares="@
        + plan.planned_sellback_shares.text_spec()
        + " hedge_notional="@
        + plan.planned_hedge_notional_usdc.text_spec()
        + " available_hedge_usdc_after_trigger="@
        + plan.available_hedge_usdc_after_trigger.text_spec()
}

fn planned_hedge_text(plan: &LiveProbePlan) -> (r: String)
    ensures
        r@ == planned_hedge_chars(*plan),
{
    let mut r = "hedge preflight: side=".to_owned();
    r.append(side_text(plan.hedge_side));
    r.append(" hedge_shares=");
    r.append(plan.planned_hedge_shares.to_text().as_str());
    r.append(" sellback_shares=");
    r.append(plan.planned_sellback_shares.to_text().as_str());
    r.append(" hedge_notional=");
    r.append(plan.planned_hedge_notional_usdc.to_text().as_str());
    r.append(" available_hedge_usdc_after_trigger=");
    r.append(plan.available_hedge_usdc_after_trigger.to_text().as_str());
    r
}

/// What is said before a probe places real orders.
pub open spec fn warning_lines(
    scenario: HedgeLiveProbeScenario,
    plan: LiveProbePlan,
    ctf_merge_enabled: bool,
) -> Seq<Seq<char>> {
    seq![
        "\n!!! LIVE PAIRED HEDGE PROBE WILL PLACE REAL ORDERS !!!"@,
        "market: "@ + scenario.market.condition_id@,
        "question: "@ + match scenario.market.question {
            Some(question) => question@,
            None => "<unknown>"@,
        },
        planned_trigger_chars(plan),
        planned_hedge_chars(plan),
        "cleanup mode: out_of_band merge_or_flatten after verdict (ctf_merge_enabled="@
            + bool_chars(ctf_merge_enabled) + ")\n"@,
    ]
}

/// What is said before a probe places real orders.
pub fn warning_banner_lines(
    scenario: &HedgeLiveProbeScenario,
    plan: &LiveProbePlan,
    ctf_merge_enabled: bool,
) -> (r: Vec<String>)
    ensures
        texts(r@) == warning_lines(*scenario, *plan, ctf_merge_enabled),
{
    let mut lines: Vec<String> = Vec::new();
    assert(texts(lines@) =~= Seq::empty());
    push_text(
        &mut lines,
        "\n!!! LIVE PAIRED HEDGE PROBE WILL PLACE REAL ORDERS !!!".to_owned(),
    );
    push_text(&mut lines, join2("market: ", scenario.market.condition_id.as_str()));
    let question = match &scenario.market.question {
        Some(question) => question.as_str(),
        None => "<unknown>",
    };
    push_text(&mut lines, join2("question: ", question));
    push_text(&mut lines, planned_trigger_text(plan));
    push_text(&mut lines, planned_hedge_text(plan));
    let mut mode = join2(
        "cleanup mode: out_of_band merge_or_flatten after verdict (ctf_merge_enabled=",
        bool_text(ctf_merge_enabled),
    );
    mode.append(")\n");
    push_text(&mut lines, mode);
    assert(texts(lines@) =~= warning_lines(*scenario, *plan, ctf_merge_enabled));
    lines
}

} // verus!
