//! Buying the position that a probe hedges, and telling whether that happened.

use crate::decimal::{
    difference, floor_value, lemma_whole_cents, mantissa_bound, max_of, max_value, min_of, value_of,
    Decimal,
};
use crate::models::{
    LiveOrder, OrderAmountKind, OrderRequest, OrderResult, OrderStatus, OrderType, Position,
    QuoteLeg, Side,
};
use crate::runtime::hedge_live_probe::preflight::{
    ensure_supported_trigger_creation_leg, LiveProbePlan, PreflightError,
};
use crate::runtime::hedge_live_probe::{
    leg_is_yes, opposite_token_id_for_leg, outcome_for_leg, token_id_for_leg,
    HedgeLiveProbeScenario, LiveProbeRuntimeOptions,
};
use crate::text::{
    clone_opt_text, clone_texts, contains_text, count_chars, count_text, join2, join_texts, joined,
    opt_text, same_text, texts,
};
use crate::time::Timestamp;
use crate::trading::client::CancelOrderOutcome;
use crate::trading::hedge_executor::{cuttable, normalize_share_size, whole_cents};
use crate::trading::order_manager::placement::build_tracked_order;
use crate::trading::order_manager::{TrackedOrder, TrackedView};
use vstd::prelude::*;
use vstd::string::*;

verus! {

/// What became of the attempt to buy the trigger position.
#[derive(Debug)]
pub struct TriggerAcquisitionSummary {
    pub attempted: bool,
    pub success: bool,
    pub order_id: Option<String>,
    pub requested_shares: Decimal,
    pub resolved_trade_shares: Decimal,
    pub limit_price: Decimal,
    pub snapshot_ask_price: Decimal,
    pub placement_status: Option<String>,
    pub trade_ids: Vec<String>,
    pub transaction_hashes: Vec<String>,
    pub placement_taking_shares: Option<Decimal>,
    pub lookup_status: Option<String>,
    pub lookup_matched_shares: Option<Decimal>,
    pub resolved_trade_id: Option<String>,
    pub ws_trade_observed: bool,
    pub ws_connected_observed: bool,
    pub matched_order_events: u64,
    pub verification_attempts: u64,
    pub failure_code: Option<String>,
    pub failure_reason: Option<String>,
}

/// The summary as plain texts and values.
pub struct SummaryView {
    pub attempted: bool,
    pub success: bool,
    pub order_id: Option<Seq<char>>,
    pub requested_shares: int,
    pub resolved_trade_shares: int,
    pub limit_price: int,
    pub snapshot_ask_price: int,
    pub placement_status: Option<Seq<char>>,
    pub trade_ids: Seq<Seq<char>>,
    pub transaction_hashes: Seq<Seq<char>>,
    pub placement_taking_shares: Option<int>,
    pub lookup_status: Option<Seq<char>>,
    pub lookup_matched_shares: Option<int>,
    pub resolved_trade_id: Option<Seq<char>>,
    pub ws_trade_observed: bool,
    pub ws_connected_observed: bool,
    pub matched_order_events: int,
    pub verification_attempts: int,
    pub failure_code: Option<Seq<char>>,
    pub failure_reason: Option<Seq<char>>,
}

impl View for TriggerAcquisitionSummary {
    type V = SummaryView;

    open spec fn view(&self) -> SummaryView {
        SummaryView {
            attempted: self.attempted,
            success: self.success,
            order_id: opt_text(self.order_id),
            requested_shares: self.requested_shares@,
            resolved_trade_shares: self.resolved_trade_shares@,
            limit_price: self.limit_price@,
            snapshot_ask_price: self.snapshot_ask_price@,
            placement_status: opt_text(self.placement_status),
            trade_ids: texts(self.trade_ids@),
            transaction_hashes: texts(self.transaction_hashes@),
            placement_taking_shares: value_of(self.placement_taking_shares),
            lookup_status: opt_text(self.lookup_status),
            lookup_matched_shares: value_of(self.lookup_matched_shares),
            resolved_trade_id: opt_text(self.resolved_trade_id),
            ws_trade_observed: self.ws_trade_observed,
            ws_connected_observed: self.ws_connected_observed,
            matched_order_events: self.matched_order_events as int,
            verification_attempts: self.verification_attempts as int,
            failure_code: opt_text(self.failure_code),
            failure_reason: opt_text(self.failure_reason),
        }
    }
}

/// The trigger order as it is tracked, the answer to its placement, and the summary.
#[derive(Debug)]
pub struct TriggerAcquisitionOutcome {
    pub tracked_order: Option<TrackedOrder>,
    pub order_result: Option<OrderResult>,
    pub summary: TriggerAcquisitionSummary,
}

/// What the user stream showed of the trigger order.
#[derive(Debug)]
pub struct ScopedLiveRunnerReport {
    pub matched_trigger_trade_ids: Vec<String>,
    pub matched_trigger_trade_shares: Decimal,
    pub matched_trigger_order_events: u64,
    pub connected_observed: bool,
    pub used_normal_post_hedge_mode: bool,
}

/// What looking the trigger order up showed.
#[derive(Debug)]
pub struct TriggerDiagnostics {
    pub live_order: Option<LiveOrder>,
    pub known_trade_ids: Vec<String>,
    pub direct_truth_acquired_shares: Decimal,
}

/// Which events of the user stream belong to the trigger.
#[derive(Debug)]
pub struct ScopedLiveTriggerBinding {
    pub order_id: String,
    pub condition_id: String,
    pub asset_id: String,
    pub side: Side,
    pub outcome: String,
}

pub open spec fn status_chars(status: OrderStatus) -> Seq<char> {
    match status {
        OrderStatus::Live => "Live"@,
        OrderStatus::Matched => "Matched"@,
        OrderStatus::Delayed => "Delayed"@,
        OrderStatus::Cancelled => "Cancelled"@,
        OrderStatus::Invalid => "Invalid"@,
    }
}

/// Name of an order status.
pub fn status_name(status: OrderStatus) -> (r: &'static str)
    ensures
        r@ == status_chars(status),
{
    match status {
        OrderStatus::Live => "Live",
        OrderStatus::Matched => "Matched",
        OrderStatus::Delayed => "Delayed",
        OrderStatus::Cancelled => "Cancelled",
        OrderStatus::Invalid => "Invalid",
    }
}

pub open spec fn status_of_chars(s: Seq<char>) -> Option<OrderStatus> {
    if s == "Live"@ {
        Some(OrderStatus::Live)
    } else if s == "Matched"@ {
        Some(OrderStatus::Matched)
    } else if s == "Delayed"@ {
        Some(OrderStatus::Delayed)
    } else if s == "Cancelled"@ {
        Some(OrderStatus::Cancelled)
    } else if s == "Invalid"@ {
        Some(OrderStatus::Invalid)
    } else {
        None
    }
}

/// The order status of that name.
pub fn parse_lookup_order_status(status: &str) -> (r: Option<OrderStatus>)
    ensures
        r == status_of_chars(status@),
{
    if same_text(status, "Live") {
        Some(OrderStatus::Live)
    } else if same_text(status, "Matched") {
        Some(OrderStatus::Matched)
    } else if same_text(status, "Delayed") {
        Some(OrderStatus::Delayed)
    } else if same_text(status, "Cancelled") {
        Some(OrderStatus::Cancelled)
    } else if same_text(status, "Invalid") {
        Some(OrderStatus::Invalid)
    } else {
        None
    }
}

/// Reading the name of a status gives the status back.
pub proof fn law_status_name_round_trip(status: OrderStatus)
    ensures
        status_of_chars(status_chars(status)) == Some(status),
{
    reveal_strlit("Live");
    reveal_strlit("Matched");
    reveal_strlit("Delayed");
    reveal_strlit("Cancelled");
    reveal_strlit("Invalid");
    assert("Live"@[0] == 'L' && "Matched"@[0] == 'M' && "Delayed"@[0] == 'D' && "Cancelled"@[0]
        == 'C' && "Invalid"@[0] == 'I');
}

/// `target` followed by what is new in `extra`, without empty ids.
pub open spec fn merged_ids(target: Seq<Seq<char>>, extra: Seq<Seq<char>>) -> Seq<Seq<char>>
    decreases extra.len(),
{
    if extra.len() == 0 {
        target
    } else {
        let rest = merged_ids(target, extra.drop_last());
        if extra.last().len() == 0 || rest.contains(extra.last()) {
            rest
        } else {
            rest.push(extra.last())
        }
    }
}

pub fn merge_trade_ids(target: &mut Vec<String>, extra: &Vec<String>)
    ensures
        texts(final(target)@) == merged_ids(texts(old(target)@), texts(extra@)),
{
    let ghost start = texts(target@);
    let ghost all = texts(extra@);
    let mut i: usize = 0;
    while i < extra.len()
        invariant
            i <= extra.len(),
            all == texts(extra@),
            texts(target@) == merged_ids(start, all.take(i as int)),
        decreases extra.len() - i,
    {
        let ghost before = texts(target@);
        assert(all.take(i + 1).drop_last() =~= all.take(i as int));
        assert(all.take(i + 1).last() == extra@[i as int]@);
        if !extra[i].as_str().is_empty() && !contains_text(&*target, extra[i].as_str()) {
            target.push(extra[i].clone());
            assert(texts(target@) =~= before.push(extra@[i as int]@));
        }
        i = i + 1;
    }
    assert(all.take(i as int) =~= all);
}

/// Merging keeps every id that was there and adds every id that is not empty.
pub proof fn law_merged_ids_complete(target: Seq<Seq<char>>, extra: Seq<Seq<char>>, id: Seq<char>)
    ensures
        merged_ids(target, extra).contains(id) <==> target.contains(id) || (extra.contains(id)
            && id.len() > 0),
    decreases extra.len(),
{
    if extra.len() > 0 {
        law_merged_ids_complete(target, extra.drop_last(), id);
        law_merged_ids_complete(target, extra.drop_last(), extra.last());
        let rest = merged_ids(target, extra.drop_last());
        assert(extra =~= extra.drop_last().push(extra.last()));
        lemma_push(extra.drop_last(), extra.last(), id);
        lemma_push(rest, extra.last(), id);
    }
}

proof fn lemma_push(s: Seq<Seq<char>>, a: Seq<char>, x: Seq<char>)
    ensures
        s.push(a).contains(x) <==> s.contains(x) || x == a,
{
    assert(s.push(a)[s.len() as int] == a);
    if s.contains(x) {
        let k = choose|k: int| 0 <= k < s.len() && s[k] == x;
        assert(s.push(a)[k] == x);
    }
    if s.push(a).contains(x) && x != a {
        let k = choose|k: int| 0 <= k < s.push(a).len() && s.push(a)[k] == x;
        assert(s[k] == x);
    }
}

/// A value that counts as zero where it is missing.
pub open spec fn or_zero(d: Option<Decimal>) -> int {
    match d {
        Some(d) => d@,
        None => 0,
    }
}

fn value_or_zero(d: Option<Decimal>) -> (r: Decimal)
    ensures
        r@ == or_zero(d),
{
    match d {
        Some(d) => d,
        None => Decimal::zero(),
    }
}

/// Something shows that the trigger order executed.
pub open spec fn executed(
    placement_status: OrderStatus,
    lookup_status: Option<OrderStatus>,
    lookup_matched: int,
    trade_ids: int,
    resolved: int,
) -> bool {
    ||| resolved > 0
    ||| trade_ids > 0
    ||| placement_status == OrderStatus::Matched
    ||| lookup_status == Some(OrderStatus::Matched)
    ||| lookup_matched > 0
}

pub fn trigger_has_positive_execution_evidence(
    placement_status: OrderStatus,
    lookup_status: Option<OrderStatus>,
    lookup_matched_shares: Option<Decimal>,
    trade_ids: &Vec<String>,
    resolved_trade_shares: Decimal,
) -> (r: bool)
    ensures
        r == executed(
            placement_status,
            lookup_status,
            or_zero(lookup_matched_shares),
            trade_ids@.len() as int,
            resolved_trade_shares@,
        ),
{
    let looked_up_matched = match lookup_status {
        Some(status) => status == OrderStatus::Matched,
        None => false,
    };
    resolved_trade_shares > Decimal::zero() || trade_ids.len() > 0 || placement_status
        == OrderStatus::Matched || looked_up_matched || value_or_zero(lookup_matched_shares)
        > Decimal::zero()
}

pub fn trigger_order_result_has_positive_execution_evidence(order_result: &OrderResult) -> (r: bool)
    ensures
        r == (order_result.status == OrderStatus::Matched || order_result.trade_ids@.len() > 0
            || or_zero(order_result.taking_amount) > 0),
{
    order_result.status == OrderStatus::Matched || order_result.trade_ids.len() > 0
        || value_or_zero(order_result.taking_amount) > Decimal::zero()
}

/// Whether the user stream is watched longer: the order seems to have executed, and no trade was
/// seen.
pub fn should_extend_trigger_ws_observation(
    placed_trigger: &TriggerAcquisitionOutcome,
    runtime_report: &ScopedLiveRunnerReport,
) -> (r: bool)
    ensures
        r == (placed_trigger.order_result matches Some(result)
            && runtime_report.matched_trigger_trade_ids@.len() == 0 && (result.status
            == OrderStatus::Matched || result.trade_ids@.len() > 0 || or_zero(result.taking_amount)
            > 0 || runtime_report.matched_trigger_order_events > 0)),
{
    match &placed_trigger.order_result {
        Some(result) => runtime_report.matched_trigger_trade_ids.len() == 0
            && (trigger_order_result_has_positive_execution_evidence(result)
            || runtime_report.matched_trigger_order_events > 0),
        None => false,
    }
}

/// How long the user stream has been watched for the trigger.
#[derive(Clone, Copy, Debug, PartialEq, Eq, Structural)]
pub enum TriggerWatch {
    Placed,
    Watched,
    Extended,
}

/// What follows in watching the user stream: milliseconds to wait, or the end.
pub open spec fn watch_ms(
    watch: TriggerWatch,
    has_order: bool,
    extend: bool,
    options: LiveProbeRuntimeOptions,
) -> Option<u64> {
    match watch {
        TriggerWatch::Placed => if has_order {
            Some(options.ws_event_timeout_ms)
        } else {
            None
        },
        TriggerWatch::Watched => if extend {
            Some(options.ws_ambiguous_trigger_grace_ms)
        } else {
            None
        },
        TriggerWatch::Extended => None,
    }
}

/// How long to go on watching the user stream: not at all without an order, and beyond the timeout
/// only while the order seems to have executed without a trade.
pub fn watch_trigger(
    watch: TriggerWatch,
    placed_trigger: &TriggerAcquisitionOutcome,
    runtime_report: &ScopedLiveRunnerReport,
    options: &LiveProbeRuntimeOptions,
) -> (r: Option<u64>)
    ensures
        r == watch_ms(
            watch,
            placed_trigger.summary.order_id is Some,
            placed_trigger.order_result matches Some(result)
                && runtime_report.matched_trigger_trade_ids@.len() == 0 && (result.status
                == OrderStatus::Matched || result.trade_ids@.len() > 0 || or_zero(
                result.taking_amount,
            ) > 0 || runtime_report.matched_trigger_order_events > 0),
            *options,
        ),
{
    match watch {
        TriggerWatch::Placed => match &placed_trigger.summary.order_id {
            Some(_) => Some(options.ws_event_timeout_ms),
            None => None,
        },
        TriggerWatch::Watched => if should_extend_trigger_ws_observation(
            placed_trigger,
            runtime_report,
        ) {
            Some(options.ws_ambiguous_trigger_grace_ms)
        } else {
            None
        },
        TriggerWatch::Extended => None,
    }
}

/// The order buys the trigger position as planned.
pub open spec fn buys_trigger(
    request: OrderRequest,
    scenario: HedgeLiveProbeScenario,
    plan: LiveProbePlan,
) -> bool {
    &&& request.token_id@ == plan.trigger_token_id@
    &&& request.price@ == plan.trigger_limit_price@
    &&& request.size@ == whole_cents(scenario.trigger.shares@)
    &&& request.amount_kind == OrderAmountKind::Shares
    &&& request.side == Side::Buy
    &&& request.order_type == OrderType::GTC
    &&& !request.post_only
    &&& request.neg_risk == scenario.market.neg_risk
    &&& request.tick_size@ == scenario.market.tick_size@
}

/// The order that buys the trigger position, which can only be on a bid's leg.
pub fn trigger_request(scenario: &HedgeLiveProbeScenario, plan: &LiveProbePlan) -> (r: Result<
    OrderRequest,
    PreflightError,
>)
    requires
        cuttable(scenario.trigger.shares@),
    ensures
        match r {
            Ok(request) => scenario.trigger.leg.bids() && buys_trigger(request, *scenario, *plan),
            Err(e) => !scenario.trigger.leg.bids() && e == PreflightError::UnsupportedLeg(
                scenario.trigger.leg,
            ),
        },
{
    match ensure_supported_trigger_creation_leg(scenario.trigger.leg) {
        Ok(_) => {},
        Err(e) => {
            return Err(e);
        },
    }
    Ok(
        OrderRequest {
            token_id: plan.trigger_token_id.clone(),
            price: plan.trigger_limit_price,
            size: normalize_share_size(scenario.trigger.shares),
            amount_kind: OrderAmountKind::Shares,
            side: Side::Buy,
            order_type: OrderType::GTC,
            post_only: false,
            neg_risk: scenario.market.neg_risk,
            tick_size: scenario.market.tick_size.clone(),
        },
    )
}

/// The summary of a trigger order of which nothing has been seen yet.
pub open spec fn unseen(scenario: HedgeLiveProbeScenario, plan: LiveProbePlan) -> SummaryView {
    SummaryView {
        attempted: true,
        success: false,
        order_id: None,
        requested_shares: whole_cents(scenario.trigger.shares@),
        resolved_trade_shares: 0,
        limit_price: plan.trigger_limit_price@,
        snapshot_ask_price: plan.trigger_snapshot_ask_price@,
        placement_status: None,
        trade_ids: Seq::empty(),
        transaction_hashes: Seq::empty(),
        placement_taking_shares: None,
        lookup_status: None,
        lookup_matched_shares: None,
        resolved_trade_id: None,
        ws_trade_observed: false,
        ws_connected_observed: false,
        matched_order_events: 0,
        verification_attempts: 0,
        failure_code: None,
        failure_reason: None,
    }
}

/// The summary after the answer to the placement.
pub open spec fn placed_summary(
    scenario: HedgeLiveProbeScenario,
    plan: LiveProbePlan,
    placement: Result<OrderResult, String>,
) -> SummaryView {
    match placement {
        Ok(result) => SummaryView {
            order_id: if result.order_id@.len() == 0 {
                None
            } else {
                Some(result.order_id@)
            },
            placement_status: Some(status_chars(result.status)),
            trade_ids: texts(result.trade_ids@),
            transaction_hashes: texts(result.transaction_hashes@),
            placement_taking_shares: value_of(result.taking_amount),
            failure_code: if result.order_id@.len() == 0 {
                Some("trigger_order_missing_id"@)
            } else {
                None
            },
            failure_reason: if result.order_id@.len() == 0 {
                Some("trigger placement returned no order_id"@)
            } else {
                None
            },
            ..unseen(scenario, plan)
        },
        Err(error) => SummaryView {
            failure_code: Some("trigger_order_placement_failed"@),
            failure_reason: Some("trigger order placement failed: "@ + error@),
            ..unseen(scenario, plan)
        },
    }
}

/// The trigger order as it is tracked.
pub open spec fn trigger_order(
    scenario: HedgeLiveProbeScenario,
    plan: LiveProbePlan,
    order_id: Seq<char>,
    trace_id: Seq<char>,
    created_at: Timestamp,
) -> TrackedView {
    let yes = leg_is_yes(scenario.trigger.leg);
    TrackedView {
        order_id,
        trace_id: "hedge-live-probe-trigger-"@ + trace_id,
        condition_id: scenario.market.condition_id@,
        created_at,
        leg: scenario.trigger.leg,
        token_id: if yes {
            scenario.market.yes_token_id@
        } else {
            scenario.market.no_token_id@
        },
        opposite_token_id: if yes {
            scenario.market.no_token_id@
        } else {
            scenario.market.yes_token_id@
        },
        side: Side::Buy,
        price: plan.trigger_limit_price@,
        size: whole_cents(scenario.trigger.shares@),
        matched_size: 0,
        neg_risk: scenario.market.neg_risk,
        tick_size: scenario.market.tick_size@,
    }
}

/// What the answer to the placement of the trigger order makes of it: an order is tracked only if
/// it has an id.
pub fn acquire_trigger_position(
    scenario: &HedgeLiveProbeScenario,
    plan: &LiveProbePlan,
    placement: Result<OrderResult, String>,
    trace_id: &str,
    created_at: Timestamp,
) -> (r: TriggerAcquisitionOutcome)
    requires
        scenario.trigger.leg.bids(),
        cuttable(scenario.trigger.shares@),
    ensures
        r.summary@ == placed_summary(*scenario, *plan, placement),
        match placement {
            Ok(result) => r.order_result == Some(result),
            Err(_) => r.order_result is None,
        },
        match placement {
            Ok(result) => if result.order_id@.len() == 0 {
                r.tracked_order is None
            } else {
                r.tracked_order is Some && r.tracked_order->0@ == trigger_order(
                    *scenario,
                    *plan,
                    result.order_id@,
                    trace_id@,
                    created_at,
                )
            },
            Err(_) => r.tracked_order is None,
        },
{
    let requested_shares = normalize_share_size(scenario.trigger.shares);
    let mut summary = TriggerAcquisitionSummary {
        attempted: true,
        success: false,
        order_id: None,
        requested_shares,
        resolved_trade_shares: Decimal::zero(),
        limit_price: plan.trigger_limit_price,
        snapshot_ask_price: plan.trigger_snapshot_ask_price,
        placement_status: None,
        trade_ids: Vec::new(),
        transaction_hashes: Vec::new(),
        placement_taking_shares: None,
        lookup_status: None,
        lookup_matched_shares: None,
        resolved_trade_id: None,
        ws_trade_observed: false,
        ws_connected_observed: false,
        matched_order_events: 0,
        verification_attempts: 0,
        failure_code: None,
        failure_reason: None,
    };
    assert(summary@.trade_ids =~= Seq::empty());
    assert(summary@.transaction_hashes =~= Seq::empty());
    match placement {
        Err(error) => {
            summary.failure_code = Some("trigger_order_placement_failed".to_owned());
            summary.failure_reason = Some(join2("trigger order placement failed: ", error.as_str()));
            TriggerAcquisitionOutcome { tracked_order: None, order_result: None, summary }
        },
        Ok(result) => {
            summary.placement_status = Some(status_name(result.status).to_owned());
            summary.trade_ids = clone_texts(&result.trade_ids);
            summary.transaction_hashes = clone_texts(&result.transaction_hashes);
            summary.placement_taking_shares = result.taking_amount;
            if result.order_id.as_str().is_empty() {
                summary.failure_code = Some("trigger_order_missing_id".to_owned());
                summary.failure_reason = Some("trigger placement returned no order_id".to_owned());
                return TriggerAcquisitionOutcome {
                    tracked_order: None,
                    order_result: Some(result),
                    summary,
                };
            }
            summary.order_id = Some(result.order_id.clone());
            let order = build_tracked_order(
                result.order_id.clone(),
                join2("hedge-live-probe-trigger-", trace_id),
                created_at,
                scenario.market.condition_id.clone(),
                scenario.trigger.leg,
                token_id_for_leg(scenario.trigger.leg, &scenario.market),
                opposite_token_id_for_leg(scenario.trigger.leg, &scenario.market),
                Side::Buy,
                plan.trigger_limit_price,
                requested_shares,
                Decimal::zero(),
                scenario.market.neg_risk,
                scenario.market.tick_size.clone(),
            );
            TriggerAcquisitionOutcome {
                tracked_order: Some(order),
                order_result: Some(result),
                summary,
            }
        },
    }
}

/// Which events of the user stream belong to the trigger order.
pub fn build_scoped_trigger_binding(scenario: &HedgeLiveProbeScenario, trigger_order_id: &str) -> (r:
    ScopedLiveTriggerBinding)
    ensures
        r.order_id@ == trigger_order_id@,
        r.condition_id@ == scenario.market.condition_id@,
        r.asset_id@ == if leg_is_yes(scenario.trigger.leg) {
            scenario.market.yes_token_id@
        } else {
            scenario.market.no_token_id@
        },
        r.side == Side::Buy,
        r.outcome@ == if leg_is_yes(scenario.trigger.leg) {
            "YES"@
        } else {
            "NO"@
        },
{
    ScopedLiveTriggerBinding {
        order_id: trigger_order_id.to_owned(),
        condition_id: scenario.market.condition_id.clone(),
        asset_id: token_id_for_leg(scenario.trigger.leg, &scenario.market),
        side: Side::Buy,
        outcome: outcome_for_leg(scenario.trigger.leg).to_owned(),
    }
}

pub open spec fn cancel_chars(outcome: CancelOrderOutcome) -> Seq<char> {
    match outcome {
        CancelOrderOutcome::Confirmed => "confirmed"@,
        CancelOrderOutcome::Rejected(reason) => "rejected: "@ + reason@,
        CancelOrderOutcome::Unknown(reason) => "unknown: "@ + reason@,
    }
}

/// What became of the rest of the trigger order, in words.
pub fn cancel_trigger_remainder(outcome: &CancelOrderOutcome) -> (r: String)
    ensures
        r@ == cancel_chars(*outcome),
{
    match outcome {
        CancelOrderOutcome::Confirmed => "confirmed".to_owned(),
        CancelOrderOutcome::Rejected(reason) => join2("rejected: ", reason.as_str()),
        CancelOrderOutcome::Unknown(reason) => join2("unknown: ", reason.as_str()),
    }
}

/// Shares of a token acquired since the baseline.
pub open spec fn acquired(baseline: int, current: int) -> int {
    whole_cents(max_of(difference(current, baseline), 0))
}

pub open spec fn owned_yes(baseline: Position, current: Position) -> int {
    acquired(baseline.yes_size@, current.yes_size@)
}

pub open spec fn owned_no(baseline: Position, current: Position) -> int {
    acquired(baseline.no_size@, current.no_size@)
}

pub open spec fn owned_on(baseline: Position, current: Position, leg: QuoteLeg) -> int {
    if leg_is_yes(leg) {
        owned_yes(baseline, current)
    } else {
        owned_no(baseline, current)
    }
}

/// Two sizes differ by no more than a decimal can hold.
pub open spec fn differ_by_a_decimal(baseline: int, current: int) -> bool {
    -max_value() <= current - baseline <= max_value()
}

/// What `current` has beyond `baseline` can be reckoned and cut to hundredths.
pub open spec fn can_be_acquired(baseline: int, current: int) -> bool {
    -max_value() <= current - baseline && (current - baseline) * 100 <= max_value()
}

/// What a position has beyond the baseline can be reckoned and cut, on either side.
pub open spec fn both_can_be_acquired(baseline: Position, current: Position) -> bool {
    &&& can_be_acquired(baseline.yes_size@, current.yes_size@)
    &&& can_be_acquired(baseline.no_size@, current.no_size@)
}

fn acquired_shares(baseline: Decimal, current: Decimal) -> (r: Decimal)
    requires
        can_be_acquired(baseline@, current@),
    ensures
        r@ == acquired(baseline@, current@),
        0 <= r@,
        cuttable(r@),
{
    proof {
        lemma_whole_cents(mantissa_bound() - 1);
    }
    let beyond = current.minus(baseline).max(Decimal::zero());
    proof {
        lemma_cut_toward_zero(beyond@);
    }
    normalize_share_size(beyond)
}

/// Cutting a number of shares makes it no larger.
proof fn lemma_cut_toward_zero(v: int)
    requires
        0 <= v,
    ensures
        0 <= whole_cents(v) <= v,
{
}

pub fn probe_owned_yes(baseline: &Position, current: &Position) -> (r: Decimal)
    requires
        can_be_acquired(baseline.yes_size@, current.yes_size@),
    ensures
        r@ == owned_yes(*baseline, *current),
        0 <= r@,
        cuttable(r@),
{
    acquired_shares(baseline.yes_size, current.yes_size)
}

pub fn probe_owned_no(baseline: &Position, current: &Position) -> (r: Decimal)
    requires
        can_be_acquired(baseline.no_size@, current.no_size@),
    ensures
        r@ == owned_no(*baseline, *current),
        0 <= r@,
        cuttable(r@),
{
    acquired_shares(baseline.no_size, current.no_size)
}

/// What a position has beyond the baseline on the side of a leg can be reckoned and cut.
pub open spec fn leg_can_be_acquired(baseline: Position, current: Position, leg: QuoteLeg) -> bool {
    if leg_is_yes(leg) {
        can_be_acquired(baseline.yes_size@, current.yes_size@)
    } else {
        can_be_acquired(baseline.no_size@, current.no_size@)
    }
}

pub fn probe_owned_shares(baseline: &Position, current: &Position, leg: QuoteLeg) -> (r: Decimal)
    requires
        leg_can_be_acquired(*baseline, *current, leg),
    ensures
        r@ == owned_on(*baseline, *current, leg),
        0 <= r@,
        cuttable(r@),
{
    match leg {
        QuoteLeg::YesBid | QuoteLeg::YesAsk => probe_owned_yes(baseline, current),
        QuoteLeg::NoBid | QuoteLeg::NoAsk => probe_owned_no(baseline, current),
    }
}

/// Whole pairs acquired since the baseline.
pub open spec fn owned_pairs(baseline: Position, current: Position) -> int {
    floor_value(min_of(owned_yes(baseline, current), owned_no(baseline, current)))
}

pub fn probe_owned_pairs(baseline: &Position, current: &Position) -> (r: Decimal)
    requires
        both_can_be_acquired(*baseline, *current),
    ensures
        r@ == owned_pairs(*baseline, *current),
        0 <= r@,
        cuttable(r@),
{
    probe_owned_yes(baseline, current).min(probe_owned_no(baseline, current)).floor()
}

pub open spec fn or_missing(t: Option<Seq<char>>) -> Seq<char> {
    match t {
        Some(t) => t,
        None => "missing"@,
    }
}

fn text_or_missing(t: &Option<String>) -> (r: String)
    ensures
        r@ == or_missing(opt_text(*t)),
{
    match t {
        Some(t) => t.clone(),
        None => "missing".to_owned(),
    }
}

/// Why a trigger of the wrong size is a failure: its code and the reason.
pub open spec fn size_mismatch(requested: Decimal, resolved: Decimal, cancel: Option<Seq<char>>) -> Option<
    (Seq<char>, Seq<char>),
> {
    if resolved@ == requested@ {
        None
    } else if resolved@ < requested@ {
        Some(
            (
                "trigger_partial_fill"@,
                "trigger_partial_fill: requested "@ + requested.text_spec()
                    + " normalized shares but matching user-stream trades resolved only "@
                    + resolved.text_spec() + " (cancel_outcome="@ + or_missing(cancel) + ")"@,
            ),
        )
    } else {
        Some(
            (
                "trigger_overshoot"@,
                "trigger_overshoot: requested "@ + requested.text_spec()
                    + " normalized shares but matching user-stream trades resolved "@
                    + resolved.text_spec() + " (cancel_outcome="@ + or_missing(cancel) + ")"@,
            ),
        )
    }
}

pub fn trigger_size_mismatch_details(
    requested_shares: Decimal,
    resolved_trade_shares: Decimal,
    cancel_outcome: &Option<String>,
) -> (r: Option<(&'static str, String)>)
    ensures
        match size_mismatch(requested_shares, resolved_trade_shares, opt_text(*cancel_outcome)) {
            Some(m) => r is Some && (r->0).0@ == m.0 && (r->0).1@ == m.1,
            None => r is None,
        },
{
    if resolved_trade_shares == requested_shares {
        return None;
    }
    let cancel = text_or_missing(cancel_outcome);
    let requested = requested_shares.to_text();
    let resolved = resolved_trade_shares.to_text();
    if resolved_trade_shares < requested_shares {
        let mut reason = "trigger_partial_fill: requested ".to_owned();
        reason.append(requested.as_str());
        reason.append(" normalized shares but matching user-stream trades resolved only ");
        reason.append(resolved.as_str());
        reason.append(" (cancel_outcome=");
        reason.append(cancel.as_str());
        reason.append(")");
        return Some(("trigger_partial_fill", reason));
    }
    let mut reason = "trigger_overshoot: requested ".to_owned();
    reason.append(requested.as_str());
    reason.append(" normalized shares but matching user-stream trades resolved ");
    reason.append(resolved.as_str());
    reason.append(" (cancel_outcome=");
    reason.append(cancel.as_str());
    reason.append(")");
    Some(("trigger_overshoot", reason))
}

/// A decimal as text, zero where it is missing.
pub open spec fn decimal_or_zero_chars(d: Option<Decimal>) -> Seq<char> {
    match d {
        Some(d) => d.text_spec(),
        None => crate::decimal::decimal_text(0, 0),
    }
}

fn decimal_or_zero_text(d: Option<Decimal>) -> (r: String)
    ensures
        r@ == decimal_or_zero_chars(d),
{
    match d {
        Some(d) => d.to_text(),
        None => Decimal::zero().to_text(),
    }
}

/// All that is known of a trigger order without a trade on the user stream.
pub struct TriggerEvidence<'a> {
    pub placement_status: Option<String>,
    pub placement_taking_shares: Option<Decimal>,
    pub lookup_status: Option<String>,
    pub lookup_matched_shares: Option<Decimal>,
    pub trade_ids: &'a Vec<String>,
    pub direct_acquired_shares: Decimal,
    pub matched_order_events: u64,
    pub cancel_outcome: &'a Option<String>,
}

/// Something other than the user stream shows that the trigger order executed.
pub open spec fn seen_elsewhere(e: TriggerEvidence) -> bool {
    ||| executed(
        match opt_text(e.placement_status) {
            Some(t) => match status_of_chars(t) {
                Some(status) => status,
                None => OrderStatus::Invalid,
            },
            None => OrderStatus::Invalid,
        },
        match opt_text(e.lookup_status) {
            Some(t) => status_of_chars(t),
            None => None,
        },
        or_zero(e.lookup_matched_shares),
        e.trade_ids@.len() as int,
        or_zero(e.placement_taking_shares),
    )
    ||| e.direct_acquired_shares@ > 0
    ||| e.matched_order_events > 0
}

/// Why a trigger without a trade on the user stream is a failure: its code and the reason.
pub open spec fn unobserved(e: TriggerEvidence) -> (Seq<char>, Seq<char>) {
    let placement = or_missing(opt_text(e.placement_status));
    let lookup = or_missing(opt_text(e.lookup_status));
    let matched = decimal_or_zero_chars(e.lookup_matched_shares);
    let direct = e.direct_acquired_shares.text_spec();
    let ids = joined(texts(e.trade_ids@), ","@);
    let taking = decimal_or_zero_chars(e.placement_taking_shares);
    let cancel = or_missing(opt_text(*e.cancel_outcome));
    if seen_elsewhere(e) {
        (
            "trigger_ws_not_observed"@,
            "trigger_ws_not_observed: placement/external evidence existed but no matching user-stream trade reached the production path (placement_status="@
                + placement + ", lookup_status="@ + lookup + ", lookup_matched="@ + matched
                + ", direct_truth_acquired="@ + direct + ", trade_ids="@ + ids
                + ", matched_order_events="@ + count_chars(e.matched_order_events as nat)
                + ", placement_taking_shares="@ + taking + ", cancel_outcome="@ + cancel + ")"@,
        )
    } else {
        (
            "trigger_no_fill"@,
            "trigger_no_fill: trigger acquisition created no matching user-stream trade or external execution evidence (placement_status="@
                + placement + ", lookup_status="@ + lookup + ", lookup_matched="@ + matched
                + ", trade_ids="@ + ids + ", direct_truth_acquired="@ + direct
                + ", placement_taking_shares="@ + taking + ", cancel_outcome="@ + cancel + ")"@,
        )
    }
}

pub fn trigger_failure_details(e: &TriggerEvidence) -> (r: (&'static str, String))
    ensures
        r.0@ == unobserved(*e).0,
        r.1@ == unobserved(*e).1,
{
    let placement = text_or_missing(&e.placement_status);
    let lookup = text_or_missing(&e.lookup_status);
    let matched = decimal_or_zero_text(e.lookup_matched_shares);
    let direct = e.direct_acquired_shares.to_text();
    let ids = join_texts(e.trade_ids, ",");
    let taking = decimal_or_zero_text(e.placement_taking_shares);
    let cancel = text_or_missing(e.cancel_outcome);
    let placement_status = match &e.placement_status {
        Some(t) => match parse_lookup_order_status(t.as_str()) {
            Some(status) => status,
            None => OrderStatus::Invalid,
        },
        None => OrderStatus::Invalid,
    };
    let lookup_status = match &e.lookup_status {
        Some(t) => parse_lookup_order_status(t.as_str()),
        None => None,
    };
    if trigger_has_positive_execution_evidence(
        placement_status,
        lookup_status,
        e.lookup_matched_shares,
        e.trade_ids,
        value_or_zero(e.placement_taking_shares),
    ) || e.direct_acquired_shares > Decimal::zero() || e.matched_order_events > 0 {
        let mut reason =
            "trigger_ws_not_observed: placement/external evidence existed but no matching user-stream trade reached the production path (placement_status=".to_owned();
        reason.append(placement.as_str());
        reason.append(", lookup_status=");
        reason.append(lookup.as_str());
        reason.append(", lookup_matched=");
        reason.append(matched.as_str());
        reason.append(", direct_truth_acquired=");
        reason.append(direct.as_str());
        reason.append(", trade_ids=");
        reason.append(ids.as_str());
        reason.append(", matched_order_events=");
        reason.append(count_text(e.matched_order_events).as_str());
        reason.append(", placement_taking_shares=");
        reason.append(taking.as_str());
        reason.append(", cancel_outcome=");
        reason.append(cancel.as_str());
        reason.append(")");
        return ("trigger_ws_not_observed", reason);
    }
    let mut reason =
        "trigger_no_fill: trigger acquisition created no matching user-stream trade or external execution evidence (placement_status=".to_owned();
    reason.append(placement.as_str());
    reason.append(", lookup_status=");
    reason.append(lookup.as_str());
    reason.append(", lookup_matched=");
    reason.append(matched.as_str());
    reason.append(", trade_ids=");
    reason.append(ids.as_str());
    reason.append(", direct_truth_acquired=");
    reason.append(direct.as_str());
    reason.append(", placement_taking_shares=");
    reason.append(taking.as_str());
    reason.append(", cancel_outcome=");
    reason.append(cancel.as_str());
    reason.append(")");
    ("trigger_no_fill", reason)
}

/// Whether the trigger order is looked up once: the user stream did not show all of it.
pub fn needs_lookup(runtime_report: &ScopedLiveRunnerReport, requested_shares: Decimal) -> (r: bool)
    ensures
        r == (runtime_report.matched_trigger_trade_ids@.len() == 0
            || runtime_report.matched_trigger_trade_shares@ != requested_shares@),
{
    runtime_report.matched_trigger_trade_ids.len() == 0
        || runtime_report.matched_trigger_trade_shares != requested_shares
}

/// Takes in one lookup of the trigger order, attempt `attempt` of `retries`. Says whether that was
/// the last one: something shows that it executed, or the attempts are used up.
pub fn collect_trigger_diagnostics(
    order_result: &OrderResult,
    known_trade_ids: &mut Vec<String>,
    live_order: Option<&LiveOrder>,
    attempt: u64,
    retries: u64,
) -> (r: bool)
    requires
        attempt < retries,
    ensures
        texts(final(known_trade_ids)@) == match live_order {
            Some(order) => merged_ids(
                texts(old(known_trade_ids)@),
                texts(order.associated_trade_ids@),
            ),
            None => texts(old(known_trade_ids)@),
        },
        r == (attempt + 1 == retries || executed(
            order_result.status,
            match live_order {
                Some(order) => Some(order.status),
                None => None,
            },
            match live_order {
                Some(order) => order.size_matched@,
                None => 0,
            },
            final(known_trade_ids)@.len() as int,
            0,
        )),
{
    let (lookup_status, lookup_matched) = match live_order {
        Some(order) => {
            merge_trade_ids(known_trade_ids, &order.associated_trade_ids);
            (Some(order.status), Some(order.size_matched))
        },
        None => (None, None),
    };
    trigger_has_positive_execution_evidence(
        order_result.status,
        lookup_status,
        lookup_matched,
        &*known_trade_ids,
        Decimal::zero(),
    ) || attempt + 1 == retries
}

pub open spec fn lookup_chars(d: Option<TriggerDiagnostics>) -> Option<Seq<char>> {
    match d {
        Some(d) => match d.live_order {
            Some(order) => Some(status_chars(order.status)),
            None => None,
        },
        None => None,
    }
}

pub open spec fn lookup_matched(d: Option<TriggerDiagnostics>) -> Option<int> {
    match d {
        Some(d) => match d.live_order {
            Some(order) => Some(order.size_matched@),
            None => None,
        },
        None => None,
    }
}

fn lookup_texts(d: &Option<TriggerDiagnostics>) -> (r: (Option<String>, Option<Decimal>))
    ensures
        opt_text(r.0) == lookup_chars(*d),
        value_of(r.1) == lookup_matched(*d),
        d is Some && d->0.live_order is Some ==> r.1 == Some(d->0.live_order->0.size_matched),
        !(d is Some && d->0.live_order is Some) ==> r.1 is None,
{
    match d {
        Some(d) => match &d.live_order {
            Some(order) => (Some(status_name(order.status).to_owned()), Some(order.size_matched)),
            None => (None, None),
        },
        None => (None, None),
    }
}

/// Trade ids known of the trigger order, from its placement, the user stream and one lookup.
pub open spec fn known_ids(
    result: OrderResult,
    report: ScopedLiveRunnerReport,
    first: Option<TriggerDiagnostics>,
) -> Seq<Seq<char>> {
    let ids = merged_ids(texts(result.trade_ids@), texts(report.matched_trigger_trade_ids@));
    match first {
        Some(d) => merged_ids(ids, texts(d.known_trade_ids@)),
        None => ids,
    }
}

/// The summary of a trigger whose trades the user stream showed.
pub open spec fn observed_summary(
    placed: TriggerAcquisitionSummary,
    result: OrderResult,
    report: ScopedLiveRunnerReport,
    cancel: Option<Seq<char>>,
    first: Option<TriggerDiagnostics>,
) -> SummaryView {
    let mismatch = size_mismatch(
        placed.requested_shares,
        report.matched_trigger_trade_shares,
        cancel,
    );
    SummaryView {
        attempted: true,
        success: mismatch is None,
        order_id: Some(result.order_id@),
        requested_shares: placed.requested_shares@,
        resolved_trade_shares: report.matched_trigger_trade_shares@,
        limit_price: placed.limit_price@,
        snapshot_ask_price: placed.snapshot_ask_price@,
        placement_status: Some(status_chars(result.status)),
        trade_ids: known_ids(result, report, first),
        transaction_hashes: texts(result.transaction_hashes@),
        placement_taking_shares: value_of(result.taking_amount),
        lookup_status: lookup_chars(first),
        lookup_matched_shares: lookup_matched(first),
        resolved_trade_id: Some(report.matched_trigger_trade_ids@[0]@),
        ws_trade_observed: true,
        ws_connected_observed: report.connected_observed,
        matched_order_events: report.matched_trigger_order_events as int,
        verification_attempts: 1,
        failure_code: match mismatch {
            Some(m) => Some(m.0),
            None => None,
        },
        failure_reason: match mismatch {
            Some(m) => Some(m.1),
            None => None,
        },
    }
}

/// The summary of a trigger of which the user stream showed no trade: never a success.
pub open spec fn unobserved_summary(
    placed: TriggerAcquisitionSummary,
    result: OrderResult,
    report: ScopedLiveRunnerReport,
    first: Option<TriggerDiagnostics>,
    full: TriggerDiagnostics,
    code: Seq<char>,
    reason: Seq<char>,
) -> SummaryView {
    SummaryView {
        attempted: true,
        success: false,
        order_id: Some(result.order_id@),
        requested_shares: placed.requested_shares@,
        resolved_trade_shares: report.matched_trigger_trade_shares@,
        limit_price: placed.limit_price@,
        snapshot_ask_price: placed.snapshot_ask_price@,
        placement_status: Some(status_chars(result.status)),
        trade_ids: merged_ids(known_ids(result, report, first), texts(full.known_trade_ids@)),
        transaction_hashes: texts(result.transaction_hashes@),
        placement_taking_shares: value_of(result.taking_amount),
        lookup_status: lookup_chars(Some(full)),
        lookup_matched_shares: lookup_matched(Some(full)),
        resolved_trade_id: None,
        ws_trade_observed: false,
        ws_connected_observed: report.connected_observed,
        matched_order_events: report.matched_trigger_order_events as int,
        verification_attempts: crate::runtime::hedge_live_probe::TRIGGER_VERIFICATION_RETRIES + 1,
        failure_code: Some(code),
        failure_reason: Some(reason),
    }
}

/// `e` is what is known of a trigger of which the user stream showed no trade.
pub open spec fn evidence_of(
    e: TriggerEvidence,
    result: OrderResult,
    report: ScopedLiveRunnerReport,
    cancel: Option<String>,
    first: Option<TriggerDiagnostics>,
    full: TriggerDiagnostics,
) -> bool {
    &&& opt_text(e.placement_status) == Some(status_chars(result.status))
    &&& e.placement_taking_shares == result.taking_amount
    &&& opt_text(e.lookup_status) == lookup_chars(Some(full))
    &&& e.lookup_matched_shares == match full.live_order {
        Some(order) => Some(order.size_matched),
        None => None,
    }
    &&& texts(e.trade_ids@) == merged_ids(
        known_ids(result, report, first),
        texts(full.known_trade_ids@),
    )
    &&& e.direct_acquired_shares == full.direct_truth_acquired_shares
    &&& e.matched_order_events == report.matched_trigger_order_events
    &&& *e.cancel_outcome == cancel
}

/// Settles whether the trigger position was acquired: by the trades of the user stream where there
/// are any, and they must add up to the shares requested; without them it failed, whatever else
/// was seen.
///
/// `first_lookup` is the lookup that [`needs_lookup`] asks for; `full_lookup` is the repeated one,
/// which is needed where the user stream showed no trade.
pub fn finalize_trigger_acquisition(
    placed_trigger: TriggerAcquisitionOutcome,
    runtime_report: &ScopedLiveRunnerReport,
    cancel_outcome: &Option<String>,
    first_lookup: &Option<TriggerDiagnostics>,
    full_lookup: &Option<TriggerDiagnostics>,
) -> (r: TriggerAcquisitionOutcome)
    requires
        placed_trigger.order_result is Some
            && runtime_report.matched_trigger_trade_ids@.len() == 0 ==> full_lookup is Some,
    ensures
        r.order_result == placed_trigger.order_result,
        r.tracked_order == placed_trigger.tracked_order,
        match placed_trigger.order_result {
            None => r.summary == placed_trigger.summary,
            Some(result) => if runtime_report.matched_trigger_trade_ids@.len() > 0 {
                r.summary@ == observed_summary(
                    placed_trigger.summary,
                    result,
                    *runtime_report,
                    opt_text(*cancel_outcome),
                    *first_lookup,
                )
            } else {
                exists|e: TriggerEvidence| #[trigger]
                    evidence_of(
                        e,
                        result,
                        *runtime_report,
                        *cancel_outcome,
                        *first_lookup,
                        full_lookup->0,
                    ) && r.summary@ == unobserved_summary(
                        placed_trigger.summary,
                        result,
                        *runtime_report,
                        *first_lookup,
                        full_lookup->0,
                        unobserved(e).0,
                        unobserved(e).1,
                    )
            },
        },
{
    let TriggerAcquisitionOutcome { tracked_order, order_result, summary } = placed_trigger;
    let result = match order_result {
        Some(result) => result,
        None => {
            return TriggerAcquisitionOutcome { tracked_order, order_result: None, summary };
        },
    };
    let mut trade_ids = clone_texts(&result.trade_ids);
    merge_trade_ids(&mut trade_ids, &runtime_report.matched_trigger_trade_ids);
    match first_lookup {
        Some(diagnostics) => {
            merge_trade_ids(&mut trade_ids, &diagnostics.known_trade_ids);
        },
        None => {},
    }
    assert(texts(trade_ids@) == known_ids(result, *runtime_report, *first_lookup));
    if runtime_report.matched_trigger_trade_ids.len() > 0 {
        let (lookup_status, lookup_matched_shares) = lookup_texts(first_lookup);
        let (success, failure_code, failure_reason) = match trigger_size_mismatch_details(
            summary.requested_shares,
            runtime_report.matched_trigger_trade_shares,
            cancel_outcome,
        ) {
            Some((code, reason)) => (false, Some(code.to_owned()), Some(reason)),
            None => (true, None, None),
        };
        let settled = TriggerAcquisitionSummary {
            attempted: true,
            success,
            order_id: Some(result.order_id.clone()),
            requested_shares: summary.requested_shares,
            resolved_trade_shares: runtime_report.matched_trigger_trade_shares,
            limit_price: summary.limit_price,
            snapshot_ask_price: summary.snapshot_ask_price,
            placement_status: Some(status_name(result.status).to_owned()),
            trade_ids,
            transaction_hashes: clone_texts(&result.transaction_hashes),
            placement_taking_shares: result.taking_amount,
            lookup_status,
            lookup_matched_shares,
            resolved_trade_id: Some(runtime_report.matched_trigger_trade_ids[0].clone()),
            ws_trade_observed: true,
            ws_connected_observed: runtime_report.connected_observed,
            matched_order_events: runtime_report.matched_trigger_order_events,
            verification_attempts: 1,
            failure_code,
            failure_reason,
        };
        return TriggerAcquisitionOutcome {
            tracked_order,
            order_result: Some(result),
            summary: settled,
        };
    }
    let (lookup_status, lookup_matched_shares) = lookup_texts(full_lookup);
    let direct_acquired_shares = match full_lookup {
        Some(diagnostics) => {
            merge_trade_ids(&mut trade_ids, &diagnostics.known_trade_ids);
            diagnostics.direct_truth_acquired_shares
        },
        None => Decimal::zero(),
    };
    let evidence = TriggerEvidence {
        placement_status: Some(status_name(result.status).to_owned()),
        placement_taking_shares: result.taking_amount,
        lookup_status: clone_opt_text(&lookup_status),
        lookup_matched_shares,
        trade_ids: &trade_ids,
        direct_acquired_shares,
        matched_order_events: runtime_report.matched_trigger_order_events,
        cancel_outcome,
    };
    let (code, reason) = trigger_failure_details(&evidence);
    let ghost e = evidence;
    assert(evidence_of(
        e,
        result,
        *runtime_report,
        *cancel_outcome,
        *first_lookup,
        full_lookup->0,
    ));
    let settled = TriggerAcquisitionSummary {
        attempted: true,
        success: false,
        order_id: Some(result.order_id.clone()),
        requested_shares: summary.requested_shares,
        resolved_trade_shares: runtime_report.matched_trigger_trade_shares,
        limit_price: summary.limit_price,
        snapshot_ask_price: summary.snapshot_ask_price,
        placement_status: Some(status_name(result.status).to_owned()),
        trade_ids: clone_texts(&trade_ids),
        transaction_hashes: clone_texts(&result.transaction_hashes),
        placement_taking_shares: result.taking_amount,
        lookup_status,
        lookup_matched_shares,
        resolved_trade_id: None,
        ws_trade_observed: false,
        ws_connected_observed: runtime_report.connected_observed,
        matched_order_events: runtime_report.matched_trigger_order_events,
        verification_attempts: crate::runtime::hedge_live_probe::TRIGGER_VERIFICATION_RETRIES + 1,
        failure_code: Some(code.to_owned()),
        failure_reason: Some(reason),
    };
    TriggerAcquisitionOutcome { tracked_order, order_result: Some(result), summary: settled }
}

/// A trigger counts as acquired only by trades on the user stream that add up to the request.
pub proof fn law_acquired_only_by_stream_trades(
    placed: TriggerAcquisitionSummary,
    result: OrderResult,
    report: ScopedLiveRunnerReport,
    cancel: Option<Seq<char>>,
    first: Option<TriggerDiagnostics>,
)
    ensures
        observed_summary(placed, result, report, cancel, first).success
            <==> report.matched_trigger_trade_shares@ == placed.requested_shares@,
{
}

/// Something suggests that the trigger filled although it does not count as acquired.
pub open spec fn unconfirmed_fill(t: SummaryView) -> bool {
    &&& !t.success
    &&& {
        ||| t.resolved_trade_shares > 0
        ||| (t.lookup_matched_shares matches Some(v) && v > 0)
        ||| t.trade_ids.len() > 0
        ||| (t.placement_taking_shares matches Some(v) && v > 0)
        ||| t.matched_order_events > 0
        ||| (t.placement_status matches Some(text) && status_of_chars(text) == Some(
            OrderStatus::Matched,
        ))
    }
}

pub fn trigger_summary_has_unconfirmed_fill_evidence(trigger_summary: &TriggerAcquisitionSummary) -> (r:
    bool)
    ensures
        r == unconfirmed_fill(trigger_summary@),
{
    let zero = Decimal::zero();
    let placed_as_matched = match &trigger_summary.placement_status {
        Some(text) => match parse_lookup_order_status(text.as_str()) {
            Some(status) => status == OrderStatus::Matched,
            None => false,
        },
        None => false,
    };
    assert(texts(trigger_summary.trade_ids@).len() == trigger_summary.trade_ids@.len());
    !trigger_summary.success && (trigger_summary.resolved_trade_shares > zero || value_or_zero(
        trigger_summary.lookup_matched_shares,
    ) > zero || trigger_summary.trade_ids.len() > 0 || value_or_zero(
        trigger_summary.placement_taking_shares,
    ) > zero || trigger_summary.matched_order_events > 0 || placed_as_matched)
}

/// The shares that the trigger filled as far as anything says: the position, a lookup, or the
/// answer to the placement, in that order.
pub open spec fn best_known_fill(
    t: SummaryView,
    baseline: Position,
    current: Position,
    leg: QuoteLeg,
) -> Option<int> {
    let direct = owned_on(baseline, current, leg);
    if direct > 0 {
        Some(direct)
    } else if t.lookup_matched_shares matches Some(v) && v > 0 {
        Some(whole_cents(t.lookup_matched_shares->0))
    } else if t.placement_taking_shares matches Some(v) && v > 0 {
        Some(whole_cents(t.placement_taking_shares->0))
    } else {
        None
    }
}

/// The shares that lookup, or else the placement, reports can be cut to hundredths.
pub open spec fn fills_can_be_cut(t: SummaryView) -> bool {
    match t.lookup_matched_shares {
        Some(v) if v > 0 => v * 100 <= max_value(),
        _ => t.placement_taking_shares matches Some(v) ==> v * 100 <= max_value(),
    }
}

pub fn best_known_trigger_fill_shares(
    trigger_summary: &TriggerAcquisitionSummary,
    baseline_position: &Position,
    current_direct_position: &Position,
    leg: QuoteLeg,
) -> (r: Option<Decimal>)
    requires
        leg_can_be_acquired(*baseline_position, *current_direct_position, leg),
        fills_can_be_cut(trigger_summary@),
    ensures
        value_of(r) == best_known_fill(
            trigger_summary@,
            *baseline_position,
            *current_direct_position,
            leg,
        ),
        r matches Some(shares) ==> 0 <= shares@ && cuttable(shares@),
{
    let direct_shares = probe_owned_shares(baseline_position, current_direct_position, leg);
    if direct_shares > Decimal::zero() {
        return Some(direct_shares);
    }
    let lookup_matched = value_or_zero(trigger_summary.lookup_matched_shares);
    if lookup_matched > Decimal::zero() {
        return Some(normalize_share_size(lookup_matched));
    }
    let taking_amount = value_or_zero(trigger_summary.placement_taking_shares);
    if taking_amount > Decimal::zero() {
        return Some(normalize_share_size(taking_amount));
    }
    None
}

} // verus!
