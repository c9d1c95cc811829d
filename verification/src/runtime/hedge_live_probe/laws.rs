//! What a probe may start with, what it counts as acquired, and how it cleans up.

use crate::decimal::{
    decimal_of_text, lemma_cents_add_up, lemma_exact_product, lemma_representable_bound,
    mantissa_bound, representable, unit, value_of, Decimal,
};
use crate::models::{
    LiveOrder, OrderAmountKind, OrderBookSnapshot, OrderRequest, OrderResult, OrderType, Outcome,
    Position, PriceLevel, QuoteLeg, Side,
};
use crate::runtime::hedge_live_probe::cleanup::{
    awaits_recovery, clean_decision, direct_clean, dirty_decision, engine_clean, estimate_decision,
    estimates_sale, flatten_decision, is_clean, sells_off, success_status, CleanupContext,
    CleanupView, RecoveryPhase, StepView,
};
use crate::runtime::hedge_live_probe::preflight::{
    hedge_budget, is_lowest, open_buy_fits, open_buy_shares, preflight_result, probe_input,
    probed_at, safety_objection, token_of, trigger_asks, trigger_limit, trigger_notional,
    LiveProbePlan, MarketToken, PreflightError, PreflightFacts, PreflightView,
};
use crate::runtime::hedge_live_probe::trigger::{
    best_known_fill, buys_trigger, executed, observed_summary, owned_no, owned_on, owned_pairs,
    owned_yes, placed_summary, size_mismatch, trigger_order, unconfirmed_fill, unobserved_summary,
    watch_ms, ScopedLiveRunnerReport, SummaryView, TriggerAcquisitionSummary, TriggerDiagnostics,
    TriggerWatch,
};
use crate::runtime::hedge_live_probe::{
    scenario_error, CleanupStatus, HedgeLiveProbeScenario, LiveProbeMarket, LiveProbeRuntimeOptions,
    LiveProbeSafety,
};
use crate::text::texts;
use vstd::prelude::*;

verus! {

/// A trigger bids one tick above the best ask, up to ninety-nine hundredths, and costs that price for
/// each of its shares, cut to whole hundredths.
pub proof fn law_trigger_pays_a_tick_more(ask: int, tick: int, shares: int, cut: int, cost: int)
    requires
        representable(ask + tick),
        shares >= 0,
        cut % 100_000_000_000_000_000_000_000_000 == 0,
        cut <= shares < cut + 100_000_000_000_000_000_000_000_000,
        cost * unit() == cut * trigger_limit(ask, tick),
        representable(cost),
    ensures
        100 * (ask + tick) <= 99 * unit() ==> trigger_limit(ask, tick) == ask + tick,
        100 * (ask + tick) > 99 * unit() ==> 100 * trigger_limit(ask, tick) == 99 * unit(),
        trigger_notional(shares, trigger_limit(ask, tick)) == cost,
{
    lemma_exact_product(cut, trigger_limit(ask, tick), cost);
}

/// The open shares of all bids, added up.
pub open spec fn bids_open(s: Seq<LiveOrder>) -> int
    decreases s.len(),
{
    if s.len() == 0 {
        0
    } else {
        bids_open(s.drop_last()) + if s.last().side == Side::Buy {
            s.last().original_size@ - s.last().size_matched@
        } else {
            0
        }
    }
}

proof fn lemma_bids_open(s: Seq<LiveOrder>)
    requires
        forall|i: int|
            0 <= i < s.len() ==> (#[trigger] s[i]).original_size@ - s[i].size_matched@ >= 0 && (
            s[i].original_size@ - s[i].size_matched@) % 100_000_000_000_000_000_000_000_000 == 0
                && representable(s[i].original_size@ - s[i].size_matched@),
        bids_open(s) < mantissa_bound() * 100_000_000_000_000_000_000_000_000,
    ensures
        open_buy_shares(s) == bids_open(s),
        open_buy_fits(s),
        bids_open(s) >= 0,
        bids_open(s) % 100_000_000_000_000_000_000_000_000 == 0,
    decreases s.len(),
{
    if s.len() > 0 {
        let rest = s.drop_last();
        let last = s[s.len() - 1];
        assert(last.original_size@ - last.size_matched@ >= 0);
        assert forall|i: int| 0 <= i < rest.len() implies (#[trigger] rest[i]).original_size@
            - rest[i].size_matched@ >= 0 && (rest[i].original_size@ - rest[i].size_matched@)
            % 100_000_000_000_000_000_000_000_000 == 0 && representable(
            rest[i].original_size@ - rest[i].size_matched@,
        ) by {
            assert(rest[i] == s[i]);
        }
        lemma_bids_open(rest);
        lemma_representable_bound(last.original_size@ - last.size_matched@);
        if last.side == Side::Buy {
            lemma_cents_add_up(bids_open(rest), last.original_size@ - last.size_matched@);
        }
    }
}

/// The money left for a hedge is the balance less a dollar for each open share of a bid and less what
/// the trigger costs, but never below zero.
pub proof fn law_hedge_money_is_what_is_left(facts: PreflightFacts, cost: int)
    requires
        forall|i: int|
            0 <= i < facts.global_open_orders@.len() ==> {
                let o = #[trigger] facts.global_open_orders@[i];
                let left = o.original_size@ - o.size_matched@;
                left >= 0 && left % 100_000_000_000_000_000_000_000_000 == 0 && representable(left)
            },
        bids_open(facts.global_open_orders@) < mantissa_bound()
            * 100_000_000_000_000_000_000_000_000,
        representable(facts.balance@ - bids_open(facts.global_open_orders@)),
        representable(facts.balance@ - bids_open(facts.global_open_orders@) - cost),
    ensures
        ({
            let left = facts.balance@ - bids_open(facts.global_open_orders@) - cost;
            hedge_budget(facts, cost) == if left >= 0 {
                left
            } else {
                0
            }
        }),
        open_buy_fits(facts.global_open_orders@),
{
    let s = facts.global_open_orders@;
    assert forall|i: int| 0 <= i < s.len() implies (#[trigger] s[i]).original_size@
        - s[i].size_matched@ >= 0 && (s[i].original_size@ - s[i].size_matched@)
        % 100_000_000_000_000_000_000_000_000 == 0 && representable(
        s[i].original_size@ - s[i].size_matched@,
    ) by {
        let o = facts.global_open_orders@[i];
    }
    lemma_bids_open(s);
}

/// A token is the first of its outcome that the market lists.
pub proof fn law_tokens_are_found_by_outcome(tokens: Seq<MarketToken>, outcome: Outcome, k: int)
    requires
        0 <= k < tokens.len(),
        tokens[k].outcome == outcome,
        forall|i: int| 0 <= i < k ==> (#[trigger] tokens[i]).outcome != outcome,
    ensures
        token_of(tokens, outcome) == tokens[k].token_id@,
    decreases tokens.len(),
{
    if k > 0 {
        assert(tokens[0].outcome != outcome);
        let t = tokens.drop_first();
        assert forall|i: int| 0 <= i < k - 1 implies (#[trigger] t[i]).outcome != outcome by {
            assert(t[i] == tokens[i + 1]);
        }
        law_tokens_are_found_by_outcome(t, outcome, k - 1);
    }
}

/// `p` is a price of the asks, and none is lower.
pub open spec fn best_offer(asks: Seq<PriceLevel>, p: int) -> bool {
    &&& exists|i: int| 0 <= i < asks.len() && (#[trigger] asks[i]).price@ == p
    &&& forall|i: int| 0 <= i < asks.len() ==> (#[trigger] asks[i]).price@ >= p
}

/// A plan that passes is within every limit: price and cost of the trigger, shares hedged and sold
/// back, and cost of the hedge. It buys a bid leg's own token, on a market that is as the scenario says
/// and, where that is asked for, holds neither orders nor shares.
pub proof fn law_plans_that_pass_are_within_limits(
    scenario: HedgeLiveProbeScenario,
    facts: PreflightFacts,
    plan: LiveProbePlan,
)
    requires
        preflight_result(scenario, facts, Ok::<LiveProbePlan, PreflightError>(plan)),
    ensures
        plan.trigger_limit_price@ <= scenario.trigger.max_trigger_limit_price@,
        plan.trigger_notional_usdc@ <= scenario.safety.max_trigger_notional_usdc@,
        plan.planned_hedge_shares@ <= scenario.safety.max_planned_hedge_shares@,
        plan.planned_sellback_shares@ <= scenario.safety.max_planned_sellback_shares@,
        plan.planned_hedge_notional_usdc@ <= scenario.safety.max_planned_hedge_notional_usdc@,
        plan.trigger_leg == scenario.trigger.leg,
        plan.trigger_shares@ == scenario.trigger.shares@,
        plan.hedge_side == Side::Buy,
        plan.trigger_leg == QuoteLeg::YesBid || plan.trigger_leg == QuoteLeg::NoBid,
        plan.trigger_leg == QuoteLeg::YesBid ==> plan.trigger_token_id@
            == scenario.market.yes_token_id@,
        plan.trigger_leg == QuoteLeg::NoBid ==> plan.trigger_token_id@
            == scenario.market.no_token_id@,
        plan.trigger_leg == QuoteLeg::YesBid ==> best_offer(
            facts.yes_book.asks@,
            plan.trigger_snapshot_ask_price@,
        ),
        plan.trigger_leg == QuoteLeg::NoBid ==> best_offer(
            facts.no_book.asks@,
            plan.trigger_snapshot_ask_price@,
        ),
        facts.live_market matches Some(live) ==> {
            &&& scenario.market.yes_token_id@ == token_of(live.tokens@, Outcome::Yes)
            &&& scenario.market.no_token_id@ == token_of(live.tokens@, Outcome::No)
            &&& scenario.market.tick_size@ == live.minimum_tick_size@
            &&& scenario.market.neg_risk == live.neg_risk
        },
        scenario.safety.require_clean_market ==> facts.target_open_orders == 0,
        scenario.safety.require_clean_market ==> -facts.tolerance@ <= facts.baseline.yes_size@
            <= facts.tolerance@ && -facts.tolerance@ <= facts.baseline.no_size@ <= facts.tolerance@,
{
    let r = Ok::<LiveProbePlan, PreflightError>(plan);
    let tick = decimal_of_text(scenario.market.tick_size@)->0;
    let asks = trigger_asks(scenario.trigger.leg, facts);
    let ask = choose|ask: int| #[trigger]
        is_lowest(asks, ask) && probed_at(scenario, facts, ask, tick, r);
    assert(is_lowest(asks, ask) && probed_at(scenario, facts, ask, tick, r));
    assert(plan.trigger_snapshot_ask_price@ == ask);
    assert(best_offer(asks, ask));
}

/// A plan is refused for what it exceeds: the value that is named is above the limit that is named
/// with it, and what is within all limits is not refused.
pub proof fn law_refused_plans_exceed_a_limit(safety: LiveProbeSafety, plan: LiveProbePlan)
    ensures
        match safety_objection(safety, plan) {
            Some(PreflightView::HedgeShares(v, max)) => v == plan.planned_hedge_shares@ && max
                == safety.max_planned_hedge_shares@ && v > max,
            Some(PreflightView::SellbackShares(v, max)) => v == plan.planned_sellback_shares@ && max
                == safety.max_planned_sellback_shares@ && v > max,
            Some(PreflightView::HedgeNotional(v, max)) => v == plan.planned_hedge_notional_usdc@
                && max == safety.max_planned_hedge_notional_usdc@ && v > max,
            Some(_) => false,
            None => plan.planned_hedge_shares@ <= safety.max_planned_hedge_shares@
                && plan.planned_sellback_shares@ <= safety.max_planned_sellback_shares@
                && plan.planned_hedge_notional_usdc@ <= safety.max_planned_hedge_notional_usdc@,
        },
{
}

/// A fill of the trigger is planned against the asks of the other token and the bids of its own, for
/// all of its shares, at the ask.
pub proof fn law_probe_plans_for_its_own_fill(
    scenario: HedgeLiveProbeScenario,
    facts: PreflightFacts,
    ask: int,
    tick: int,
)
    ensures
        ({
            let inp = probe_input(scenario, facts, ask, tick);
            &&& inp.fill == ask && inp.total == scenario.trigger.shares@ && inp.tick == tick
            &&& scenario.trigger.leg == QuoteLeg::YesBid ==> inp.asks == facts.no_book.asks@
                && inp.bids == facts.yes_book.bids@
            &&& scenario.trigger.leg == QuoteLeg::NoBid ==> inp.asks == facts.yes_book.asks@
                && inp.bids == facts.no_book.bids@
            &&& inp.budget >= 0
        }),
{
}

/// What a position has acquired on a side is how far it is above the baseline, less what is below a
/// hundredth, and nothing where it is not above. Pairs are the whole shares acquired on both.
pub proof fn law_acquired_is_what_came_on_top(baseline: Position, current: Position, leg: QuoteLeg)
    requires
        representable(current.yes_size@ - baseline.yes_size@),
        representable(current.no_size@ - baseline.no_size@),
    ensures
        ({
            let c = 100_000_000_000_000_000_000_000_000int;
            let yes = owned_yes(baseline, current);
            let no = owned_no(baseline, current);
            let pairs = owned_pairs(baseline, current);
            &&& yes >= 0 && yes % c == 0 && no >= 0 && no % c == 0
            &&& current.yes_size@ <= baseline.yes_size@ ==> yes == 0
            &&& current.yes_size@ >= baseline.yes_size@ ==> baseline.yes_size@ + yes
                <= current.yes_size@ < baseline.yes_size@ + yes + c
            &&& current.no_size@ <= baseline.no_size@ ==> no == 0
            &&& current.no_size@ >= baseline.no_size@ ==> baseline.no_size@ + no
                <= current.no_size@ < baseline.no_size@ + no + c
            &&& pairs % unit() == 0 && pairs <= yes && pairs <= no
            &&& pairs + unit() > yes || pairs + unit() > no
            &&& leg == QuoteLeg::YesBid || leg == QuoteLeg::YesAsk ==> owned_on(
                baseline,
                current,
                leg,
            ) == yes
            &&& leg == QuoteLeg::NoBid || leg == QuoteLeg::NoAsk ==> owned_on(
                baseline,
                current,
                leg,
            ) == no
        }),
{
}

/// A trigger is of the right size exactly where all that was asked for came in, and else short or
/// over.
pub proof fn law_trigger_sizes_must_agree(
    requested: Decimal,
    resolved: Decimal,
    cancel: Option<Seq<char>>,
)
    ensures
        size_mismatch(requested, resolved, cancel) is None == (requested@ == resolved@),
        size_mismatch(requested, resolved, cancel) matches Some((code, _)) ==> if resolved@
            < requested@ {
            code == "trigger_partial_fill"@
        } else {
            code == "trigger_overshoot"@
        },
{
}

/// The shares that a trigger filled are those that came on top of the baseline, else those that a
/// lookup counts, else those that its placement took.
pub proof fn law_fills_are_told_by_the_position_first(
    t: SummaryView,
    baseline: Position,
    current: Position,
    leg: QuoteLeg,
)
    ensures
        ({
            let direct = owned_on(baseline, current, leg);
            let looked_up = match t.lookup_matched_shares {
                Some(v) => v,
                None => 0,
            };
            let taken = match t.placement_taking_shares {
                Some(v) => v,
                None => 0,
            };
            let r = best_known_fill(t, baseline, current, leg);
            &&& r is None == (direct <= 0 && looked_up <= 0 && taken <= 0)
            &&& direct > 0 ==> r == Some(direct)
            &&& direct <= 0 && looked_up > 0 ==> r->0 <= looked_up < r->0
                + 100_000_000_000_000_000_000_000_000
            &&& direct <= 0 && looked_up <= 0 && taken > 0 ==> r->0 <= taken < r->0
                + 100_000_000_000_000_000_000_000_000
        }),
{
}

/// A trigger that counts as acquired is never in doubt; one that does not is, as soon as any trade,
/// match or share tells of a fill.
pub proof fn law_any_sign_of_a_fill_is_in_doubt(t: SummaryView)
    ensures
        t.success ==> !unconfirmed_fill(t),
        !t.success && t.resolved_trade_shares > 0 ==> unconfirmed_fill(t),
        !t.success && t.trade_ids.len() > 0 ==> unconfirmed_fill(t),
        !t.success && t.matched_order_events > 0 ==> unconfirmed_fill(t),
        !t.success && t.lookup_matched_shares is Some && t.lookup_matched_shares->0 > 0
            ==> unconfirmed_fill(t),
        !t.success && t.placement_taking_shares is Some && t.placement_taking_shares->0 > 0
            ==> unconfirmed_fill(t),
{
}

/// A market is clean where both sides are within the tolerance of the baseline and no more orders
/// rest than before.
pub proof fn law_clean_markets_are_back_at_the_baseline(
    baseline: Position,
    current: Position,
    orders_before: int,
    orders: int,
    tolerance: int,
)
    requires
        representable(current.yes_size@ - baseline.yes_size@),
        representable(current.no_size@ - baseline.no_size@),
    ensures
        is_clean(baseline, current, orders_before, orders, tolerance) == (baseline.yes_size@
            - tolerance <= current.yes_size@ <= baseline.yes_size@ + tolerance
            && baseline.no_size@ - tolerance <= current.no_size@ <= baseline.no_size@ + tolerance
            && orders <= orders_before),
{
}

/// A cleanup that placed sales has flattened; one that only merged has merged.
pub proof fn law_cleanups_are_named_for_what_they_did(merged: bool, placed: nat)
    ensures
        success_status(merged, placed as int) == Some(CleanupStatus::Flattened) <==> placed > 0,
        success_status(merged, placed as int) == Some(CleanupStatus::Merged) <==> merged && placed
            == 0,
        success_status(merged, placed as int) is None <==> !merged && placed == 0,
{
}

/// `bid` is the highest price of the bids, or zero where there are none.
pub open spec fn top_bid(bids: Seq<PriceLevel>, bid: int) -> bool {
    &&& bids.len() == 0 ==> bid == 0
    &&& bids.len() > 0 ==> exists|i: int| 0 <= i < bids.len() && (#[trigger] bids[i]).price@ == bid
    &&& forall|i: int| 0 <= i < bids.len() ==> (#[trigger] bids[i]).price@ <= bid
}

/// A sale is estimated at the highest bids: so much for each YES share and so much for each NO share.
pub proof fn law_sales_are_estimated_at_the_highest_bids(
    yes_book: OrderBookSnapshot,
    no_book: OrderBookSnapshot,
    yes: int,
    no: int,
    value: Decimal,
    yes_bid: int,
    no_bid: int,
    for_yes: int,
    for_no: int,
)
    requires
        estimates_sale(yes_book, no_book, yes, no, Some(value)),
        top_bid(yes_book.bids@, yes_bid) && top_bid(no_book.bids@, no_bid),
        for_yes * unit() == yes * yes_bid && representable(for_yes),
        for_no * unit() == no * no_bid && representable(for_no),
        representable(for_yes + for_no),
    ensures
        value@ == for_yes + for_no,
{
    lemma_exact_product(yes, yes_bid, for_yes);
    lemma_exact_product(no, no_bid, for_no);
}

/// What is sold is all that was acquired on a side beyond the tolerance, once; what is not beyond it, or
/// was tried before, is not sold.
pub proof fn law_acquired_shares_are_sold(ctx: CleanupContext, v: CleanupView)
    ensures
        ({
            let yes = owned_yes(*ctx.baseline, v.direct);
            let no = owned_no(*ctx.baseline, v.direct);
            let sells_yes = yes > ctx.tolerance@ && !v.flatten_attempted_yes;
            let sells_no = no > ctx.tolerance@ && !v.flatten_attempted_no;
            match flatten_decision(ctx, v) {
                StepView::EstimateFlatten(y, n) => {
                    &&& sells_yes || sells_no
                    &&& y == if sells_yes {
                        yes
                    } else {
                        0
                    }
                    &&& n == if sells_no {
                        no
                    } else {
                        0
                    }
                },
                StepView::Continue => {
                    ||| !sells_yes && !sells_no
                    ||| v.merge_succeeded && owned_pairs(*ctx.baseline, v.direct) > 0
                    ||| direct_clean(ctx, v) && !engine_clean(ctx, v)
                },
                _ => false,
            }
        }),
{
}

/// A market that is not clean is first rid of an unseen fill, then of whole pairs by a merge, then of
/// each side by a sale; a clean one is watched, or done.
pub proof fn law_cleanup_takes_its_steps_in_order(
    ctx: CleanupContext,
    v: CleanupView,
    attempt: int,
    window_active: bool,
)
    ensures
        ({
            let (w, step) = dirty_decision(ctx, v, attempt, window_active);
            let delta = owned_on(*ctx.baseline, v.direct, ctx.scenario.trigger.leg);
            let pairs = owned_pairs(*ctx.baseline, v.direct);
            let waits = awaits_recovery(ctx, v);
            &&& waits && delta > ctx.tolerance@ ==> step == StepView::EstimateRecovery(
                RecoveryPhase::Observed,
                delta,
            )
            &&& waits && delta <= ctx.tolerance@ && window_active ==> step == StepView::Continue
            &&& !waits && pairs > 0 && !v.attempted_merge ==> step == StepView::Merge(pairs)
                && w.attempted_merge
            &&& step is Merge ==> pairs > 0 && !v.attempted_merge
            &&& !(step is Finish) && !(step is VerifyStability)
            &&& w.notional == v.notional && w.placed == v.placed
        }),
        ({
            let (w, step) = clean_decision(ctx, v, window_active);
            &&& !awaits_recovery(ctx, v) && ctx.trigger.order_id is Some ==> step
                == StepView::VerifyStability
            &&& !awaits_recovery(ctx, v) && ctx.trigger.order_id is None ==> step is Finish
                && step->Finish_0.success
            &&& awaits_recovery(ctx, v) && window_active ==> step == StepView::Continue
            &&& !(step is Merge) && !(step is EstimateFlatten)
        }),
{
}

/// A sale goes ahead exactly where its estimate came in and keeps the whole cleanup within its limit.
pub proof fn law_estimates_decide_on_sales(
    ctx: CleanupContext,
    v: CleanupView,
    phase: Option<RecoveryPhase>,
    estimate: Result<Decimal, String>,
    next: StepView,
    s: StepView,
)
    requires
        estimate_decision(ctx, v, phase, estimate, next, s),
        !(next is Finish),
        estimate matches Ok(step) ==> representable(v.notional + step@),
    ensures
        s == next <==> estimate is Ok && v.notional + estimate->Ok_0@
            <= ctx.scenario.safety.max_cleanup_notional_usdc@,
        s != next ==> s is Finish && !s->Finish_0.success,
{
}

/// A scenario passes only with shares to trigger, a price to pay for them, and no limit below zero.
pub proof fn law_scenarios_have_limits(scenario: HedgeLiveProbeScenario)
    requires
        scenario_error(scenario) is None,
    ensures
        scenario.trigger.shares@ > 0,
        scenario.trigger.max_trigger_limit_price@ > 0,
        scenario.safety.max_planned_hedge_shares@ >= 0,
        scenario.safety.max_planned_sellback_shares@ >= 0,
        scenario.safety.max_planned_hedge_notional_usdc@ >= 0,
        scenario.safety.max_post_sync_net_exposure@ >= 0,
        scenario.safety.max_trigger_notional_usdc@ >= 0,
        scenario.safety.max_cleanup_notional_usdc@ >= 0,
{
}

/// An order executed where shares of it were resolved, a trade is known, its placement or a lookup calls
/// it matched, or the lookup counts matched shares, and in no other case.
pub proof fn law_execution_leaves_a_trace(
    placement: crate::models::OrderStatus,
    lookup: Option<crate::models::OrderStatus>,
    matched: int,
    trades: int,
    resolved: int,
)
    ensures
        !executed(placement, lookup, matched, trades, resolved) <==> resolved <= 0 && trades <= 0
            && matched <= 0 && placement != crate::models::OrderStatus::Matched && lookup != Some(
            crate::models::OrderStatus::Matched,
        ),
{
}

/// A trigger is tracked as the bid that was placed: on its leg's token, for its shares cut to
/// hundredths, at the planned limit, with nothing matched yet.
pub proof fn law_triggers_are_tracked_as_placed(
    scenario: HedgeLiveProbeScenario,
    plan: LiveProbePlan,
    order_id: Seq<char>,
    trace_id: Seq<char>,
    created_at: crate::time::Timestamp,
)
    requires
        scenario.trigger.shares@ >= 0,
    ensures
        ({
            let t = trigger_order(scenario, plan, order_id, trace_id, created_at);
            let leg = scenario.trigger.leg;
            let market = scenario.market;
            &&& t.side == Side::Buy && t.leg == leg && t.order_id == order_id
            &&& leg == QuoteLeg::YesBid ==> t.token_id == market.yes_token_id@
                && t.opposite_token_id == market.no_token_id@
            &&& leg == QuoteLeg::NoBid ==> t.token_id == market.no_token_id@
                && t.opposite_token_id == market.yes_token_id@
            &&& t.price == plan.trigger_limit_price@ && t.matched_size == 0
            &&& t.size <= scenario.trigger.shares@ < t.size + 100_000_000_000_000_000_000_000_000
            &&& t.size % 100_000_000_000_000_000_000_000_000 == 0
            &&& t.condition_id == market.condition_id@ && t.neg_risk == market.neg_risk
        }),
{
}

/// A placement alone never acquires the trigger. It failed where no order or no id came back; else
/// what came back is kept.
pub proof fn law_placements_do_not_acquire(
    scenario: HedgeLiveProbeScenario,
    plan: LiveProbePlan,
    placement: Result<OrderResult, String>,
)
    ensures
        ({
            let s = placed_summary(scenario, plan, placement);
            let named = placement is Ok && placement->Ok_0.order_id@.len() > 0;
            &&& !s.success && s.attempted && !s.ws_trade_observed
            &&& s.order_id is Some == named
            &&& s.failure_code is None == named && s.failure_reason is None == named
            &&& named ==> s.order_id == Some(placement->Ok_0.order_id@)
            &&& placement matches Ok(result) ==> s.trade_ids == texts(result.trade_ids@)
                && s.placement_taking_shares == value_of(result.taking_amount)
            &&& s.resolved_trade_shares == 0
            &&& s.limit_price == plan.trigger_limit_price@ && s.snapshot_ask_price
                == plan.trigger_snapshot_ask_price@
        }),
{
}

/// The stream is watched for as long as an event may take, where an order is out, and once more for the
/// grace time, where it seems to have executed unseen.
pub proof fn law_streams_are_watched_twice_at_most(
    has_order: bool,
    extend: bool,
    options: LiveProbeRuntimeOptions,
)
    ensures
        watch_ms(TriggerWatch::Placed, has_order, extend, options) == if has_order {
            Some(options.ws_event_timeout_ms)
        } else {
            None
        },
        watch_ms(TriggerWatch::Watched, has_order, extend, options) == if extend {
            Some(options.ws_ambiguous_trigger_grace_ms)
        } else {
            None
        },
        watch_ms(TriggerWatch::Extended, has_order, extend, options) is None,
{
}

/// A trigger that the stream showed is acquired exactly where the shares it showed are those requested;
/// one that it did not show is not, whatever else was seen.
pub proof fn law_only_shown_trades_acquire(
    placed: TriggerAcquisitionSummary,
    result: OrderResult,
    report: ScopedLiveRunnerReport,
    cancel: Option<Seq<char>>,
    first: Option<TriggerDiagnostics>,
    full: TriggerDiagnostics,
    code: Seq<char>,
    reason: Seq<char>,
)
    ensures
        ({
            let shown = observed_summary(placed, result, report, cancel, first);
            let unseen = unobserved_summary(placed, result, report, first, full, code, reason);
            &&& shown.success == (report.matched_trigger_trade_shares@ == placed.requested_shares@)
            &&& shown.failure_code is None == shown.success
            &&& shown.resolved_trade_shares == report.matched_trigger_trade_shares@
            &&& shown.requested_shares == placed.requested_shares@
            &&& shown.ws_trade_observed && !unseen.ws_trade_observed
            &&& !unseen.success && unseen.failure_code == Some(code)
        }),
{
}

/// What is bought for a trigger is what its plan says, on the terms of the market, and may be taken at
/// once. It is the very order that is tracked.
pub proof fn law_triggers_are_bought_as_tracked(
    request: OrderRequest,
    scenario: HedgeLiveProbeScenario,
    plan: LiveProbePlan,
    order_id: Seq<char>,
    trace_id: Seq<char>,
    created_at: crate::time::Timestamp,
)
    requires
        buys_trigger(request, scenario, plan),
    ensures
        ({
            let t = trigger_order(scenario, plan, order_id, trace_id, created_at);
            &&& request.price@ == t.price && request.size@ == t.size && request.side == t.side
            &&& request.neg_risk == t.neg_risk && request.tick_size@ == t.tick_size
            &&& request.side == Side::Buy && request.order_type == OrderType::GTC
            &&& !request.post_only && request.amount_kind == OrderAmountKind::Shares
            &&& request.token_id@ == plan.trigger_token_id@
        }),
{
}

/// What is sold off is sold at any price from a hundredth on, whole hundredths of what is given, at once
/// or not at all.
pub proof fn law_sell_offs_take_any_price(
    request: OrderRequest,
    token_id: Seq<char>,
    size: int,
    market: LiveProbeMarket,
)
    requires
        sells_off(request, token_id, size, market),
        size >= 0,
    ensures
        request.token_id@ == token_id,
        100 * request.price@ == unit(),
        request.size@ <= size < request.size@ + 100_000_000_000_000_000_000_000_000,
        request.size@ % 100_000_000_000_000_000_000_000_000 == 0,
        request.side == Side::Sell && request.order_type == OrderType::FOK,
        !request.post_only && request.amount_kind == OrderAmountKind::Shares,
        request.neg_risk == market.neg_risk && request.tick_size@ == market.tick_size@,
{
}

} // verus!
