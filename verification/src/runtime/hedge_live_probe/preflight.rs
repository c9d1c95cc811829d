//! What is checked and planned before a probe places its first order.

use crate::decimal::{
    abs_value, cent, decimal_of_text, difference, difference_fits, lemma_pow10_28, max_of, min_of,
    product, product_fits, sum, sum_fits, Decimal,
};
use crate::models::{
    LiveOrder, OrderBookSnapshot, Outcome, Position, PriceLevel, QuoteLeg, Side,
};
use crate::runtime::hedge_live_probe::{
    leg_is_yes, token_id_for_leg, HedgeLiveProbeScenario, LiveProbeMarket, LiveProbeSafety,
};
use crate::text::same_text;
use crate::trading::hedge_executor::{
    cuttable, normalize_share_size, plan_fits, planned, try_plan_fill_resolution, whole_cents,
    HedgeExecutor, HedgeResolution, PlanInput,
};
use vstd::prelude::*;

verus! {

/// A token as market discovery lists it.
#[derive(Debug)]
pub struct MarketToken {
    pub token_id: String,
    pub outcome: Outcome,
}

/// A market as market discovery lists it.
#[derive(Debug)]
pub struct Market {
    pub condition_id: String,
    pub tokens: Vec<MarketToken>,
    pub minimum_tick_size: String,
    pub neg_risk: bool,
}

/// What a probe is going to do.
#[derive(Debug)]
pub struct LiveProbePlan {
    pub trigger_leg: QuoteLeg,
    pub trigger_token_id: String,
    pub trigger_shares: Decimal,
    pub trigger_snapshot_ask_price: Decimal,
    pub trigger_limit_price: Decimal,
    pub trigger_notional_usdc: Decimal,
    pub hedge_side: Side,
    pub planned_hedge_shares: Decimal,
    pub planned_sellback_shares: Decimal,
    pub planned_hedge_notional_usdc: Decimal,
    pub available_hedge_usdc_after_trigger: Decimal,
}

/// Why a probe does not start.
#[derive(Debug)]
pub enum PreflightError {
    /// Discovery disagrees with the scenario on the YES token, the NO token, the tick size, the
    /// neg risk flag.
    MarketMismatch { yes_token: bool, no_token: bool, tick_size: bool, neg_risk: bool },
    OpenOrders(usize),
    Inventory { yes: Decimal, no: Decimal },
    UnsupportedLeg(QuoteLeg),
    TickSize,
    NoAskLiquidity,
    TriggerLimitPrice { derived: Decimal, max: Decimal },
    TriggerNotional { notional: Decimal, max: Decimal },
    HedgeShares { planned: Decimal, max: Decimal },
    SellbackShares { planned: Decimal, max: Decimal },
    HedgeNotional { planned: Decimal, max: Decimal },
    /// Some number is too large to reckon with.
    OutOfRange,
}

/// Id of the first token of an outcome; empty where there is none.
pub open spec fn token_of(tokens: Seq<MarketToken>, outcome: Outcome) -> Seq<char>
    decreases tokens.len(),
{
    if tokens.len() == 0 {
        Seq::empty()
    } else if tokens[0].outcome == outcome {
        tokens[0].token_id@
    } else {
        token_of(tokens.drop_first(), outcome)
    }
}

pub(crate) fn find_token(tokens: &Vec<MarketToken>, outcome: Outcome) -> (r: String)
    ensures
        r@ == token_of(tokens@, outcome),
{
    let ghost all = tokens@;
    let mut i: usize = 0;
    assert(all.skip(0) =~= all);
    while i < tokens.len()
        invariant
            i <= tokens.len(),
            all == tokens@,
            token_of(all, outcome) == token_of(all.skip(i as int), outcome),
        decreases tokens.len() - i,
    {
        assert(all.skip(i as int)[0] == all[i as int]);
        assert(all.skip(i as int).drop_first() =~= all.skip(i + 1));
        if tokens[i].outcome == outcome {
            return tokens[i].token_id.clone();
        }
        i = i + 1;
    }
    String::new()
}

/// Where discovery disagrees with the scenario.
pub open spec fn market_differences(scenario: LiveProbeMarket, live: Market) -> (
    bool,
    bool,
    bool,
    bool,
) {
    (
        scenario.yes_token_id@ != token_of(live.tokens@, Outcome::Yes),
        scenario.no_token_id@ != token_of(live.tokens@, Outcome::No),
        scenario.tick_size@ != live.minimum_tick_size@,
        scenario.neg_risk != live.neg_risk,
    )
}

/// A probe runs only on a market that is what the scenario says.
pub fn ensure_live_market_matches_scenario(scenario: &LiveProbeMarket, live_market: &Market) -> (r:
    Result<(), PreflightError>)
    ensures
        ({
            let d = market_differences(*scenario, *live_market);
            if d.0 || d.1 || d.2 || d.3 {
                r == Err::<(), PreflightError>(
                    PreflightError::MarketMismatch {
                        yes_token: d.0,
                        no_token: d.1,
                        tick_size: d.2,
                        neg_risk: d.3,
                    },
                )
            } else {
                r is Ok
            }
        }),
{
    let live_yes = find_token(&live_market.tokens, Outcome::Yes);
    let live_no = find_token(&live_market.tokens, Outcome::No);
    let yes_token = !same_text(scenario.yes_token_id.as_str(), live_yes.as_str());
    let no_token = !same_text(scenario.no_token_id.as_str(), live_no.as_str());
    let tick_size = !same_text(
        scenario.tick_size.as_str(),
        live_market.minimum_tick_size.as_str(),
    );
    let neg_risk = scenario.neg_risk != live_market.neg_risk;
    if yes_token || no_token || tick_size || neg_risk {
        Err(PreflightError::MarketMismatch { yes_token, no_token, tick_size, neg_risk })
    } else {
        Ok(())
    }
}

/// The book that a trigger is bought from.
pub fn trigger_book<'a>(
    leg: QuoteLeg,
    yes_book: &'a OrderBookSnapshot,
    no_book: &'a OrderBookSnapshot,
) -> (r: &'a OrderBookSnapshot)
    requires
        leg.bids(),
    ensures
        *r == if leg == QuoteLeg::YesBid {
            *yes_book
        } else {
            *no_book
        },
{
    match leg {
        QuoteLeg::YesBid => yes_book,
        _ => no_book,
    }
}

/// Only bids can be triggered: ask-leg probes require pre-owned inventory.
pub fn ensure_supported_trigger_creation_leg(leg: QuoteLeg) -> (r: Result<(), PreflightError>)
    ensures
        r == if leg.bids() {
            Ok::<(), PreflightError>(())
        } else {
            Err::<(), PreflightError>(PreflightError::UnsupportedLeg(leg))
        },
{
    if leg.is_bid() {
        Ok(())
    } else {
        Err(PreflightError::UnsupportedLeg(leg))
    }
}

/// One tick above the best ask, but never above 0.99; none where the sum is too large.
pub fn derive_marketable_limit_price(best_ask: Decimal, tick: Decimal) -> (r: Option<Decimal>)
    ensures
        r is Some == sum_fits(best_ask@, tick@),
        r matches Some(limit) ==> limit@ == trigger_limit(best_ask@, tick@),
{
    proof {
        lemma_pow10_28();
    }
    Some(best_ask.checked_plus(tick)?.min(Decimal::new(99, 2)))
}

/// `p` is the lowest price of the levels.
pub open spec fn is_lowest(levels: Seq<PriceLevel>, p: int) -> bool {
    &&& forall|i: int| 0 <= i < levels.len() ==> p <= (#[trigger] levels[i]).price@
    &&& exists|i: int| 0 <= i < levels.len() && (#[trigger] levels[i]).price@ == p
}

/// `p` is the highest price of the levels.
pub open spec fn is_highest(levels: Seq<PriceLevel>, p: int) -> bool {
    &&& forall|i: int| 0 <= i < levels.len() ==> (#[trigger] levels[i]).price@ <= p
    &&& exists|i: int| 0 <= i < levels.len() && (#[trigger] levels[i]).price@ == p
}

pub fn best_ask_price(book: &OrderBookSnapshot) -> (r: Option<Decimal>)
    ensures
        r is None == (book.asks@.len() == 0),
        r is Some ==> is_lowest(book.asks@, r->0@),
{
    let levels = &book.asks;
    if levels.len() == 0 {
        return None;
    }
    let mut best = levels[0].price;
    let mut i: usize = 1;
    assert(levels@.take(1)[0] == levels@[0]);
    while i < levels.len()
        invariant
            1 <= i <= levels.len(),
            is_lowest(levels@.take(i as int), best@),
        decreases levels.len() - i,
    {
        proof {
            let old_best = best@;
            let before = levels@.take(i as int);
            let after = levels@.take(i + 1);
            let w = choose|k: int| 0 <= k < before.len() && (#[trigger] before[k]).price@ == old_best;
            assert(after[w] == before[w]);
            assert(after[i as int] == levels@[i as int]);
            assert forall|k: int| 0 <= k < i implies #[trigger] after[k] == before[k] by {}
        }
        best = best.min(levels[i].price);
        i = i + 1;
    }
    assert(levels@.take(i as int) =~= levels@);
    Some(best)
}

pub fn best_bid_price(book: &OrderBookSnapshot) -> (r: Option<Decimal>)
    ensures
        r is None == (book.bids@.len() == 0),
        r is Some ==> is_highest(book.bids@, r->0@),
{
    let levels = &book.bids;
    if levels.len() == 0 {
        return None;
    }
    let mut best = levels[0].price;
    let mut i: usize = 1;
    assert(levels@.take(1)[0] == levels@[0]);
    while i < levels.len()
        invariant
            1 <= i <= levels.len(),
            is_highest(levels@.take(i as int), best@),
        decreases levels.len() - i,
    {
        proof {
            let old_best = best@;
            let before = levels@.take(i as int);
            let after = levels@.take(i + 1);
            let w = choose|k: int| 0 <= k < before.len() && (#[trigger] before[k]).price@ == old_best;
            assert(after[w] == before[w]);
            assert(after[i as int] == levels@[i as int]);
            assert forall|k: int| 0 <= k < i implies #[trigger] after[k] == before[k] by {}
        }
        best = best.max(levels[i].price);
        i = i + 1;
    }
    assert(levels@.take(i as int) =~= levels@);
    Some(best)
}

/// Open shares of the bids among the first orders, added up in turn.
pub open spec fn open_buy_shares(s: Seq<LiveOrder>) -> int
    decreases s.len(),
{
    if s.len() == 0 {
        0
    } else if s.last().side == Side::Buy {
        sum(
            open_buy_shares(s.drop_last()),
            difference(s.last().original_size@, s.last().size_matched@),
        )
    } else {
        open_buy_shares(s.drop_last())
    }
}

/// Nothing in the open shares of the bids is too large for a decimal.
pub open spec fn open_buy_fits(s: Seq<LiveOrder>) -> bool
    decreases s.len(),
{
    s.len() == 0 || {
        let o = s.last();
        &&& open_buy_fits(s.drop_last())
        &&& o.side == Side::Buy ==> difference_fits(o.original_size@, o.size_matched@) && sum_fits(
            open_buy_shares(s.drop_last()),
            difference(o.original_size@, o.size_matched@),
        )
    }
}

/// Orders that fit also fit as far as they were added up.
proof fn lemma_open_buy_fits_so_far(s: Seq<LiveOrder>, i: int)
    requires
        0 <= i <= s.len(),
        open_buy_fits(s),
    ensures
        open_buy_fits(s.take(i)),
    decreases s.len(),
{
    if i < s.len() {
        lemma_open_buy_fits_so_far(s.drop_last(), i);
        assert(s.drop_last().take(i) =~= s.take(i));
    } else {
        assert(s.take(i) =~= s);
    }
}

/// Shares committed by the open bids of the account, unless they are too many.
pub fn committed_open_bids(orders: &Vec<LiveOrder>) -> (r: Option<Decimal>)
    ensures
        r is Some == open_buy_fits(orders@),
        r matches Some(shares) ==> shares@ == open_buy_shares(orders@),
{
    let ghost all = orders@;
    let mut total = Decimal::zero();
    let mut i: usize = 0;
    assert(all.take(0).len() == 0);
    while i < orders.len()
        invariant
            i <= orders.len(),
            all == orders@,
            total@ == open_buy_shares(all.take(i as int)),
            open_buy_fits(all.take(i as int)),
        decreases orders.len() - i,
    {
        proof {
            assert(all.take(i + 1).drop_last() =~= all.take(i as int));
            assert(all.take(i + 1).last() == all[i as int]);
            if open_buy_fits(all) {
                lemma_open_buy_fits_so_far(all, i + 1);
            }
        }
        let order = &orders[i];
        if order.side == Side::Buy {
            let open = order.original_size.checked_minus(order.size_matched)?;
            total = total.checked_plus(open)?;
        }
        i = i + 1;
    }
    assert(all.take(i as int) =~= all);
    Some(total)
}

/// What is known before a probe: what discovery says of the market (if it lists it), the open
/// orders, the balance, the position and the books.
pub struct PreflightFacts<'a> {
    pub live_market: Option<&'a Market>,
    pub global_open_orders: &'a Vec<LiveOrder>,
    pub target_open_orders: usize,
    pub balance: Decimal,
    pub baseline: &'a Position,
    pub yes_book: &'a OrderBookSnapshot,
    pub no_book: &'a OrderBookSnapshot,
    pub tolerance: Decimal,
}

/// The error as plain values.
pub enum PreflightView {
    MarketMismatch(bool, bool, bool, bool),
    OpenOrders(int),
    Inventory(int, int),
    UnsupportedLeg(QuoteLeg),
    TickSize,
    NoAskLiquidity,
    TriggerLimitPrice(int, int),
    TriggerNotional(int, int),
    HedgeShares(int, int),
    SellbackShares(int, int),
    HedgeNotional(int, int),
    OutOfRange,
}

impl View for PreflightError {
    type V = PreflightView;

    open spec fn view(&self) -> PreflightView {
        match *self {
            PreflightError::MarketMismatch { yes_token, no_token, tick_size, neg_risk } =>
            PreflightView::MarketMismatch(yes_token, no_token, tick_size, neg_risk),
            PreflightError::OpenOrders(n) => PreflightView::OpenOrders(n as int),
            PreflightError::Inventory { yes, no } => PreflightView::Inventory(yes@, no@),
            PreflightError::UnsupportedLeg(leg) => PreflightView::UnsupportedLeg(leg),
            PreflightError::TickSize => PreflightView::TickSize,
            PreflightError::NoAskLiquidity => PreflightView::NoAskLiquidity,
            PreflightError::TriggerLimitPrice { derived, max } => PreflightView::TriggerLimitPrice(
                derived@,
                max@,
            ),
            PreflightError::TriggerNotional { notional, max } => PreflightView::TriggerNotional(
                notional@,
                max@,
            ),
            PreflightError::HedgeShares { planned, max } => PreflightView::HedgeShares(
                planned@,
                max@,
            ),
            PreflightError::SellbackShares { planned, max } => PreflightView::SellbackShares(
                planned@,
                max@,
            ),
            PreflightError::HedgeNotional { planned, max } => PreflightView::HedgeNotional(
                planned@,
                max@,
            ),
            PreflightError::OutOfRange => PreflightView::OutOfRange,
        }
    }
}

/// What stands against starting on this market, if anything.
pub open spec fn market_objection(scenario: HedgeLiveProbeScenario, facts: PreflightFacts) -> Option<
    PreflightView,
> {
    let d = market_differences(scenario.market, *facts.live_market->0);
    let tolerance = facts.tolerance@;
    if facts.live_market is Some && (d.0 || d.1 || d.2 || d.3) {
        Some(PreflightView::MarketMismatch(d.0, d.1, d.2, d.3))
    } else if scenario.safety.require_clean_market && facts.target_open_orders > 0 {
        Some(PreflightView::OpenOrders(facts.target_open_orders as int))
    } else if scenario.safety.require_clean_market && (abs_value(facts.baseline.yes_size@)
        > tolerance || abs_value(facts.baseline.no_size@) > tolerance) {
        Some(PreflightView::Inventory(facts.baseline.yes_size@, facts.baseline.no_size@))
    } else if !scenario.trigger.leg.bids() {
        Some(PreflightView::UnsupportedLeg(scenario.trigger.leg))
    } else if decimal_of_text(scenario.market.tick_size@) is None {
        Some(PreflightView::TickSize)
    } else {
        None
    }
}

/// Asks of the book that the trigger is bought from.
pub open spec fn trigger_asks(leg: QuoteLeg, facts: PreflightFacts) -> Seq<PriceLevel> {
    if leg == QuoteLeg::YesBid {
        facts.yes_book.asks@
    } else {
        facts.no_book.asks@
    }
}

pub open spec fn trigger_limit(ask: int, tick: int) -> int {
    min_of(sum(ask, tick), 99 * cent())
}

pub open spec fn trigger_notional(shares: int, limit: int) -> int {
    product(whole_cents(shares), limit)
}

/// What stands against buying the trigger at `ask`, if anything.
pub open spec fn trigger_objection(scenario: HedgeLiveProbeScenario, ask: int, tick: int) -> Option<
    PreflightView,
> {
    let limit = trigger_limit(ask, tick);
    let shares = scenario.trigger.shares@;
    let notional = trigger_notional(shares, limit);
    if !sum_fits(ask, tick) {
        Some(PreflightView::OutOfRange)
    } else if limit > scenario.trigger.max_trigger_limit_price@ {
        Some(
            PreflightView::TriggerLimitPrice(limit, scenario.trigger.max_trigger_limit_price@),
        )
    } else if !cuttable(shares) || !product_fits(whole_cents(shares), limit) {
        Some(PreflightView::OutOfRange)
    } else if notional > scenario.safety.max_trigger_notional_usdc@ {
        Some(PreflightView::TriggerNotional(notional, scenario.safety.max_trigger_notional_usdc@))
    } else {
        None
    }
}

/// Money left for the hedge once the trigger is paid.
pub open spec fn hedge_budget(facts: PreflightFacts, notional: int) -> int {
    max_of(
        difference(
            difference(facts.balance@, open_buy_shares(facts.global_open_orders@)),
            notional,
        ),
        0,
    )
}

/// Neither the money left for the hedge nor anything in its plan is too large for a decimal.
pub open spec fn hedge_fits(
    scenario: HedgeLiveProbeScenario,
    facts: PreflightFacts,
    ask: int,
    tick: int,
) -> bool {
    let open = open_buy_shares(facts.global_open_orders@);
    let notional = trigger_notional(scenario.trigger.shares@, trigger_limit(ask, tick));
    &&& difference_fits(facts.balance@, open)
    &&& difference_fits(difference(facts.balance@, open), notional)
    &&& plan_fits(probe_input(scenario, facts, ask, tick))
}

/// What the planner is given once the trigger filled at `ask`: the asks of the other token, and
/// the bids of the filled one.
pub open spec fn probe_input(
    scenario: HedgeLiveProbeScenario,
    facts: PreflightFacts,
    ask: int,
    tick: int,
) -> PlanInput {
    let notional = trigger_notional(scenario.trigger.shares@, trigger_limit(ask, tick));
    let yes = scenario.trigger.leg == QuoteLeg::YesBid;
    PlanInput {
        fill: ask,
        asks: if yes {
            facts.no_book.asks@
        } else {
            facts.yes_book.asks@
        },
        bids: if yes {
            facts.yes_book.bids@
        } else {
            facts.no_book.bids@
        },
        total: scenario.trigger.shares@,
        budget: hedge_budget(facts, notional),
        tick,
    }
}

/// `plan` is what a probe will do when the planner resolves the fill as `res`.
pub open spec fn plans(
    plan: LiveProbePlan,
    scenario: HedgeLiveProbeScenario,
    facts: PreflightFacts,
    ask: int,
    tick: int,
    res: HedgeResolution,
) -> bool {
    let limit = trigger_limit(ask, tick);
    let notional = trigger_notional(scenario.trigger.shares@, limit);
    &&& plan.trigger_leg == scenario.trigger.leg
    &&& plan.trigger_token_id@ == if leg_is_yes(scenario.trigger.leg) {
        scenario.market.yes_token_id@
    } else {
        scenario.market.no_token_id@
    }
    &&& plan.trigger_shares@ == scenario.trigger.shares@
    &&& plan.trigger_snapshot_ask_price@ == ask
    &&& plan.trigger_limit_price@ == limit
    &&& plan.trigger_notional_usdc@ == notional
    &&& plan.hedge_side == Side::Buy
    &&& plan.planned_hedge_shares@ == res.hedge_shares@
    &&& plan.planned_sellback_shares@ == res.sellback_shares@
    &&& plan.planned_hedge_notional_usdc@ == product(res.hedge_shares@, res.hedge_limit_price@)
    &&& plan.available_hedge_usdc_after_trigger@ == hedge_budget(facts, notional)
}

/// What of a plan goes beyond the safety limits, if anything.
pub open spec fn safety_objection(safety: LiveProbeSafety, plan: LiveProbePlan) -> Option<
    PreflightView,
> {
    if plan.planned_hedge_shares@ > safety.max_planned_hedge_shares@ {
        Some(
            PreflightView::HedgeShares(
                plan.planned_hedge_shares@,
                safety.max_planned_hedge_shares@,
            ),
        )
    } else if plan.planned_sellback_shares@ > safety.max_planned_sellback_shares@ {
        Some(
            PreflightView::SellbackShares(
                plan.planned_sellback_shares@,
                safety.max_planned_sellback_shares@,
            ),
        )
    } else if plan.planned_hedge_notional_usdc@ > safety.max_planned_hedge_notional_usdc@ {
        Some(
            PreflightView::HedgeNotional(
                plan.planned_hedge_notional_usdc@,
                safety.max_planned_hedge_notional_usdc@,
            ),
        )
    } else {
        None
    }
}

pub fn enforce_preflight_safety(safety: &LiveProbeSafety, plan: &LiveProbePlan) -> (r: Result<
    (),
    PreflightError,
>)
    ensures
        match safety_objection(*safety, *plan) {
            Some(e) => r is Err && r->Err_0@ == e,
            None => r is Ok,
        },
{
    if plan.planned_hedge_shares > safety.max_planned_hedge_shares {
        return Err(
            PreflightError::HedgeShares {
                planned: plan.planned_hedge_shares,
                max: safety.max_planned_hedge_shares,
            },
        );
    }
    if plan.planned_sellback_shares > safety.max_planned_sellback_shares {
        return Err(
            PreflightError::SellbackShares {
                planned: plan.planned_sellback_shares,
                max: safety.max_planned_sellback_shares,
            },
        );
    }
    if plan.planned_hedge_notional_usdc > safety.max_planned_hedge_notional_usdc {
        return Err(
            PreflightError::HedgeNotional {
                planned: plan.planned_hedge_notional_usdc,
                max: safety.max_planned_hedge_notional_usdc,
            },
        );
    }
    Ok(())
}

/// What the preflight of a probe may return.
pub open spec fn preflight_result(
    scenario: HedgeLiveProbeScenario,
    facts: PreflightFacts,
    r: Result<LiveProbePlan, PreflightError>,
) -> bool {
    let tick = decimal_of_text(scenario.market.tick_size@)->0;
    let asks = trigger_asks(scenario.trigger.leg, facts);
    match market_objection(scenario, facts) {
        Some(e) => r is Err && r->Err_0@ == e,
        None => if !open_buy_fits(facts.global_open_orders@) {
            r is Err && r->Err_0@ == PreflightView::OutOfRange
        } else if asks.len() == 0 {
            r is Err && r->Err_0@ == PreflightView::NoAskLiquidity
        } else {
            exists|ask: int| #[trigger]
                is_lowest(asks, ask) && probed_at(scenario, facts, ask, tick, r)
        },
    }
}

/// What the preflight returns when the best ask is `ask`.
pub open spec fn probed_at(
    scenario: HedgeLiveProbeScenario,
    facts: PreflightFacts,
    ask: int,
    tick: int,
    r: Result<LiveProbePlan, PreflightError>,
) -> bool {
    match trigger_objection(scenario, ask, tick) {
        Some(e) => r is Err && r->Err_0@ == e,
        None => if !hedge_fits(scenario, facts, ask, tick) {
            r is Err && r->Err_0@ == PreflightView::OutOfRange
        } else {
            exists|n: nat, res: HedgeResolution| #[trigger]
                planned(probe_input(scenario, facts, ask, tick), n, res) && probed_with(
                    scenario,
                    facts,
                    ask,
                    tick,
                    res,
                    r,
                )
        },
    }
}

/// What the preflight returns when the planner resolves the fill as `res`.
pub open spec fn probed_with(
    scenario: HedgeLiveProbeScenario,
    facts: PreflightFacts,
    ask: int,
    tick: int,
    res: HedgeResolution,
    r: Result<LiveProbePlan, PreflightError>,
) -> bool {
    if !product_fits(res.hedge_shares@, res.hedge_limit_price@) {
        r is Err && r->Err_0@ == PreflightView::OutOfRange
    } else {
        exists|plan: LiveProbePlan| #[trigger]
            plans(plan, scenario, facts, ask, tick, res) && (match safety_objection(
                scenario.safety,
                plan,
            ) {
                Some(e) => r is Err && r->Err_0@ == e,
                None => r == Ok::<LiveProbePlan, PreflightError>(plan),
            })
    }
}

/// The plan of a probe whose fill is resolved as `resolution`, unless the hedge costs too much to
/// reckon.
fn build_preflight_plan(
    scenario: &HedgeLiveProbeScenario,
    facts: &PreflightFacts,
    trigger_fill_price: Decimal,
    tick: Ghost<int>,
    available_hedge_usdc_after_trigger: Decimal,
    trigger_limit_price: Decimal,
    trigger_notional_usdc: Decimal,
    resolution: &HedgeResolution,
) -> (r: Option<LiveProbePlan>)
    requires
        scenario.trigger.leg.bids(),
        trigger_limit_price@ == trigger_limit(trigger_fill_price@, tick@),
        trigger_notional_usdc@ == trigger_notional(scenario.trigger.shares@, trigger_limit_price@),
        available_hedge_usdc_after_trigger@ == hedge_budget(*facts, trigger_notional_usdc@),
    ensures
        r is Some == product_fits(resolution.hedge_shares@, resolution.hedge_limit_price@),
        r matches Some(plan) ==> plans(
            plan,
            *scenario,
            *facts,
            trigger_fill_price@,
            tick@,
            *resolution,
        ),
{
    let trigger_leg = scenario.trigger.leg;
    let trigger_token_id = token_id_for_leg(trigger_leg, &scenario.market);
    let (_, hedge_side) = HedgeExecutor::compute_hedge_params(
        trigger_leg,
        scenario.market.yes_token_id.as_str(),
        scenario.market.no_token_id.as_str(),
    );
    let planned_hedge_notional_usdc = resolution.hedge_shares.checked_times(
        resolution.hedge_limit_price,
    )?;
    Some(
        LiveProbePlan {
            trigger_leg,
            trigger_token_id,
            trigger_shares: scenario.trigger.shares,
            trigger_snapshot_ask_price: trigger_fill_price,
            trigger_limit_price,
            trigger_notional_usdc,
            hedge_side,
            planned_hedge_shares: resolution.hedge_shares,
            planned_sellback_shares: resolution.sellback_shares,
            planned_hedge_notional_usdc,
            available_hedge_usdc_after_trigger,
        },
    )
}

/// The trigger: its limit price and what it costs, unless something stands against it.
fn price_trigger(scenario: &HedgeLiveProbeScenario, ask: Decimal, tick: Decimal) -> (r: Result<
    (Decimal, Decimal),
    PreflightError,
>)
    ensures
        match trigger_objection(*scenario, ask@, tick@) {
            Some(e) => r is Err && r->Err_0@ == e,
            None => r matches Ok((limit, notional)) && limit@ == trigger_limit(ask@, tick@)
                && notional@ == trigger_notional(scenario.trigger.shares@, limit@),
        },
{
    let limit = match derive_marketable_limit_price(ask, tick) {
        Some(limit) => limit,
        None => return Err(PreflightError::OutOfRange),
    };
    if limit > scenario.trigger.max_trigger_limit_price {
        return Err(
            PreflightError::TriggerLimitPrice {
                derived: limit,
                max: scenario.trigger.max_trigger_limit_price,
            },
        );
    }
    if !scenario.trigger.shares.has_hundredfold() {
        return Err(PreflightError::OutOfRange);
    }
    let notional = match normalize_share_size(scenario.trigger.shares).checked_times(limit) {
        Some(notional) => notional,
        None => return Err(PreflightError::OutOfRange),
    };
    if notional > scenario.safety.max_trigger_notional_usdc {
        return Err(
            PreflightError::TriggerNotional {
                notional,
                max: scenario.safety.max_trigger_notional_usdc,
            },
        );
    }
    Ok((limit, notional))
}

/// The money left for the hedge once the trigger is paid, unless it is too much.
fn money_left(balance: Decimal, committed: Decimal, notional: Decimal) -> (r: Option<Decimal>)
    ensures
        r is Some == (difference_fits(balance@, committed@) && difference_fits(
            difference(balance@, committed@),
            notional@,
        )),
        r matches Some(left) ==> left@ == max_of(
            difference(difference(balance@, committed@), notional@),
            0,
        ),
{
    let left = balance.checked_minus(committed)?.checked_minus(notional)?;
    Some(left.max(Decimal::zero()))
}

/// Checks everything that is known before a probe, and plans it.
pub fn preflight_live_probe(scenario: &HedgeLiveProbeScenario, facts: &PreflightFacts) -> (r: Result<
    LiveProbePlan,
    PreflightError,
>)
    ensures
        preflight_result(*scenario, *facts, r),
{
    match facts.live_market {
        Some(live_market) => {
            match ensure_live_market_matches_scenario(&scenario.market, live_market) {
                Ok(_) => {},
                Err(e) => {
                    return Err(e);
                },
            }
        },
        None => {},
    }
    if scenario.safety.require_clean_market {
        if facts.target_open_orders > 0 {
            return Err(PreflightError::OpenOrders(facts.target_open_orders));
        }
        if facts.baseline.yes_size.abs() > facts.tolerance || facts.baseline.no_size.abs()
            > facts.tolerance {
            return Err(
                PreflightError::Inventory {
                    yes: facts.baseline.yes_size,
                    no: facts.baseline.no_size,
                },
            );
        }
    }
    match ensure_supported_trigger_creation_leg(scenario.trigger.leg) {
        Ok(_) => {},
        Err(e) => {
            return Err(e);
        },
    }
    let tick = match Decimal::parse(scenario.market.tick_size.as_str()) {
        Some(tick) => tick,
        None => {
            return Err(PreflightError::TickSize);
        },
    };
    let committed_exposure = match committed_open_bids(facts.global_open_orders) {
        Some(shares) => shares,
        None => {
            return Err(PreflightError::OutOfRange);
        },
    };
    let book = trigger_book(scenario.trigger.leg, facts.yes_book, facts.no_book);
    let ask = match best_ask_price(book) {
        Some(ask) => ask,
        None => {
            return Err(PreflightError::NoAskLiquidity);
        },
    };
    assert(is_lowest(trigger_asks(scenario.trigger.leg, *facts), ask@));
    let r = probe_at(scenario, facts, ask, tick, committed_exposure);
    assert(probed_at(*scenario, *facts, ask@, tick@, r));
    r
}

/// Prices and plans a probe from the best ask on.
fn probe_at(
    scenario: &HedgeLiveProbeScenario,
    facts: &PreflightFacts,
    ask: Decimal,
    tick: Decimal,
    committed_exposure: Decimal,
) -> (r: Result<LiveProbePlan, PreflightError>)
    requires
        scenario.trigger.leg.bids(),
        committed_exposure@ == open_buy_shares(facts.global_open_orders@),
    ensures
        probed_at(*scenario, *facts, ask@, tick@, r),
{
    let ghost inp = probe_input(*scenario, *facts, ask@, tick@);
    let (trigger_limit_price, trigger_notional_usdc) = match price_trigger(scenario, ask, tick) {
        Ok(priced) => priced,
        Err(e) => return Err(e),
    };
    let available = match money_left(facts.balance, committed_exposure, trigger_notional_usdc) {
        Some(available) => available,
        None => return Err(PreflightError::OutOfRange),
    };
    let (hedge_book, filled_book) = match scenario.trigger.leg {
        QuoteLeg::YesBid => (facts.no_book, facts.yes_book),
        _ => (facts.yes_book, facts.no_book),
    };
    let resolution = match try_plan_fill_resolution(
        ask,
        hedge_book.asks.as_slice(),
        filled_book.bids.as_slice(),
        scenario.trigger.shares,
        available,
        tick,
    ) {
        Some(resolution) => resolution,
        None => return Err(PreflightError::OutOfRange),
    };
    let ghost n = choose|n: nat| planned(inp, n, resolution);
    assert(planned(inp, n, resolution));
    let plan = match build_preflight_plan(
        scenario,
        facts,
        ask,
        Ghost(tick@),
        available,
        trigger_limit_price,
        trigger_notional_usdc,
        &resolution,
    ) {
        Some(plan) => plan,
        None => {
            let r = Err(PreflightError::OutOfRange);
            assert(probed_with(*scenario, *facts, ask@, tick@, resolution, r));
            return r;
        },
    };
    let ghost plan_view = plan;
    let r = match enforce_preflight_safety(&scenario.safety, &plan) {
        Ok(_) => Ok(plan),
        Err(e) => Err(e),
    };
    assert(plans(plan_view, *scenario, *facts, ask@, tick@, resolution));
    assert(probed_with(*scenario, *facts, ask@, tick@, resolution, r));
    r
}

} // verus!
