//! The evaluation of a market, from its books to the decision.

use crate::config::StrategyConfig;
use crate::decimal::{
    abs_value, difference, difference_fits, product, product_fits, sum, sum_fits, unit, value_of,
    Decimal,
};
use crate::keyed::{find, lemma_find};
use crate::models::book::{first_price, walked};
use crate::models::{
    CanonicalMarket, LiveOrder, OrderBookSnapshot, OrderStatus, QuoteCandidate, QuoteLeg, QuoteSet,
    QuoteStatus, Side,
};
use crate::strategy::hedgeability::{
    apply_hedgeability_gate, assessable, gated, hedge_levels, opposite_book, reports_walk,
    try_compute_hedgeability, HedgeabilityReport,
};
use crate::strategy::quote_engine::{
    market_tick, quotes_fit, quotes_market, try_compute_quote_set,
};
use crate::strategy::score_proxy::{
    dynamic_size, estimate_fits, score_estimate, size_fits, try_compute_dynamic_size,
    try_compute_score_proxy, ScoreProxyResult,
};
use crate::strategy::viability::{
    try_compute_viability, viability, viability_fits, RewardViability,
};
use crate::text::{opt_text, same_text};
use crate::trading::order_manager::placement::{fresh_trace_id, is_uuid_text};
use crate::trading::positions::{
    position_cost, position_cost_fits, position_views, position_with_id, PositionManager,
};
use crate::trading::risk::RiskManager;
use vstd::prelude::*;
use vstd::string::*;

pub mod laws;

verus! {

/// The largest size that is quoted when no budget is tracked.
pub const SHADOW_MAX_SIZE: u64 = 10_000;

/// What was found about a market.
#[derive(Debug)]
pub struct Evaluation {
    pub dynamic_size: Decimal,
    pub quote_set: QuoteSet,
    pub hedge_reports: Vec<HedgeabilityReport>,
    pub score_proxy: ScoreProxyResult,
    pub viability: RewardViability,
    pub is_viable: bool,
}

/// Why a market cannot be evaluated: some number becomes too large for a decimal, or the tick is
/// zero.
#[derive(Clone, Copy, Debug, PartialEq, Eq, Structural)]
pub enum OutOfRange {
    Size,
    Quotes,
    /// The quote at that place cannot be held against the opposite book.
    Quote(usize),
    Score,
    Viability,
}

/// The size in which a market is quoted.
pub open spec fn market_size(
    market: CanonicalMarket,
    yes_book: OrderBookSnapshot,
    no_book: OrderBookSnapshot,
    config: StrategyConfig,
) -> int {
    dynamic_size(
        yes_book,
        no_book,
        market.reward_config.max_spread@,
        config.score_proxy,
        market.reward_config.min_size@,
        SHADOW_MAX_SIZE * unit(),
    )
}

/// The quotes of a market before any is held against the opposite book.
pub open spec fn proposes(
    q: QuoteSet,
    market: CanonicalMarket,
    yes_book: OrderBookSnapshot,
    no_book: OrderBookSnapshot,
    config: StrategyConfig,
) -> bool {
    quotes_market(
        q,
        market,
        yes_book,
        no_book,
        config,
        true,
        market_size(market, yes_book, no_book, config),
        market_tick(market),
    )
}

/// A quote can be held against the opposite book.
#[verifier::opaque]
pub open spec fn holds_against(
    c: QuoteCandidate,
    yes_book: OrderBookSnapshot,
    no_book: OrderBookSnapshot,
) -> bool {
    assessable(hedge_levels(c.leg, yes_book, no_book), c.size@)
}

/// The report and the gated quote that the opposite book gives for a quote.
#[verifier::opaque]
pub open spec fn held_against(
    before: QuoteCandidate,
    after: QuoteCandidate,
    report: HedgeabilityReport,
    yes_book: OrderBookSnapshot,
    no_book: OrderBookSnapshot,
    config: StrategyConfig,
) -> bool {
    let levels = hedge_levels(before.leg, yes_book, no_book);
    &&& reports_walk(
        report,
        before,
        opposite_book(before.leg, yes_book, no_book).token_id@,
        first_price(levels),
        walked(levels, before.size@),
        config.max_slippage_bps,
    )
    &&& (after.status, opt_text(after.reason)) == gated(
        before.status,
        opt_text(before.reason),
        report.is_approved,
        opt_text(report.rejection_reason),
    )
    &&& after.condition_id == before.condition_id
    &&& after.leg == before.leg
    &&& after.price == before.price
    &&& after.size == before.size
}

/// The quotes and reports after all quotes were held against the opposite books.
pub open spec fn all_held_against(
    before: Seq<QuoteCandidate>,
    after: Seq<QuoteCandidate>,
    reports: Seq<HedgeabilityReport>,
    yes_book: OrderBookSnapshot,
    no_book: OrderBookSnapshot,
    config: StrategyConfig,
) -> bool {
    &&& after.len() == before.len()
    &&& reports.len() == before.len()
    &&& forall|i: int|
        0 <= i < before.len() ==> holds_against(#[trigger] before[i], yes_book, no_book)
    &&& forall|i: int|
        0 <= i < before.len() ==> held_against(
            before[i],
            #[trigger] after[i],
            reports[i],
            yes_book,
            no_book,
            config,
        )
}

/// The evaluation follows from the quotes that were proposed.
pub open spec fn evaluates(
    e: Evaluation,
    q: QuoteSet,
    market: CanonicalMarket,
    yes_book: OrderBookSnapshot,
    no_book: OrderBookSnapshot,
    config: StrategyConfig,
) -> bool {
    &&& e.dynamic_size@ == market_size(market, yes_book, no_book, config)
    &&& e.quote_set.condition_id@ == market.condition_id@
    &&& all_held_against(
        q.candidates@,
        e.quote_set.candidates@,
        e.hedge_reports@,
        yes_book,
        no_book,
        config,
    )
    &&& e.score_proxy@ == score_estimate(
        e.quote_set.candidates@,
        yes_book,
        no_book,
        market.reward_config.max_spread@,
        config.score_proxy,
    )
    &&& e.viability@ == viability(
        market.reward_config.daily_reward_total@,
        e.score_proxy.estimated_share@,
        config.reward_discount_factor@,
        e.quote_set.candidates@,
        e.hedge_reports@,
        e.dynamic_size@,
    )
    &&& e.is_viable == (e.viability@.per_share >= config.min_return_pct@)
}

/// The size in which a market is quoted can be worked out.
pub open spec fn market_size_fits(
    market: CanonicalMarket,
    yes_book: OrderBookSnapshot,
    no_book: OrderBookSnapshot,
    config: StrategyConfig,
) -> bool {
    size_fits(yes_book, no_book, market.reward_config.max_spread@, config.score_proxy)
}

/// The quotes that were proposed, and what became of them against the opposite books.
pub open spec fn holds_all(
    q: QuoteSet,
    after: Seq<QuoteCandidate>,
    reports: Seq<HedgeabilityReport>,
    market: CanonicalMarket,
    yes_book: OrderBookSnapshot,
    no_book: OrderBookSnapshot,
    config: StrategyConfig,
) -> bool {
    &&& proposes(q, market, yes_book, no_book, config)
    &&& all_held_against(q.candidates@, after, reports, yes_book, no_book, config)
}

/// The score of the quotes can be worked out.
pub open spec fn market_score_fits(
    candidates: Seq<QuoteCandidate>,
    market: CanonicalMarket,
    yes_book: OrderBookSnapshot,
    no_book: OrderBookSnapshot,
    config: StrategyConfig,
) -> bool {
    estimate_fits(
        candidates,
        yes_book,
        no_book,
        market.reward_config.max_spread@,
        config.score_proxy,
    )
}

/// What the quotes are expected to earn can be worked out.
pub open spec fn market_viability_fits(
    candidates: Seq<QuoteCandidate>,
    reports: Seq<HedgeabilityReport>,
    market: CanonicalMarket,
    yes_book: OrderBookSnapshot,
    no_book: OrderBookSnapshot,
    config: StrategyConfig,
) -> bool {
    viability_fits(
        market.reward_config.daily_reward_total@,
        score_estimate(
            candidates,
            yes_book,
            no_book,
            market.reward_config.max_spread@,
            config.score_proxy,
        ).share,
        config.reward_discount_factor@,
        candidates,
        reports,
    )
}

/// What an evaluation gives: the decision, or the first step that cannot be worked out.
pub open spec fn evaluation_of(
    market: CanonicalMarket,
    yes_book: OrderBookSnapshot,
    no_book: OrderBookSnapshot,
    config: StrategyConfig,
    r: Result<Evaluation, OutOfRange>,
) -> bool {
    let priced = market_size_fits(market, yes_book, no_book, config) && quotes_fit(
        market,
        yes_book,
        no_book,
        config,
        market_tick(market),
    );
    match r {
        Ok(e) => {
            &&& priced
            &&& market_score_fits(e.quote_set.candidates@, market, yes_book, no_book, config)
            &&& market_viability_fits(
                e.quote_set.candidates@,
                e.hedge_reports@,
                market,
                yes_book,
                no_book,
                config,
            )
            &&& exists|q: QuoteSet| #[trigger]
                proposes(q, market, yes_book, no_book, config) && evaluates(
                    e,
                    q,
                    market,
                    yes_book,
                    no_book,
                    config,
                )
        },
        Err(OutOfRange::Size) => !market_size_fits(market, yes_book, no_book, config),
        Err(OutOfRange::Quotes) => market_size_fits(market, yes_book, no_book, config) && !priced,
        Err(OutOfRange::Quote(n)) => priced && exists|q: QuoteSet| #[trigger]
            proposes(q, market, yes_book, no_book, config) && n < q.candidates@.len()
                && !holds_against(q.candidates@[n as int], yes_book, no_book) && forall|j: int|
                0 <= j < n ==> holds_against(#[trigger] q.candidates@[j], yes_book, no_book),
        Err(OutOfRange::Score) => priced && exists|
            q: QuoteSet,
            after: Seq<QuoteCandidate>,
            reports: Seq<HedgeabilityReport>,
        | #[trigger]
            holds_all(q, after, reports, market, yes_book, no_book, config) && !market_score_fits(
                after,
                market,
                yes_book,
                no_book,
                config,
            ),
        Err(OutOfRange::Viability) => priced && exists|
            q: QuoteSet,
            after: Seq<QuoteCandidate>,
            reports: Seq<HedgeabilityReport>,
        | #[trigger]
            holds_all(q, after, reports, market, yes_book, no_book, config) && market_score_fits(
                after,
                market,
                yes_book,
                no_book,
                config,
            ) && !market_viability_fits(after, reports, market, yes_book, no_book, config),
    }
}

/// Evaluate a single market from its books: size, quotes, hedgeability, score and viability.
///
/// No budget is tracked here: a large ceiling leaves the scoring unconstrained, and asks are
/// simulated only.
#[verifier::spinoff_prover]
#[verifier::rlimit(60)]
pub fn evaluate_market(
    market: &CanonicalMarket,
    yes_book: &OrderBookSnapshot,
    no_book: &OrderBookSnapshot,
    config: &StrategyConfig,
) -> (r: Result<Evaluation, OutOfRange>)
    ensures
        evaluation_of(*market, *yes_book, *no_book, *config, r),
{
    let size = match try_compute_dynamic_size(
        yes_book,
        no_book,
        &market.reward_config,
        &config.score_proxy,
        market.reward_config.min_size,
        Decimal::from_u64(SHADOW_MAX_SIZE),
    ) {
        Some(size) => size,
        None => return Err(OutOfRange::Size),
    };
    let quotes = match try_compute_quote_set(
        market,
        yes_book,
        no_book,
        config,
        true,
        Some(size),
    ) {
        Some(quotes) => quotes,
        None => return Err(OutOfRange::Quotes),
    };
    assert(proposes(quotes, *market, *yes_book, *no_book, *config));
    let (candidates, hedge_reports) = match hold_all(
        &quotes.candidates,
        yes_book,
        no_book,
        config,
    ) {
        Ok(held) => held,
        Err(i) => return Err(OutOfRange::Quote(i)),
    };
    assert(holds_all(
        quotes,
        candidates@,
        hedge_reports@,
        *market,
        *yes_book,
        *no_book,
        *config,
    ));
    let quote_set = QuoteSet { condition_id: quotes.condition_id, candidates };
    let score_proxy = match try_compute_score_proxy(
        &quote_set,
        yes_book,
        no_book,
        &market.reward_config,
        &config.score_proxy,
    ) {
        Some(score_proxy) => score_proxy,
        None => return Err(OutOfRange::Score),
    };
    let (viability, is_viable) = match try_compute_viability(
        market,
        &quote_set,
        &hedge_reports,
        config,
        &score_proxy,
        size,
    ) {
        Some(viability) => viability,
        None => return Err(OutOfRange::Viability),
    };
    Ok(
        Evaluation {
            dynamic_size: size,
            quote_set,
            hedge_reports,
            score_proxy,
            viability,
            is_viable,
        },
    )
}

/// Holds a quote against the opposite book, if that can be done.
fn hold_one(
    proposed: &QuoteCandidate,
    yes_book: &OrderBookSnapshot,
    no_book: &OrderBookSnapshot,
    config: &StrategyConfig,
) -> (r: Option<(QuoteCandidate, HedgeabilityReport)>)
    ensures
        match r {
            Some((candidate, report)) => {
                &&& holds_against(*proposed, *yes_book, *no_book)
                &&& held_against(*proposed, candidate, report, *yes_book, *no_book, *config)
            },
            None => !holds_against(*proposed, *yes_book, *no_book),
        },
{
    reveal(holds_against);
    reveal(held_against);
    let report = match try_compute_hedgeability(proposed, yes_book, no_book, config) {
        Some(report) => report,
        None => return None,
    };
    let mut candidate = proposed.clone();
    apply_hedgeability_gate(&mut candidate, &report);
    Some((candidate, report))
}

/// Holds all quotes against the opposite books, or names the first that cannot be.
fn hold_all(
    proposed: &Vec<QuoteCandidate>,
    yes_book: &OrderBookSnapshot,
    no_book: &OrderBookSnapshot,
    config: &StrategyConfig,
) -> (r: Result<(Vec<QuoteCandidate>, Vec<HedgeabilityReport>), usize>)
    ensures
        match r {
            Ok((candidates, reports)) => all_held_against(
                proposed@,
                candidates@,
                reports@,
                *yes_book,
                *no_book,
                *config,
            ),
            Err(i) => {
                &&& i < proposed@.len()
                &&& !holds_against(proposed@[i as int], *yes_book, *no_book)
                &&& forall|j: int|
                    0 <= j < i ==> holds_against(#[trigger] proposed@[j], *yes_book, *no_book)
            },
        },
{
    let mut candidates: Vec<QuoteCandidate> = Vec::new();
    let mut reports: Vec<HedgeabilityReport> = Vec::new();
    let mut i: usize = 0;
    while i < proposed.len()
        invariant
            i <= proposed@.len(),
            all_held_against(
                proposed@.take(i as int),
                candidates@,
                reports@,
                *yes_book,
                *no_book,
                *config,
            ),
            forall|j: int|
                0 <= j < i ==> holds_against(#[trigger] proposed@[j], *yes_book, *no_book),
        decreases proposed@.len() - i,
    {
        match hold_one(&proposed[i], yes_book, no_book, config) {
            Some((candidate, report)) => {
                proof {
                    lemma_hold_step(
                        proposed@.take(i as int),
                        candidates@,
                        reports@,
                        proposed@[i as int],
                        candidate,
                        report,
                        *yes_book,
                        *no_book,
                        *config,
                    );
                    assert(proposed@.take(i + 1) =~= proposed@.take(i as int).push(
                        proposed@[i as int],
                    ));
                }
                candidates.push(candidate);
                reports.push(report);
            },
            None => return Err(i),
        }
        i = i + 1;
    }
    assert(proposed@.take(i as int) =~= proposed@);
    Ok((candidates, reports))
}

proof fn lemma_hold_step(
    before: Seq<QuoteCandidate>,
    after: Seq<QuoteCandidate>,
    reports: Seq<HedgeabilityReport>,
    proposed: QuoteCandidate,
    candidate: QuoteCandidate,
    report: HedgeabilityReport,
    yes_book: OrderBookSnapshot,
    no_book: OrderBookSnapshot,
    config: StrategyConfig,
)
    requires
        all_held_against(before, after, reports, yes_book, no_book, config),
        holds_against(proposed, yes_book, no_book),
        held_against(proposed, candidate, report, yes_book, no_book, config),
    ensures
        all_held_against(
            before.push(proposed),
            after.push(candidate),
            reports.push(report),
            yes_book,
            no_book,
            config,
        ),
{
    let b = before.push(proposed);
    let a = after.push(candidate);
    let r = reports.push(report);
    assert forall|i: int| 0 <= i < b.len() implies holds_against(
        #[trigger] b[i],
        yes_book,
        no_book,
    ) by {
        if i < before.len() {
            assert(b[i] == before[i]);
        }
    }
    assert forall|i: int| 0 <= i < b.len() implies held_against(
        b[i],
        #[trigger] a[i],
        r[i],
        yes_book,
        no_book,
        config,
    ) by {
        if i < before.len() {
            assert(a[i] == after[i]);
        }
    }
}

impl LiveOrder {
    pub open spec fn active(self) -> bool {
        self.status == OrderStatus::Live
    }

    /// The order rests on the exchange.
    pub fn is_active(&self) -> (r: bool)
        ensures
            r == self.active(),
    {
        self.status == OrderStatus::Live
    }
}

/// What the active bids tie up: price times what is left, added up from the first.
pub open spec fn bid_capital(orders: Seq<LiveOrder>) -> int
    decreases orders.len(),
{
    if orders.len() == 0 {
        0
    } else {
        let o = orders.last();
        if o.active() && o.side == Side::Buy {
            sum(
                bid_capital(orders.drop_last()),
                product(o.price@, difference(o.original_size@, o.size_matched@)),
            )
        } else {
            bid_capital(orders.drop_last())
        }
    }
}

/// Nothing in what the bids tie up is too large for a decimal.
pub open spec fn capital_fits(orders: Seq<LiveOrder>) -> bool
    decreases orders.len(),
{
    orders.len() == 0 || {
        let o = orders.last();
        let left = difference(o.original_size@, o.size_matched@);
        &&& capital_fits(orders.drop_last())
        &&& o.active() && o.side == Side::Buy ==> {
            &&& difference_fits(o.original_size@, o.size_matched@)
            &&& product_fits(o.price@, left)
            &&& sum_fits(bid_capital(orders.drop_last()), product(o.price@, left))
        }
    }
}

/// Orders that fit also fit as far as they were added up.
proof fn lemma_capital_fits_so_far(orders: Seq<LiveOrder>, i: int)
    requires
        0 <= i <= orders.len(),
        capital_fits(orders),
    ensures
        capital_fits(orders.take(i)),
    decreases orders.len(),
{
    if i < orders.len() {
        lemma_capital_fits_so_far(orders.drop_last(), i);
        assert(orders.drop_last().take(i) =~= orders.take(i));
    } else {
        assert(orders.take(i) =~= orders);
    }
}

/// Capital tied up in active bids, unless it is too large.
pub fn order_committed_capital(open_orders: &Vec<LiveOrder>) -> (r: Option<Decimal>)
    ensures
        r is Some == capital_fits(open_orders@),
        r matches Some(capital) ==> capital@ == bid_capital(open_orders@),
{
    let mut total = Decimal::zero();
    let mut i: usize = 0;
    assert(open_orders@.take(0).len() == 0);
    while i < open_orders.len()
        invariant
            i <= open_orders.len(),
            total@ == bid_capital(open_orders@.take(i as int)),
            capital_fits(open_orders@.take(i as int)),
        decreases open_orders.len() - i,
    {
        let order = &open_orders[i];
        proof {
            assert(open_orders@.take(i + 1).drop_last() =~= open_orders@.take(i as int));
            assert(open_orders@.take(i + 1).last() == open_orders@[i as int]);
            if capital_fits(open_orders@) {
                lemma_capital_fits_so_far(open_orders@, i + 1);
            }
        }
        if order.is_active() && order.side == Side::Buy {
            let remaining = order.original_size.checked_minus(order.size_matched)?;
            let value = order.price.checked_times(remaining)?;
            total = total.checked_plus(value)?;
        }
        i = i + 1;
    }
    assert(open_orders@.take(i as int) =~= open_orders@);
    Some(total)
}

/// The balance that is reckoned with: ten thousand where it is not known.
pub open spec fn known_balance(balance: Option<int>) -> int {
    match balance {
        Some(b) => b,
        None => 10_000 * unit(),
    }
}

/// What is left of the balance.
pub open spec fn budget_left(balance: Option<int>, committed: int) -> int {
    difference(known_balance(balance), committed)
}

/// The budget beside what is committed to orders and positions, unless it is too large.
pub fn available_budget(api_balance: Option<Decimal>, committed_capital: Decimal) -> (r: Option<
    Decimal,
>)
    ensures
        r is Some == difference_fits(known_balance(value_of(api_balance)), committed_capital@),
        r matches Some(budget) ==> budget@ == budget_left(
            value_of(api_balance),
            committed_capital@,
        ),
{
    let balance = match api_balance {
        Some(balance) => balance,
        None => Decimal::from_u64(10_000),
    };
    balance.checked_minus(committed_capital)
}

/// One entry for each quote, in order: its leg, and a trace id.
pub open spec fn traces_quotes(
    ids: Seq<(QuoteLeg, String)>,
    candidates: Seq<QuoteCandidate>,
) -> bool {
    &&& ids.len() == candidates.len()
    &&& forall|i: int|
        0 <= i < ids.len() ==> (#[trigger] ids[i]).0 == candidates[i].leg && is_uuid_text(ids[i].1@)
}

/// A new trace id for each quote, in order.
pub fn build_quote_trace_ids(candidates: &Vec<QuoteCandidate>) -> (r: Vec<(QuoteLeg, String)>)
    ensures
        traces_quotes(r@, candidates@),
{
    let mut r: Vec<(QuoteLeg, String)> = Vec::new();
    let mut i: usize = 0;
    while i < candidates.len()
        invariant
            i <= candidates.len(),
            r@.len() == i,
            forall|j: int|
                0 <= j < i ==> (#[trigger] r@[j]).0 == candidates@[j].leg && is_uuid_text(r@[j].1@),
        decreases candidates.len() - i,
    {
        r.push((candidates[i].leg, fresh_trace_id()));
        i = i + 1;
    }
    r
}

/// What a cycle can spend.
#[derive(Clone, Copy, Debug)]
pub struct CycleFunds {
    pub committed_capital: Decimal,
    pub available_budget: Decimal,
}

/// Whether a live cycle is run: not under a global halt.
pub fn cycle_may_run(risk: &RiskManager) -> (r: bool)
    ensures
        r == !risk@.global_halt,
{
    !risk.is_globally_halted()
}

/// Nothing in the funds of a cycle is too large for a decimal.
pub open spec fn funds_fit(
    positions: PositionManager,
    orders: Seq<LiveOrder>,
    balance: Option<int>,
) -> bool {
    let cost = position_cost(position_views(positions.positions@));
    &&& capital_fits(orders)
    &&& position_cost_fits(position_views(positions.positions@))
    &&& sum_fits(bid_capital(orders), cost)
    &&& difference_fits(known_balance(balance), sum(bid_capital(orders), cost))
}

/// Capital tied up in orders and positions.
pub open spec fn committed(positions: PositionManager, orders: Seq<LiveOrder>) -> int {
    sum(bid_capital(orders), position_cost(position_views(positions.positions@)))
}

/// Capital tied up in orders and positions, and the budget beside it, unless they are too large.
pub fn cycle_funds(
    positions: &PositionManager,
    open_orders: &Vec<LiveOrder>,
    api_balance: Option<Decimal>,
) -> (r: Option<CycleFunds>)
    ensures
        r is Some == funds_fit(*positions, open_orders@, value_of(api_balance)),
        r matches Some(funds) ==> {
            &&& funds.committed_capital@ == committed(*positions, open_orders@)
            &&& funds.available_budget@ == budget_left(
                value_of(api_balance),
                funds.committed_capital@,
            )
        },
{
    let order_committed = order_committed_capital(open_orders)?;
    let position_committed = positions.checked_position_cost()?;
    let committed_capital = order_committed.checked_plus(position_committed)?;
    let available_budget = available_budget(api_balance, committed_capital)?;
    Some(CycleFunds { committed_capital, available_budget })
}

/// After a market was evaluated: the risk manager learns of the position in it, if there is one.
pub fn market_evaluated(
    risk: &mut RiskManager,
    positions: &PositionManager,
    condition_id: &str,
    now: i64,
)
    requires
        old(risk).well_formed(),
        forall|i: int|
            0 <= i < positions.positions@.len() ==> (
            #[trigger] positions.positions@[i]).comparable(),
    ensures
        final(risk).well_formed(),
        final(risk).limits() == old(risk).limits(),
        ({
            let all = position_views(positions.positions@);
            match find(all, position_with_id(condition_id@)) {
                Some(i) => final(risk)@ == old(risk)@.exposure_seen(
                    condition_id@,
                    abs_value(difference(all[i].yes_size, all[i].no_size)),
                    old(risk).limits().hedge_exposure_tolerance@,
                    now as int,
                ),
                None => final(risk)@ == old(risk)@,
            }
        }),
{
    proof {
        lemma_find(position_views(positions.positions@), position_with_id(condition_id@));
    }
    match positions.get_position(condition_id) {
        Some(position) => {
            proof {
                let all = position_views(positions.positions@);
                let i = find(all, position_with_id(condition_id@))->0;
                assert(all[i] == positions.positions@[i]@);
                assert(positions.positions@[i].comparable());
            }
            risk.update_market_exposure(condition_id, &position, now);
        },
        None => {},
    }
}

/// The active orders in a market.
pub open spec fn active_in(condition_id: Seq<char>) -> spec_fn(LiveOrder) -> bool {
    |o: LiveOrder| o.condition_id@ == condition_id && o.active()
}

/// How many orders are active in a market.
pub fn count_active_orders(open_orders: &Vec<LiveOrder>, condition_id: &str) -> (r: usize)
    ensures
        r == open_orders@.filter(active_in(condition_id@)).len(),
{
    let ghost p = active_in(condition_id@);
    let mut count: usize = 0;
    let mut i: usize = 0;
    assert(open_orders@.take(0).filter(p).len() == 0) by {
        reveal(Seq::filter);
    }
    while i < open_orders.len()
        invariant
            i <= open_orders.len(),
            p == active_in(condition_id@),
            count == open_orders@.take(i as int).filter(p).len(),
            count <= i,
        decreases open_orders.len() - i,
    {
        let order = &open_orders[i];
        proof {
            reveal(Seq::filter);
            assert(open_orders@.take(i + 1).drop_last() =~= open_orders@.take(i as int));
        }
        if same_text(order.condition_id.as_str(), condition_id) && order.is_active() {
            count = count + 1;
        }
        i = i + 1;
    }
    assert(open_orders@.take(i as int) =~= open_orders@);
    count
}

/// What the monitor is told of a quote.
#[derive(Debug)]
pub struct QuoteEvent {
    pub trace_id: String,
    pub leg: QuoteLeg,
    pub approved: bool,
}

/// The trace id of the last entry for a leg, empty where there is none.
pub open spec fn trace_for(ids: Seq<(QuoteLeg, String)>, leg: QuoteLeg) -> Seq<char>
    decreases ids.len(),
{
    if ids.len() == 0 {
        Seq::empty()
    } else if ids.last().0 == leg {
        ids.last().1@
    } else {
        trace_for(ids.drop_last(), leg)
    }
}

fn trace_of(ids: &Vec<(QuoteLeg, String)>, leg: QuoteLeg) -> (r: String)
    ensures
        r@ == trace_for(ids@, leg),
{
    let mut n: usize = ids.len();
    assert(ids@.take(n as int) =~= ids@);
    while n > 0
        invariant
            n <= ids.len(),
            trace_for(ids@.take(n as int), leg) == trace_for(ids@, leg),
        decreases n,
    {
        assert(ids@.take(n as int).drop_last() =~= ids@.take(n - 1));
        if ids[n - 1].0 == leg {
            return ids[n - 1].1.clone();
        }
        n = n - 1;
    }
    String::new()
}

/// The events tell of the quotes, each under the trace id of its leg, as approved or not.
pub open spec fn tells_of(
    events: Seq<QuoteEvent>,
    candidates: Seq<QuoteCandidate>,
    ids: Seq<(QuoteLeg, String)>,
) -> bool {
    &&& events.len() == candidates.len()
    &&& forall|i: int|
        0 <= i < events.len() ==> (#[trigger] events[i]).trace_id@ == trace_for(
            ids,
            candidates[i].leg,
        ) && events[i].leg == candidates[i].leg && events[i].approved == (candidates[i].status
            == QuoteStatus::Approved)
}

/// What the monitor is told of the quotes of a market: each under its trace id, as approved or
/// rejected.
pub fn quote_events(candidates: &Vec<QuoteCandidate>, trace_ids: &Vec<(QuoteLeg, String)>) -> (r:
    Vec<QuoteEvent>)
    ensures
        tells_of(r@, candidates@, trace_ids@),
{
    let mut r: Vec<QuoteEvent> = Vec::new();
    let mut i: usize = 0;
    while i < candidates.len()
        invariant
            i <= candidates.len(),
            r@.len() == i,
            forall|j: int|
                0 <= j < i ==> (#[trigger] r@[j]).trace_id@ == trace_for(
                    trace_ids@,
                    candidates@[j].leg,
                ) && r@[j].leg == candidates@[j].leg && r@[j].approved == (candidates@[j].status
                    == QuoteStatus::Approved),
        decreases candidates.len() - i,
    {
        let candidate = &candidates[i];
        r.push(
            QuoteEvent {
                trace_id: trace_of(trace_ids, candidate.leg),
                leg: candidate.leg,
                approved: candidate.status == QuoteStatus::Approved,
            },
        );
        i = i + 1;
    }
    r
}

/// An evaluation approves a quote only if it can be hedged, and never an ask.
pub proof fn law_evaluation_is_hedgeable(
    e: Evaluation,
    q: QuoteSet,
    market: CanonicalMarket,
    yes_book: OrderBookSnapshot,
    no_book: OrderBookSnapshot,
    config: StrategyConfig,
    i: int,
)
    requires
        proposes(q, market, yes_book, no_book, config),
        evaluates(e, q, market, yes_book, no_book, config),
        0 <= i < e.quote_set.candidates@.len(),
        e.quote_set.candidates@[i].status == QuoteStatus::Approved,
    ensures
        e.hedge_reports@[i].is_approved,
        e.quote_set.candidates@[i].leg.bids(),
        walked(
            hedge_levels(e.quote_set.candidates@[i].leg, yes_book, no_book),
            e.quote_set.candidates@[i].size@,
        ).remaining <= 0,
{
    reveal(held_against);
    let after = e.quote_set.candidates@[i];
    assert(held_against(
        q.candidates@[i],
        after,
        e.hedge_reports@[i],
        yes_book,
        no_book,
        config,
    ));
    assert(i == 0 || i == 1 || i == 2 || i == 3);
}

} // verus!
