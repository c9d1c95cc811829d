//! What a cycle can spend, and what an evaluation and its events must satisfy.

use crate::config::StrategyConfig;
use crate::decimal::{
    lemma_representable_bound, lemma_six_place_product, lemma_twelve_places_add_up, mantissa_bound,
    product, representable, six_places, unit,
};
use crate::models::{
    CanonicalMarket, LiveOrder, OrderBookSnapshot, OrderStatus, QuoteCandidate, QuoteLeg, QuoteSet,
    QuoteStatus, Side,
};
use crate::runtime::orchestrator::{
    active_in, bid_capital, budget_left, capital_fits, committed, evaluates, market_size, tells_of,
    trace_for, traces_quotes, Evaluation, QuoteEvent,
};
use crate::strategy::viability::laws::law_reward_is_a_part_of_the_pool;
use crate::trading::positions::{position_cost, position_views, PositionManager};
use vstd::prelude::*;

verus! {

/// The order is a bid that rests on the exchange.
pub open spec fn resting_bid(o: LiveOrder) -> bool {
    o.status == OrderStatus::Live && o.side == Side::Buy
}

/// Price times what is left of every resting bid, in square units.
pub open spec fn tied_up(orders: Seq<LiveOrder>) -> int
    decreases orders.len(),
{
    if orders.len() == 0 {
        0
    } else {
        let o = orders.last();
        tied_up(orders.drop_last()) + if resting_bid(o) {
            o.price@ * (o.original_size@ - o.size_matched@)
        } else {
            0
        }
    }
}

/// Price and shares of up to six places, none below zero.
pub open spec fn plain_bid(o: LiveOrder) -> bool {
    &&& six_places(o.price@)
    &&& six_places(o.original_size@ - o.size_matched@)
    &&& representable(o.original_size@ - o.size_matched@)
}

proof fn lemma_tied_up_positive(orders: Seq<LiveOrder>)
    requires
        forall|i: int|
            0 <= i < orders.len() && resting_bid(#[trigger] orders[i]) ==> plain_bid(orders[i]),
    ensures
        tied_up(orders) >= 0,
    decreases orders.len(),
{
    if orders.len() > 0 {
        let rest = orders.drop_last();
        let o = orders[orders.len() - 1];
        assert(resting_bid(o) ==> plain_bid(o));
        assert forall|i: int|
            0 <= i < rest.len() && resting_bid(#[trigger] rest[i]) implies plain_bid(rest[i]) by {
            assert(rest[i] == orders[i]);
        }
        lemma_tied_up_positive(rest);
        if resting_bid(o) {
            let left = o.original_size@ - o.size_matched@;
            assert(o.price@ * left >= 0) by (nonlinear_arith)
                requires
                    o.price@ >= 0,
                    left >= 0,
            ;
        }
    }
}

proof fn lemma_tied_up(orders: Seq<LiveOrder>)
    requires
        forall|i: int|
            0 <= i < orders.len() && resting_bid(#[trigger] orders[i]) ==> plain_bid(orders[i]),
        tied_up(orders) < mantissa_bound() * 10_000_000_000_000_000 * unit(),
    ensures
        bid_capital(orders) * unit() == tied_up(orders),
        capital_fits(orders),
        bid_capital(orders) >= 0,
        bid_capital(orders) % 10_000_000_000_000_000 == 0,
    decreases orders.len(),
{
    if orders.len() > 0 {
        let rest = orders.drop_last();
        let o = orders[orders.len() - 1];
        assert(resting_bid(o) ==> plain_bid(o));
        assert forall|i: int|
            0 <= i < rest.len() && resting_bid(#[trigger] rest[i]) implies plain_bid(rest[i]) by {
            assert(rest[i] == orders[i]);
        }
        lemma_tied_up_positive(rest);
        if resting_bid(o) {
            let left = o.original_size@ - o.size_matched@;
            lemma_representable_bound(left);
            assert(o.price@ * left >= 0) by (nonlinear_arith)
                requires
                    o.price@ >= 0,
                    left >= 0,
            ;
            lemma_tied_up(rest);
            lemma_six_place_product(o.price@, left);
            assert((bid_capital(rest) + product(o.price@, left)) * unit() == tied_up(orders));
            lemma_twelve_places_add_up(bid_capital(rest), product(o.price@, left));
        } else {
            lemma_tied_up(rest);
        }
    }
}

/// Orders tie up the price of what is left of the bids that rest, and nothing else: exactly, for
/// numbers of up to six places.
pub proof fn law_resting_bids_tie_up_capital(orders: Seq<LiveOrder>)
    requires
        forall|i: int|
            0 <= i < orders.len() && resting_bid(#[trigger] orders[i]) ==> plain_bid(orders[i]),
        tied_up(orders) < mantissa_bound() * 10_000_000_000_000_000 * unit(),
    ensures
        bid_capital(orders) * unit() == tied_up(orders),
        capital_fits(orders),
{
    lemma_tied_up(orders);
}

/// What orders and positions tie up and what a cycle may spend make up the balance, or ten thousand
/// where it is not known.
pub proof fn law_budget_and_commitments_make_up_the_balance(
    positions: PositionManager,
    orders: Seq<LiveOrder>,
    balance: Option<int>,
    whole: int,
)
    requires
        whole == match balance {
            Some(b) => b,
            None => 10_000 * unit(),
        },
        representable(
            bid_capital(orders) + position_cost(position_views(positions.positions@)),
        ),
        representable(
            whole - (bid_capital(orders) + position_cost(position_views(positions.positions@))),
        ),
    ensures
        budget_left(balance, committed(positions, orders)) + bid_capital(orders) + position_cost(
            position_views(positions.positions@),
        ) == whole,
{
}

/// An order counts as active in a market where it is of that market and live.
pub proof fn law_live_orders_are_active(condition_id: Seq<char>, o: LiveOrder)
    ensures
        active_in(condition_id)(o) == (o.condition_id@ == condition_id && o.status
            == OrderStatus::Live),
{
}

/// A market is viable exactly where its edge for each share reaches the least return. Its reward is
/// its pool times the estimated share times the discount; and gated quotes keep their place, leg,
/// price and size.
#[verifier::spinoff_prover]
#[verifier::rlimit(60)]
pub proof fn law_evaluation_holds_its_return_against_the_least(
    e: Evaluation,
    q: QuoteSet,
    market: CanonicalMarket,
    yes_book: OrderBookSnapshot,
    no_book: OrderBookSnapshot,
    config: StrategyConfig,
    part: int,
    reward: int,
    i: int,
)
    requires
        evaluates(e, q, market, yes_book, no_book, config),
        part * unit() == market.reward_config.daily_reward_total@ * e.score_proxy.estimated_share@,
        reward * unit() == part * config.reward_discount_factor@,
        representable(part) && representable(reward),
        0 <= i < q.candidates@.len(),
    ensures
        e.is_viable == (e.viability.return_per_share@ >= config.min_return_pct@),
        e.viability.estimated_reward@ == reward,
        representable(reward - e.viability.estimated_hedge_cost@) ==> e.viability.estimated_edge@
            + e.viability.estimated_hedge_cost@ == reward,
        e.quote_set.candidates@[i].leg == q.candidates@[i].leg,
        e.quote_set.candidates@[i].price == q.candidates@[i].price,
        e.quote_set.candidates@[i].size == q.candidates@[i].size,
        e.hedge_reports@[i].trigger_leg == q.candidates@[i].leg,
        e.quote_set.candidates@[i].status == QuoteStatus::Approved ==> e.hedge_reports@[i].is_approved
            && q.candidates@[i].status == QuoteStatus::Approved,
{
    reveal(crate::runtime::orchestrator::held_against);
    assert(crate::runtime::orchestrator::held_against(
        q.candidates@[i],
        e.quote_set.candidates@[i],
        e.hedge_reports@[i],
        yes_book,
        no_book,
        config,
    ));
    law_reward_is_a_part_of_the_pool(
        market.reward_config.daily_reward_total@,
        e.score_proxy.estimated_share@,
        config.reward_discount_factor@,
        e.quote_set.candidates@,
        e.hedge_reports@,
        e.dynamic_size@,
        part,
        reward,
    );
    let v = e.viability;
    assert(v@ == crate::strategy::viability::ViabilityView {
        reward: v.estimated_reward@,
        hedge_cost: v.estimated_hedge_cost@,
        edge: v.estimated_edge@,
        ..v@
    });
}

proof fn lemma_trace(ids: Seq<(QuoteLeg, String)>, leg: QuoteLeg, k: int)
    requires
        0 <= k < ids.len(),
        ids[k].0 == leg,
        forall|j: int| k < j < ids.len() ==> (#[trigger] ids[j]).0 != leg,
    ensures
        trace_for(ids, leg) == ids[k].1@,
    decreases ids.len(),
{
    if k < ids.len() - 1 {
        assert(ids[ids.len() - 1].0 != leg);
        let t = ids.drop_last();
        assert forall|j: int| k < j < t.len() implies (#[trigger] t[j]).0 != leg by {
            assert(t[j] == ids[j]);
        }
        lemma_trace(t, leg, k);
    }
}

/// Where every quote is on a leg of its own, each event carries the trace id that was made for its
/// quote, and says whether that is approved.
pub proof fn law_events_carry_their_own_trace(
    events: Seq<QuoteEvent>,
    candidates: Seq<QuoteCandidate>,
    ids: Seq<(QuoteLeg, String)>,
    i: int,
)
    requires
        tells_of(events, candidates, ids),
        traces_quotes(ids, candidates),
        forall|j: int, k: int|
            0 <= j < k < candidates.len() ==> (#[trigger] candidates[j]).leg != (
            #[trigger] candidates[k]).leg,
        0 <= i < events.len(),
    ensures
        events[i].trace_id@ == ids[i].1@,
        events[i].leg == candidates[i].leg,
        events[i].approved == (candidates[i].status == QuoteStatus::Approved),
        events.len() == candidates.len(),
{
    assert forall|j: int| i < j < ids.len() implies (#[trigger] ids[j]).0 != candidates[i].leg by {
        assert(candidates[i].leg != candidates[j].leg);
    }
    lemma_trace(ids, candidates[i].leg, i);
    assert(events[i].trace_id@ == trace_for(ids, candidates[i].leg));
}

/// A market is quoted in no fewer shares than earn rewards and in no more than ten thousand; in as few as
/// earn rewards where nothing tells how many are needed.
pub proof fn law_market_sizes_earn_rewards(
    market: CanonicalMarket,
    yes_book: OrderBookSnapshot,
    no_book: OrderBookSnapshot,
    config: StrategyConfig,
)
    requires
        market.reward_config.min_size@ <= 10_000 * unit(),
    ensures
        ({
            let size = market_size(market, yes_book, no_book, config);
            &&& market.reward_config.min_size@ <= size <= 10_000 * unit()
            &&& market.reward_config.max_spread@ <= 0 ==> size == market.reward_config.min_size@
            &&& (yes_book.bids@.len() == 0 && no_book.bids@.len() == 0) ==> size
                == market.reward_config.min_size@
        }),
{
}

} // verus!
