//! What a replayed step feeds in, and when its events are as expected.

use crate::json::Json;
use crate::models::events::{OrderEventType, UserEventView};
use crate::models::{QuoteLeg, Side};
use crate::runtime::hedge_replay::harness::{first_balance, HedgeReplayScenario};
use crate::runtime::hedge_replay::{
    comes_out, covers, covers_fields, fallback_leg, fed_in, leg_outcome, leg_token, matched, meets,
    named_leg, next_match, other_token, replayed_order, replayed_trade, scenario_objection,
    seeded_order, ExpectedCriticalEvent, ReplayEventSummary, ReplayOrderEvent, ReplayScenarioError,
    ReplayStep, ScenarioMarket, ScenarioTrackedOrder, ScenarioTrade,
};
use crate::text::opt_text;
use crate::time::Timestamp;
use crate::trading::order_manager::{OrderManager, TrackedView};
use vstd::prelude::*;

verus! {

/// A leg trades its own token against the other, and a trade that states its side and outcome names
/// its leg.
pub proof fn law_legs_and_tokens_go_together(leg: QuoteLeg, market: ScenarioMarket, side: Side)
    ensures
        leg == QuoteLeg::YesBid || leg == QuoteLeg::YesAsk ==> leg_token(leg, market)
            == market.yes_token_id@ && other_token(leg, market) == market.no_token_id@,
        leg == QuoteLeg::NoBid || leg == QuoteLeg::NoAsk ==> leg_token(leg, market)
            == market.no_token_id@ && other_token(leg, market) == market.yes_token_id@,
        leg == QuoteLeg::YesBid || leg == QuoteLeg::NoBid ==> named_leg(
            Side::Buy,
            Some(leg_outcome(leg)),
        ) == Some(leg),
        leg == QuoteLeg::YesAsk || leg == QuoteLeg::NoAsk ==> named_leg(
            Side::Sell,
            Some(leg_outcome(leg)),
        ) == Some(leg),
        named_leg(side, None) is None,
        named_leg(side, Some("YES"@)) == Some(QuoteLeg::YesBid) <==> side == Side::Buy,
        named_leg(side, Some("NO"@)) == Some(QuoteLeg::NoAsk) <==> side == Side::Sell,
{
    reveal_strlit("YES");
    reveal_strlit("NO");
    assert("YES"@.len() == 3 && "NO"@.len() == 2);
}

/// An order is seeded as the scenario states it, on the token and the side of its leg.
pub proof fn law_seeded_orders_are_as_stated(
    market: ScenarioMarket,
    order: ScenarioTrackedOrder,
    trace_id: Seq<char>,
    now: Timestamp,
)
    ensures
        ({
            let t = seeded_order(market, order, trace_id, now);
            let bid = order.leg == QuoteLeg::YesBid || order.leg == QuoteLeg::NoBid;
            let yes = order.leg == QuoteLeg::YesBid || order.leg == QuoteLeg::YesAsk;
            &&& t.size == order.size@ && t.matched_size == order.matched_size@ && t.price
                == order.price@
            &&& t.leg == order.leg && t.order_id == order.order_id@ && t.condition_id
                == market.condition_id@
            &&& (t.side == Side::Buy) == bid
            &&& yes ==> t.token_id == market.yes_token_id@ && t.opposite_token_id
                == market.no_token_id@
            &&& !yes ==> t.token_id == market.no_token_id@ && t.opposite_token_id
                == market.yes_token_id@
            &&& order.trace_id matches Some(id) ==> t.trace_id == id@
        }),
{
}

/// A trade is fed in as stated. What it does not state comes from the leg of the maker's order where
/// that is followed, else of the taker's, else from its side and outcome; without any of them it
/// is not fed in.
pub proof fn law_trades_are_fed_in_as_stated(
    market: ScenarioMarket,
    trade: ScenarioTrade,
    maker: Option<TrackedView>,
    taker: Option<TrackedView>,
    now: Timestamp,
)
    ensures
        ({
            let r = replayed_trade(market, trade, fallback_leg(maker, taker), now);
            &&& maker is None && taker is None && opt_text(trade.outcome) is None ==> r is None
            &&& maker is Some || taker is Some ==> r is Some
            &&& r matches Some(t) ==> {
                &&& t.id == trade.trade_id@ && t.side == trade.side
                &&& t.price == trade.price@ && t.size == trade.size@
                &&& trade.asset_id matches Some(asset) ==> t.asset_id == asset@
                &&& trade.outcome matches Some(outcome) ==> t.outcome == outcome@
                &&& trade.condition_id matches Some(id) ==> t.condition_id == id@
                &&& trade.condition_id is None ==> t.condition_id == market.condition_id@
                &&& trade.asset_id is None && maker is Some ==> t.asset_id == leg_token(
                    maker->0.leg,
                    market,
                )
                &&& trade.asset_id is None && maker is None && taker is Some ==> t.asset_id
                    == leg_token(taker->0.leg, market)
                &&& t.maker_order_id == opt_text(trade.maker_order_id) && t.taker_order_id
                    == opt_text(trade.taker_order_id)
            }
        }),
{
}

/// A change of an order is fed in as stated, where the order is followed, and not at all where it is
/// not.
pub proof fn law_order_changes_are_fed_in_as_stated(
    market: ScenarioMarket,
    order: ReplayOrderEvent,
    known: Option<TrackedView>,
    event_type: OrderEventType,
    now: Timestamp,
)
    ensures
        ({
            let r = replayed_order(market, order, known, event_type, now);
            &&& r is Some == known is Some
            &&& r matches Some(e) ==> {
                &&& e.order_id == order.order_id@ && e.event_type == event_type && e.side
                    == order.side
                &&& e.price == order.price@ && e.original_size == order.original_size@
                    && e.size_matched == order.size_matched@
                &&& order.asset_id matches Some(asset) ==> e.asset_id == asset@
                &&& order.asset_id is None ==> e.asset_id == leg_token(known->0.leg, market)
                &&& order.condition_id is None ==> e.condition_id == market.condition_id@
            }
        }),
{
}

proof fn lemma_fields(
    actual: Seq<(String, Json)>,
    expected: Seq<(String, Json)>,
    n: nat,
)
    requires
        n <= expected.len(),
    ensures
        covers_fields(actual, expected, n) == (forall|i: int|
            0 <= i < n ==> {
                let at = crate::json::field_at(actual, (#[trigger] expected[i]).0@);
                at < actual.len() && covers(actual[at].1, expected[i].1)
            }),
    decreases n,
{
    if n > 0 {
        lemma_fields(actual, expected, (n - 1) as nat);
        assert(expected[n - 1] == expected[n - 1]);
    }
}

/// A payload is as expected where every field that is expected is in it and is as expected. Nothing
/// is expected of a null, and what is no object must be the same.
pub proof fn law_payloads_hold_every_expected_field(
    actual: Vec<(String, Json)>,
    expected: Vec<(String, Json)>,
    any: Json,
)
    ensures
        covers(Json::Object(actual), Json::Object(expected)) == (forall|i: int|
            0 <= i < expected@.len() ==> {
                let at = crate::json::field_at(actual@, (#[trigger] expected@[i]).0@);
                at < actual@.len() && covers(actual@[at].1, expected@[i].1)
            }),
        covers(any, Json::Null),
        !(any is Object) ==> !covers(any, Json::Object(expected)) || crate::json::same_json(
            any,
            Json::Object(expected),
        ),
{
    lemma_fields(actual@, expected@, expected@.len());
}

proof fn lemma_match_by(
    actual: Seq<ReplayEventSummary>,
    wanted: ExpectedCriticalEvent,
    from: int,
    at: int,
)
    requires
        0 <= from <= at < actual.len(),
        meets(actual[at], wanted),
    ensures
        next_match(actual, wanted, from) matches Some(next) && next <= at + 1,
    decreases at - from,
{
    if !meets(actual[from], wanted) {
        lemma_match_by(actual, wanted, from + 1, at);
    }
}

proof fn lemma_all_matched(
    expected: Seq<ExpectedCriticalEvent>,
    actual: Seq<ReplayEventSummary>,
    places: Seq<int>,
    n: nat,
)
    requires
        comes_out(expected, actual, places),
        n <= expected.len(),
    ensures
        matched(expected, actual, n).1.len() == 0,
        0 <= matched(expected, actual, n).0,
        n > 0 ==> matched(expected, actual, n).0 <= places[n - 1] + 1,
        n == 0 ==> matched(expected, actual, n).0 == 0,
    decreases n,
{
    if n > 0 {
        lemma_all_matched(expected, actual, places, (n - 1) as nat);
        let cursor = matched(expected, actual, (n - 1) as nat).0;
        if n > 1 {
            assert(places[n - 2] < places[n - 1]);
        }
        assert(0 <= places[n - 1] < actual.len());
        lemma_match_by(actual, expected[n - 1], cursor, places[n - 1]);
        crate::runtime::hedge_replay::lemma_next_match(actual, expected[n - 1], cursor);
    }
}

/// Where all expected events came out in order, whatever came between them, nothing is reported
/// missing.
pub proof fn law_events_in_order_are_not_missed(
    expected: Seq<ExpectedCriticalEvent>,
    actual: Seq<ReplayEventSummary>,
    places: Seq<int>,
)
    requires
        comes_out(expected, actual, places),
    ensures
        matched(expected, actual, expected.len()).1.len() == 0,
{
    lemma_all_matched(expected, actual, places, expected.len());
}

/// An event is as expected where its kind is, its source where one is expected, and its payload.
pub proof fn law_events_meet_kind_source_and_payload(
    actual: ReplayEventSummary,
    wanted: ExpectedCriticalEvent,
)
    ensures
        meets(actual, wanted) == (actual.event_type@ == wanted.event_type@ && (
        wanted.source_component is None || opt_text(wanted.source_component) == Some(
            actual.source_component@,
        )) && covers(actual.payload, wanted.payload)),
{
}

/// A scenario is refused for its market, or else for having no step, and for nothing else.
pub proof fn law_scenarios_need_a_market_and_a_step(
    market_check: Result<(), String>,
    sequence: Seq<ReplayStep>,
)
    ensures
        scenario_objection(market_check, sequence) is None <==> market_check is Ok && sequence.len()
            > 0,
        market_check matches Err(why) ==> scenario_objection(market_check, sequence) == Some(
            ReplayScenarioError::Market(why),
        ),
        market_check is Ok && sequence.len() == 0 ==> scenario_objection(market_check, sequence)
            == Some(ReplayScenarioError::EmptySequence),
{
}

/// A step feeds in what it is named for: a connection, a trade, a change of an order or its
/// cancellation; the others feed in nothing.
pub proof fn law_steps_feed_in_what_they_are_named_for(
    step: ReplayStep,
    orders: OrderManager,
    market: ScenarioMarket,
    now: Timestamp,
)
    ensures
        ({
            let e = fed_in(step, orders, market, now);
            &&& step matches ReplayStep::UserConnected { reconnect } ==> e == Some(
                UserEventView::Connected(reconnect),
            )
            &&& step is UserTrade ==> e is None || e->0 is Trade
            &&& step is UserOrderUpdate ==> e is None || (e->0 matches UserEventView::Order(o)
                && o.event_type == OrderEventType::Update)
            &&& step is UserOrderCancellation ==> e is None || (e->0 matches UserEventView::Order(o)
                && o.event_type == OrderEventType::Cancellation)
            &&& step is RefreshQuotes || step is FlushPendingFillFallbacks
                || step is RecoverOrphanedPositions || step is ReconcileUnhedgedPositions ==> e
                is None
        }),
{
}

/// A replay begins with the balance that is set, else with the first that the exchange gives.
pub proof fn law_replays_begin_with_a_balance(scenario: HedgeReplayScenario)
    ensures
        scenario.setup.cached_balance matches Some(b) ==> first_balance(scenario) == b@,
        scenario.setup.cached_balance is None && scenario.balances@.len() > 0 ==> first_balance(
            scenario,
        ) == scenario.balances@[0]@,
        scenario.setup.cached_balance is None && scenario.balances@.len() == 0 ==> first_balance(
            scenario,
        ) == 0,
{
}

} // verus!
