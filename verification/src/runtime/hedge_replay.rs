//! Replay of recorded account events: what each step feeds in, and what must come out.

use crate::decimal::Decimal;
use crate::json::{field_at, find_field, json_eq, same_json, Json};
use crate::models::events::{
    OrderEvent, OrderEventType, OrderEventView, TradeEvent,
    TradeStatus, TradeView, UserEvent, UserEventView,
};
use crate::models::{Position, QuoteLeg, Side};
use crate::text::{
    append_texts, clone_opt_text, join2, opt_quoted_chars, opt_quoted_text, opt_text, push_text,
    same_text, texts,
};
use crate::time::{secs_or_now, time_or, Timestamp};
use crate::trading::order_manager::placement::{fresh_trace_id, is_uuid_text};
use crate::trading::order_manager::{OrderManager, TrackedOrder, TrackedView};
use vstd::prelude::*;
use vstd::string::*;

pub mod harness;
pub mod laws;

verus! {

pub fn default_true() -> (r: bool)
    ensures
        r,
{
    true
}

/// The market of a scenario.
#[derive(Debug)]
pub struct ScenarioMarket {
    pub condition_id: String,
    pub yes_token_id: String,
    pub no_token_id: String,
    pub tick_size: String,
}

/// An order that is tracked when the replay begins.
#[derive(Debug)]
pub struct ScenarioTrackedOrder {
    pub order_id: String,
    pub trace_id: Option<String>,
    pub leg: QuoteLeg,
    pub price: Decimal,
    pub size: Decimal,
    pub matched_size: Decimal,
    pub created_at_unix: Option<i64>,
}

/// A position that is held when the replay begins.
#[derive(Clone, Copy, Debug)]
pub struct ScenarioPositionStep {
    pub yes_size: Decimal,
    pub no_size: Decimal,
    pub yes_avg_price: Decimal,
    pub no_avg_price: Decimal,
}

/// A trade that the account's stream reports.
#[derive(Debug)]
pub struct ScenarioTrade {
    pub trade_id: String,
    pub side: Side,
    pub price: Decimal,
    pub size: Decimal,
    pub condition_id: Option<String>,
    pub asset_id: Option<String>,
    pub outcome: Option<String>,
    pub timestamp_unix: Option<i64>,
    pub maker_order_id: Option<String>,
    pub taker_order_id: Option<String>,
}

/// A change of an order that the account's stream reports.
#[derive(Debug)]
pub struct ReplayOrderEvent {
    pub order_id: String,
    pub side: Side,
    pub price: Decimal,
    pub original_size: Decimal,
    pub size_matched: Decimal,
    pub condition_id: Option<String>,
    pub asset_id: Option<String>,
    pub outcome: Option<String>,
    pub timestamp_unix: Option<i64>,
}

/// One step of a replay.
#[derive(Debug)]
pub enum ReplayStep {
    UserConnected { reconnect: bool },
    UserTrade { trade: ScenarioTrade },
    UserOrderUpdate { order: ReplayOrderEvent },
    UserOrderCancellation { order: ReplayOrderEvent },
    RefreshQuotes,
    FlushPendingFillFallbacks,
    RecoverOrphanedPositions,
    ReconcileUnhedgedPositions,
}

/// A critical event that must come out.
#[derive(Debug)]
pub struct ExpectedCriticalEvent {
    pub event_type: String,
    pub source_component: Option<String>,
    pub payload: Json,
}

/// A critical event that came out.
#[derive(Debug)]
pub struct ReplayEventSummary {
    pub event_type: String,
    pub source_component: String,
    pub payload: Json,
}

/// What is wrong with a scenario.
#[derive(Debug)]
pub enum ReplayScenarioError {
    /// What the check of the market found.
    Market(String),
    EmptySequence,
}

impl ReplayScenarioError {
    pub open spec fn message_chars(self) -> Seq<char> {
        match self {
            ReplayScenarioError::Market(why) => why@,
            ReplayScenarioError::EmptySequence => "Replay scenario sequence must not be empty"@,
        }
    }

    pub fn message(&self) -> (r: String)
        ensures
            r@ == self.message_chars(),
    {
        match self {
            ReplayScenarioError::Market(why) => why.clone(),
            ReplayScenarioError::EmptySequence => {
                "Replay scenario sequence must not be empty".to_owned()
            },
        }
    }
}

/// What is wrong with a scenario, if anything: its market first, then that it has no step.
pub open spec fn scenario_objection(
    market_check: Result<(), String>,
    sequence: Seq<ReplayStep>,
) -> Option<ReplayScenarioError> {
    match market_check {
        Err(why) => Some(ReplayScenarioError::Market(why)),
        Ok(_) => if sequence.len() == 0 {
            Some(ReplayScenarioError::EmptySequence)
        } else {
            None
        },
    }
}

/// A scenario has a market that passed its check, and at least one step.
pub fn validate_scenario(market_check: Result<(), String>, sequence: &Vec<ReplayStep>) -> (r: Result<
    (),
    ReplayScenarioError,
>)
    ensures
        match scenario_objection(market_check, sequence@) {
            Some(e) => r == Err::<(), ReplayScenarioError>(e),
            None => r is Ok,
        },
{
    match market_check {
        Err(why) => Err(ReplayScenarioError::Market(why)),
        Ok(_) => {
            if sequence.len() == 0 {
                return Err(ReplayScenarioError::EmptySequence);
            }
            Ok(())
        },
    }
}

/// The leg is on the YES token.
pub open spec fn on_yes(leg: QuoteLeg) -> bool {
    leg == QuoteLeg::YesBid || leg == QuoteLeg::YesAsk
}

pub open spec fn leg_token(leg: QuoteLeg, market: ScenarioMarket) -> Seq<char> {
    if on_yes(leg) {
        market.yes_token_id@
    } else {
        market.no_token_id@
    }
}

pub fn token_id_for_leg(leg: QuoteLeg, market: &ScenarioMarket) -> (r: String)
    ensures
        r@ == leg_token(leg, *market),
{
    match leg {
        QuoteLeg::YesBid | QuoteLeg::YesAsk => market.yes_token_id.clone(),
        QuoteLeg::NoBid | QuoteLeg::NoAsk => market.no_token_id.clone(),
    }
}

pub open spec fn other_token(leg: QuoteLeg, market: ScenarioMarket) -> Seq<char> {
    if on_yes(leg) {
        market.no_token_id@
    } else {
        market.yes_token_id@
    }
}

pub fn opposite_token_id_for_leg(leg: QuoteLeg, market: &ScenarioMarket) -> (r: String)
    ensures
        r@ == other_token(leg, *market),
{
    match leg {
        QuoteLeg::YesBid | QuoteLeg::YesAsk => market.no_token_id.clone(),
        QuoteLeg::NoBid | QuoteLeg::NoAsk => market.yes_token_id.clone(),
    }
}

pub fn side_for_leg(leg: QuoteLeg) -> (r: Side)
    ensures
        r == if leg.bids() {
            Side::Buy
        } else {
            Side::Sell
        },
{
    if leg.is_bid() {
        Side::Buy
    } else {
        Side::Sell
    }
}

pub open spec fn leg_outcome(leg: QuoteLeg) -> Seq<char> {
    if on_yes(leg) {
        "YES"@
    } else {
        "NO"@
    }
}

pub fn outcome_for_leg(leg: QuoteLeg) -> (r: &'static str)
    ensures
        r@ == leg_outcome(leg),
{
    match leg {
        QuoteLeg::YesBid | QuoteLeg::YesAsk => "YES",
        QuoteLeg::NoBid | QuoteLeg::NoAsk => "NO",
    }
}

pub open spec fn opt_int(o: Option<i64>) -> Option<int> {
    match o {
        Some(v) => Some(v as int),
        None => None,
    }
}

/// The order that a scenario tracks from the beginning.
pub open spec fn seeded_order(
    market: ScenarioMarket,
    order: ScenarioTrackedOrder,
    trace_id: Seq<char>,
    now: Timestamp,
) -> TrackedView {
    TrackedView {
        order_id: order.order_id@,
        trace_id: match order.trace_id {
            Some(id) => id@,
            None => "hedge-replay-trace-"@ + trace_id,
        },
        condition_id: market.condition_id@,
        created_at: secs_or_now(opt_int(order.created_at_unix), now),
        leg: order.leg,
        token_id: leg_token(order.leg, market),
        opposite_token_id: other_token(order.leg, market),
        side: if order.leg.bids() {
            Side::Buy
        } else {
            Side::Sell
        },
        price: order.price@,
        size: order.size@,
        matched_size: order.matched_size@,
        neg_risk: false,
        tick_size: market.tick_size@,
    }
}

/// The order that a scenario tracks from the beginning, at `now`.
pub fn build_tracked_order(
    market: &ScenarioMarket,
    tracked_order: &ScenarioTrackedOrder,
    now: Timestamp,
) -> (r: TrackedOrder)
    ensures
        exists|trace_id: Seq<char>|
            r@ == #[trigger] seeded_order(*market, *tracked_order, trace_id, now) && is_uuid_text(
                trace_id,
            ),
{
    let fresh = fresh_trace_id();
    build_tracked_order_with(market, tracked_order, fresh.as_str(), now)
}

/// The order that a scenario tracks from the beginning, under a trace id where it names none.
pub fn build_tracked_order_with(
    market: &ScenarioMarket,
    tracked_order: &ScenarioTrackedOrder,
    trace_id: &str,
    now: Timestamp,
) -> (r: TrackedOrder)
    ensures
        r@ == seeded_order(*market, *tracked_order, trace_id@, now),
{
    TrackedOrder {
        order_id: tracked_order.order_id.clone(),
        trace_id: match &tracked_order.trace_id {
            Some(id) => id.clone(),
            None => join2("hedge-replay-trace-", trace_id),
        },
        condition_id: market.condition_id.clone(),
        created_at: time_or(tracked_order.created_at_unix, now),
        leg: tracked_order.leg,
        token_id: token_id_for_leg(tracked_order.leg, market),
        opposite_token_id: opposite_token_id_for_leg(tracked_order.leg, market),
        side: side_for_leg(tracked_order.leg),
        price: tracked_order.price,
        size: tracked_order.size,
        matched_size: tracked_order.matched_size,
        neg_risk: false,
        tick_size: market.tick_size.clone(),
    }
}

pub fn position_from_step(condition_id: &str, step: &ScenarioPositionStep) -> (r: Position)
    ensures
        r.condition_id@ == condition_id@,
        r.yes_size == step.yes_size,
        r.no_size == step.no_size,
        r.avg_yes_price == step.yes_avg_price,
        r.avg_no_price == step.no_avg_price,
{
    Position {
        condition_id: condition_id.to_owned(),
        yes_size: step.yes_size,
        no_size: step.no_size,
        avg_yes_price: step.yes_avg_price,
        avg_no_price: step.no_avg_price,
    }
}

/// The leg of the first of the trade's orders that is tracked: the maker's, then the taker's.
pub open spec fn fallback_leg(
    maker: Option<TrackedView>,
    taker: Option<TrackedView>,
) -> Option<QuoteLeg> {
    match maker {
        Some(order) => Some(order.leg),
        None => match taker {
            Some(order) => Some(order.leg),
            None => None,
        },
    }
}

/// The tracked order of an optional id.
pub open spec fn order_named(
    orders: OrderManager,
    id: Option<String>,
) -> Option<TrackedView> {
    match id {
        Some(id) => orders@.known(id@),
        None => None,
    }
}

/// The leg of the first of the trade's orders that is tracked.
pub fn resolve_trade_fallback_leg(orders: &OrderManager, trade: &ScenarioTrade) -> (r: Option<
    QuoteLeg,
>)
    ensures
        r == fallback_leg(
            order_named(*orders, trade.maker_order_id),
            order_named(*orders, trade.taker_order_id),
        ),
{
    if let Some(id) = &trade.maker_order_id {
        if let Some(order) = orders.get_tracked_order(id.as_str()) {
            return Some(order.leg);
        }
    }
    if let Some(id) = &trade.taker_order_id {
        if let Some(order) = orders.get_tracked_order(id.as_str()) {
            return Some(order.leg);
        }
    }
    None
}

/// The leg that side and outcome of a trade name.
pub open spec fn named_leg(side: Side, outcome: Option<Seq<char>>) -> Option<QuoteLeg> {
    if outcome == Some("YES"@) {
        Some(
            if side == Side::Buy {
                QuoteLeg::YesBid
            } else {
                QuoteLeg::YesAsk
            },
        )
    } else if outcome == Some("NO"@) {
        Some(
            if side == Side::Buy {
                QuoteLeg::NoBid
            } else {
                QuoteLeg::NoAsk
            },
        )
    } else {
        None
    }
}

pub open spec fn text_or(text: Option<Seq<char>>, otherwise: Seq<char>) -> Seq<char> {
    match text {
        Some(t) => t,
        None => otherwise,
    }
}

fn text_or_else(text: &Option<String>, otherwise: &str) -> (r: String)
    ensures
        r@ == text_or(opt_text(*text), otherwise@),
{
    match text {
        Some(t) => t.clone(),
        None => otherwise.to_owned(),
    }
}

/// The event that a trade of a scenario is fed in as: none where neither a tracked order nor side
/// and outcome tell its leg.
pub open spec fn replayed_trade(
    market: ScenarioMarket,
    trade: ScenarioTrade,
    tracked_leg: Option<QuoteLeg>,
    now: Timestamp,
) -> Option<TradeView> {
    let leg = match tracked_leg {
        Some(leg) => Some(leg),
        None => named_leg(trade.side, opt_text(trade.outcome)),
    };
    match leg {
        Some(leg) => Some(
            TradeView {
                id: trade.trade_id@,
                condition_id: text_or(opt_text(trade.condition_id), market.condition_id@),
                asset_id: text_or(opt_text(trade.asset_id), leg_token(leg, market)),
                side: trade.side,
                price: trade.price@,
                size: trade.size@,
                outcome: text_or(opt_text(trade.outcome), leg_outcome(leg)),
                status: TradeStatus::Matched,
                timestamp: secs_or_now(opt_int(trade.timestamp_unix), now),
                maker_order_id: opt_text(trade.maker_order_id),
                taker_order_id: opt_text(trade.taker_order_id),
            },
        ),
        None => None,
    }
}

pub fn build_trade_event(
    market: &ScenarioMarket,
    trade: &ScenarioTrade,
    fallback_leg: Option<QuoteLeg>,
    now: Timestamp,
) -> (r: Result<TradeEvent, String>)
    ensures
        match r {
            Ok(event) => replayed_trade(*market, *trade, fallback_leg, now) == Some(event@),
            Err(why) => replayed_trade(*market, *trade, fallback_leg, now) is None && why@
                == "Replay trade "@ + trade.trade_id@
                + " needs asset_id/outcome or a tracked maker/taker order"@,
        },
{
    let named = match &trade.outcome {
        Some(outcome) => if same_text(outcome.as_str(), "YES") {
            match trade.side {
                Side::Buy => Some(QuoteLeg::YesBid),
                Side::Sell => Some(QuoteLeg::YesAsk),
            }
        } else if same_text(outcome.as_str(), "NO") {
            match trade.side {
                Side::Buy => Some(QuoteLeg::NoBid),
                Side::Sell => Some(QuoteLeg::NoAsk),
            }
        } else {
            None
        },
        None => None,
    };
    let leg = match fallback_leg {
        Some(leg) => Some(leg),
        None => named,
    };
    let leg = match leg {
        Some(leg) => leg,
        None => {
            let mut why = join2("Replay trade ", trade.trade_id.as_str());
            why.append(" needs asset_id/outcome or a tracked maker/taker order");
            return Err(why);
        },
    };
    Ok(
        TradeEvent {
            id: trade.trade_id.clone(),
            condition_id: text_or_else(&trade.condition_id, market.condition_id.as_str()),
            asset_id: text_or_else(&trade.asset_id, token_id_for_leg(leg, market).as_str()),
            side: trade.side,
            price: trade.price,
            size: trade.size,
            outcome: text_or_else(&trade.outcome, outcome_for_leg(leg)),
            status: TradeStatus::Matched,
            timestamp: time_or(trade.timestamp_unix, now),
            maker_order_id: clone_opt_text(&trade.maker_order_id),
            taker_order_id: clone_opt_text(&trade.taker_order_id),
        },
    )
}

/// The event that a change of an order is fed in as: none where the order is not tracked.
pub open spec fn replayed_order(
    market: ScenarioMarket,
    order: ReplayOrderEvent,
    known: Option<TrackedView>,
    event_type: OrderEventType,
    now: Timestamp,
) -> Option<OrderEventView> {
    match known {
        Some(known) => Some(
            OrderEventView {
                order_id: order.order_id@,
                condition_id: text_or(opt_text(order.condition_id), market.condition_id@),
                asset_id: text_or(opt_text(order.asset_id), leg_token(known.leg, market)),
                event_type,
                side: order.side,
                price: order.price@,
                original_size: order.original_size@,
                size_matched: order.size_matched@,
                outcome: text_or(opt_text(order.outcome), leg_outcome(known.leg)),
                timestamp: secs_or_now(opt_int(order.timestamp_unix), now),
            },
        ),
        None => None,
    }
}

pub fn build_order_event(
    orders: &OrderManager,
    market: &ScenarioMarket,
    order: ReplayOrderEvent,
    event_type: OrderEventType,
    now: Timestamp,
) -> (r: Result<OrderEvent, String>)
    ensures
        match r {
            Ok(event) => replayed_order(
                *market,
                order,
                orders@.known(order.order_id@),
                event_type,
                now,
            ) == Some(event@),
            Err(why) => orders@.known(order.order_id@) is None && why@ == "Replay order event "@
                + order.order_id@ + " requires the order to be seeded"@,
        },
{
    let leg = match orders.get_tracked_order(order.order_id.as_str()) {
        Some(known) => known.leg,
        None => {
            let mut why = join2("Replay order event ", order.order_id.as_str());
            why.append(" requires the order to be seeded");
            return Err(why);
        },
    };
    Ok(
        OrderEvent {
            condition_id: text_or_else(&order.condition_id, market.condition_id.as_str()),
            asset_id: text_or_else(&order.asset_id, token_id_for_leg(leg, market).as_str()),
            event_type,
            side: order.side,
            price: order.price,
            original_size: order.original_size,
            size_matched: order.size_matched,
            outcome: text_or_else(&order.outcome, outcome_for_leg(leg)),
            timestamp: time_or(order.timestamp_unix, now),
            order_id: order.order_id,
        },
    )
}

/// What a step asks of the engine.
#[derive(Debug)]
pub enum StepAction {
    /// Handle an event of the account's stream.
    Dispatch(UserEvent),
    RefreshQuotes,
    FlushPendingFillFallbacks,
    RecoverOrphanedPositions,
    ReconcileUnhedgedPositions,
}

/// The event that a step feeds in, if it feeds one in.
pub open spec fn fed_in(
    step: ReplayStep,
    orders: OrderManager,
    market: ScenarioMarket,
    now: Timestamp,
) -> Option<UserEventView> {
    match step {
        ReplayStep::UserConnected { reconnect } => Some(UserEventView::Connected(reconnect)),
        ReplayStep::UserTrade { trade } => {
            let leg = fallback_leg(
                order_named(orders, trade.maker_order_id),
                order_named(orders, trade.taker_order_id),
            );
            match replayed_trade(market, trade, leg, now) {
                Some(event) => Some(UserEventView::Trade(event)),
                None => None,
            }
        },
        ReplayStep::UserOrderUpdate { order } => match replayed_order(
            market,
            order,
            orders@.known(order.order_id@),
            OrderEventType::Update,
            now,
        ) {
            Some(event) => Some(UserEventView::Order(event)),
            None => None,
        },
        ReplayStep::UserOrderCancellation { order } => match replayed_order(
            market,
            order,
            orders@.known(order.order_id@),
            OrderEventType::Cancellation,
            now,
        ) {
            Some(event) => Some(UserEventView::Order(event)),
            None => None,
        },
        _ => None,
    }
}

/// Why a step's event cannot be told.
pub open spec fn step_error(step: ReplayStep) -> Seq<char> {
    match step {
        ReplayStep::UserTrade { trade } => "Replay trade "@ + trade.trade_id@
            + " needs asset_id/outcome or a tracked maker/taker order"@,
        ReplayStep::UserOrderUpdate { order } => "Replay order event "@ + order.order_id@
            + " requires the order to be seeded"@,
        ReplayStep::UserOrderCancellation { order } => "Replay order event "@ + order.order_id@
            + " requires the order to be seeded"@,
        _ => Seq::empty(),
    }
}

/// What a step asks of the engine: it fails where its event cannot be told.
pub fn execute_step(
    step: ReplayStep,
    orders: &OrderManager,
    market: &ScenarioMarket,
    now: Timestamp,
) -> (r: Result<StepAction, String>)
    ensures
        match r {
            Ok(StepAction::Dispatch(event)) => fed_in(step, *orders, *market, now) == Some(event@),
            Ok(StepAction::RefreshQuotes) => step is RefreshQuotes,
            Ok(StepAction::FlushPendingFillFallbacks) => step is FlushPendingFillFallbacks,
            Ok(StepAction::RecoverOrphanedPositions) => step is RecoverOrphanedPositions,
            Ok(StepAction::ReconcileUnhedgedPositions) => step is ReconcileUnhedgedPositions,
            Err(why) => fed_in(step, *orders, *market, now) is None && (step is UserTrade
                || step is UserOrderUpdate || step is UserOrderCancellation) && why@ == step_error(
                step,
            ),
        },
{
    match step {
        ReplayStep::UserConnected { reconnect } => Ok(
            StepAction::Dispatch(UserEvent::Connected { reconnect }),
        ),
        ReplayStep::UserTrade { trade } => {
            let leg = resolve_trade_fallback_leg(orders, &trade);
            match build_trade_event(market, &trade, leg, now) {
                Ok(event) => Ok(StepAction::Dispatch(UserEvent::Trade(event))),
                Err(why) => Err(why),
            }
        },
        ReplayStep::UserOrderUpdate { order } => match build_order_event(
            orders,
            market,
            order,
            OrderEventType::Update,
            now,
        ) {
            Ok(event) => Ok(StepAction::Dispatch(UserEvent::Order(event))),
            Err(why) => Err(why),
        },
        ReplayStep::UserOrderCancellation { order } => match build_order_event(
            orders,
            market,
            order,
            OrderEventType::Cancellation,
            now,
        ) {
            Ok(event) => Ok(StepAction::Dispatch(UserEvent::Order(event))),
            Err(why) => Err(why),
        },
        ReplayStep::RefreshQuotes => Ok(StepAction::RefreshQuotes),
        ReplayStep::FlushPendingFillFallbacks => Ok(StepAction::FlushPendingFillFallbacks),
        ReplayStep::RecoverOrphanedPositions => Ok(StepAction::RecoverOrphanedPositions),
        ReplayStep::ReconcileUnhedgedPositions => Ok(StepAction::ReconcileUnhedgedPositions),
    }
}

/// The balance at the beginning: the cached one, else the first that the exchange gives, else none.
pub fn initial_balance(cached_balance: Option<Decimal>, balances: &Vec<Decimal>) -> (r: Decimal)
    ensures
        r@ == match cached_balance {
            Some(balance) => balance@,
            None => if balances@.len() > 0 {
                balances@[0]@
            } else {
                0
            },
        },
{
    match cached_balance {
        Some(balance) => balance,
        None => if balances.len() > 0 {
            balances[0]
        } else {
            Decimal::zero()
        },
    }
}

/// All that is expected is in the actual value: anything covers nothing, an object covers one with
/// fewer fields, other values cover only themselves.
pub open spec fn covers(actual: Json, expected: Json) -> bool
    decreases expected,
{
    match (actual, expected) {
        (_, Json::Null) => true,
        (Json::Object(a), Json::Object(e)) => covers_fields(a@, e@, e@.len()),
        _ => same_json(actual, expected),
    }
}

/// The first `n` expected fields are covered.
pub open spec fn covers_fields(
    actual: Seq<(String, Json)>,
    expected: Seq<(String, Json)>,
    n: nat,
) -> bool
    decreases expected, n,
{
    if n == 0 || n > expected.len() {
        true
    } else {
        let at = field_at(actual, expected[n - 1].0@);
        covers_fields(actual, expected, (n - 1) as nat) && at < actual.len() && covers(
            actual[at].1,
            expected[n - 1].1,
        )
    }
}

pub fn payload_contains_subset(actual: &Json, expected: &Json) -> (r: bool)
    ensures
        r == covers(*actual, *expected),
    decreases *expected,
{
    match (actual, expected) {
        (_, Json::Null) => true,
        (Json::Object(a), Json::Object(e)) => {
            let mut n: usize = 0;
            while n < e.len()
                invariant
                    n <= e.len(),
                    decreases_to!(*expected => e@),
                    *expected == Json::Object(*e),
                    *actual == Json::Object(*a),
                    covers_fields(a@, e@, n as nat),
                decreases e.len() - n,
            {
                let at = find_field(a, e[n].0.as_str());
                if at >= a.len() || !payload_contains_subset(&a[at].1, &e[n].1) {
                    proof {
                        lemma_covers_prefix(a@, e@, (n + 1) as nat, e@.len());
                    }
                    return false;
                }
                n = n + 1;
            }
            true
        },
        _ => json_eq(actual, expected),
    }
}

proof fn lemma_covers_prefix(
    a: Seq<(String, Json)>,
    e: Seq<(String, Json)>,
    n: nat,
    m: nat,
)
    requires
        n <= m <= e.len(),
    ensures
        covers_fields(a, e, m) ==> covers_fields(a, e, n),
    decreases m,
{
    if n < m {
        lemma_covers_prefix(a, e, n, (m - 1) as nat);
    }
}

/// The event is the one that is expected.
pub open spec fn meets(actual: ReplayEventSummary, wanted: ExpectedCriticalEvent) -> bool {
    &&& actual.event_type@ == wanted.event_type@
    &&& wanted.source_component matches Some(source) ==> source@ == actual.source_component@
    &&& covers(actual.payload, wanted.payload)
}

fn event_meets(actual: &ReplayEventSummary, wanted: &ExpectedCriticalEvent) -> (r: bool)
    ensures
        r == meets(*actual, *wanted),
{
    if !same_text(actual.event_type.as_str(), wanted.event_type.as_str()) {
        return false;
    }
    if let Some(source) = &wanted.source_component {
        if !same_text(source.as_str(), actual.source_component.as_str()) {
            return false;
        }
    }
    payload_contains_subset(&actual.payload, &wanted.payload)
}

/// Place behind the first event from `from` on that meets what is wanted, or none.
pub open spec fn next_match(
    actual: Seq<ReplayEventSummary>,
    wanted: ExpectedCriticalEvent,
    from: int,
) -> Option<int>
    decreases actual.len() - from,
{
    if from < 0 || from >= actual.len() {
        None
    } else if meets(actual[from], wanted) {
        Some(from + 1)
    } else {
        next_match(actual, wanted, from + 1)
    }
}

/// Where the search stands after the first `n` expected events, and which of them were missed. A
/// missed event uses up all that is left.
pub open spec fn matched(
    expected: Seq<ExpectedCriticalEvent>,
    actual: Seq<ReplayEventSummary>,
    n: nat,
) -> (int, Seq<Seq<char>>)
    decreases n,
{
    if n == 0 {
        (0, Seq::empty())
    } else {
        let (cursor, missed) = matched(expected, actual, (n - 1) as nat);
        let wanted = expected[n - 1];
        match next_match(actual, wanted, cursor) {
            Some(next) => (next, missed),
            None => (
                actual.len() as int,
                missed.push(
                    "critical event subsequence mismatch: missing "@ + wanted.event_type@ + " from "@
                        + opt_quoted_chars(opt_text(wanted.source_component)),
                ),
            ),
        }
    }
}

/// The expected events must come out in order, others between them.
pub fn compare_expected_critical_events(
    expected: &Vec<ExpectedCriticalEvent>,
    actual: &Vec<ReplayEventSummary>,
) -> (r: Vec<String>)
    ensures
        texts(r@) == matched(expected@, actual@, expected@.len()).1,
{
    let mut mismatches: Vec<String> = Vec::new();
    let mut cursor: usize = 0;
    let mut n: usize = 0;
    assert(texts(mismatches@) =~= Seq::<Seq<char>>::empty());
    while n < expected.len()
        invariant
            n <= expected.len(),
            cursor <= actual.len(),
            matched(expected@, actual@, n as nat) == (cursor as int, texts(mismatches@)),
        decreases expected.len() - n,
    {
        let wanted = &expected[n];
        let ghost start = cursor as int;
        let mut found = false;
        while cursor < actual.len() && !found
            invariant
                start <= cursor <= actual.len(),
                found ==> next_match(actual@, *wanted, start) == Some(cursor as int),
                !found ==> next_match(actual@, *wanted, start) == next_match(
                    actual@,
                    *wanted,
                    cursor as int,
                ),
            decreases actual.len() - cursor,
        {
            if event_meets(&actual[cursor], wanted) {
                found = true;
            }
            cursor = cursor + 1;
        }
        if !found {
            let mut why = join2(
                "critical event subsequence mismatch: missing ",
                wanted.event_type.as_str(),
            );
            why.append(" from ");
            why.append(opt_quoted_text(&wanted.source_component).as_str());
            push_text(&mut mismatches, why);
        }
        n = n + 1;
    }
    mismatches
}

/// The expected events come out in this order: each at its own place, behind the one before.
pub open spec fn comes_out(
    expected: Seq<ExpectedCriticalEvent>,
    actual: Seq<ReplayEventSummary>,
    places: Seq<int>,
) -> bool {
    &&& places.len() == expected.len()
    &&& forall|i: int|
        0 <= i < places.len() ==> 0 <= #[trigger] places[i] < actual.len() && meets(
            actual[places[i]],
            expected[i],
        )
    &&& forall|i: int, j: int| 0 <= i < j < places.len() ==> places[i] < places[j]
}

proof fn lemma_next_match(actual: Seq<ReplayEventSummary>, wanted: ExpectedCriticalEvent, from: int)
    requires
        0 <= from,
    ensures
        next_match(actual, wanted, from) matches Some(next) ==> from < next <= actual.len() && meets(
            actual[next - 1],
            wanted,
        ),
    decreases actual.len() - from,
{
    if from < actual.len() && !meets(actual[from], wanted) {
        lemma_next_match(actual, wanted, from + 1);
    }
}

/// The search never leaves the list, and what was missed is never forgotten.
proof fn lemma_matched(
    expected: Seq<ExpectedCriticalEvent>,
    actual: Seq<ReplayEventSummary>,
    n: nat,
)
    requires
        n <= expected.len(),
    ensures
        0 <= matched(expected, actual, n).0 <= actual.len(),
        n > 0 ==> matched(expected, actual, (n - 1) as nat).1.len() <= matched(
            expected,
            actual,
            n,
        ).1.len(),
    decreases n,
{
    if n > 0 {
        lemma_matched(expected, actual, (n - 1) as nat);
        lemma_next_match(
            actual,
            expected[n - 1],
            matched(expected, actual, (n - 1) as nat).0,
        );
    }
}

/// Where nothing is reported missing, all expected events came out in order.
pub proof fn law_no_mismatch_means_all_came_out(
    expected: Seq<ExpectedCriticalEvent>,
    actual: Seq<ReplayEventSummary>,
) -> (places: Seq<int>)
    requires
        matched(expected, actual, expected.len()).1.len() == 0,
    ensures
        comes_out(expected, actual, places),
{
    places_of(expected, actual, expected.len())
}

proof fn places_of(
    expected: Seq<ExpectedCriticalEvent>,
    actual: Seq<ReplayEventSummary>,
    n: nat,
) -> (places: Seq<int>)
    requires
        n <= expected.len(),
        matched(expected, actual, n).1.len() == 0,
    ensures
        comes_out(expected.take(n as int), actual, places),
        places.len() > 0 ==> places.last() < matched(expected, actual, n).0,
        n == expected.len() ==> comes_out(expected, actual, places),
    decreases n,
{
    if n == 0 {
        let places: Seq<int> = Seq::empty();
        assert(expected.take(0).len() == 0);
        places
    } else {
        let k = (n - 1) as nat;
        lemma_matched(expected, actual, n);
        lemma_matched(expected, actual, k);
        let before = places_of(expected, actual, k);
        let cursor = matched(expected, actual, k).0;
        lemma_next_match(actual, expected[n - 1], cursor);
        let next = next_match(actual, expected[n - 1], cursor)->0;
        let places = before.push(next - 1);
        let wanted = expected.take(n as int);
        assert forall|i: int| 0 <= i < places.len() implies 0 <= #[trigger] places[i] < actual.len()
            && meets(actual[places[i]], wanted[i]) by {
            if i < before.len() {
                assert(places[i] == before[i]);
                assert(expected.take(k as int)[i] == wanted[i]);
            }
        }
        assert forall|i: int, j: int| 0 <= i < j < places.len() implies places[i] < places[j] by {
            if j == before.len() {
                assert(before[i] <= before.last());
            }
        }
        if n == expected.len() {
            assert(wanted =~= expected);
        }
        places
    }
}

/// The result of a replay.
#[derive(Debug)]
pub struct ReplayVerdict {
    pub passed: bool,
    pub mismatches: Vec<String>,
}

/// What a replay showed: it passes if the final outcome and the critical events are as expected.
pub fn judge_replay(
    outcome_mismatches: Vec<String>,
    expected: &Vec<ExpectedCriticalEvent>,
    actual: &Vec<ReplayEventSummary>,
) -> (r: ReplayVerdict)
    ensures
        texts(r.mismatches@) == texts(outcome_mismatches@) + matched(
            expected@,
            actual@,
            expected@.len(),
        ).1,
        r.passed == (r.mismatches@.len() == 0),
{
    let mut mismatches = outcome_mismatches;
    let missing = compare_expected_critical_events(expected, actual);
    append_texts(&mut mismatches, &missing);
    let passed = mismatches.len() == 0;
    ReplayVerdict { passed, mismatches }
}

} // verus!
