//! Whether and how a quote is placed, replaced or resized.

use crate::decimal::{
    abs_value, difference, difference_fits, floor_value, is_rounding, max_of, min_of, product,
    product_fits, quotient, quotient_fits, unit, Decimal,
};
use crate::keyed::{find, lemma_find, lemma_found, lemma_not_found};
use crate::models::{
    CancelReasonCode, CanonicalMarket, OrderAmountKind, OrderRequest, OrderType, Position,
    QuoteCandidate, QuoteLeg, QuoteSet, QuoteStatus, Side,
};
use crate::text::same_text;
use crate::time::Timestamp;
use crate::trading::client::CancelOrderOutcome;
use crate::trading::order_manager::{
    cancelled_with_id, entry_in, entry_on_leg, entry_with_id, OrderManager, OrdersView,
    TrackedOrder, TrackedView,
};
use vstd::pervasive::unreached;
use vstd::prelude::*;

pub mod laws;

verus! {

/// Shares that a budget pays for at a dollar each.
pub fn whole_share_budget_limit(available_budget: Decimal) -> (r: Decimal)
    ensures
        r@ == max_of(floor_value(available_budget@), 0),
{
    available_budget.floor().max(Decimal::zero())
}

/// The whole shares of a request that a budget pays for, unless they are too few.
pub open spec fn capped(requested: int, budget: int, min_size: int) -> Option<int> {
    let size = min_of(floor_value(requested), max_of(floor_value(budget), 0));
    if size < min_size || size <= 0 {
        None
    } else {
        Some(size)
    }
}

pub fn cap_buy_size_to_budget(
    requested_size: Decimal,
    available_budget: Decimal,
    min_order_size: Decimal,
) -> (r: Option<Decimal>)
    ensures
        crate::decimal::value_of(r) == capped(requested_size@, available_budget@, min_order_size@),
        r is Some ==> 0 < r->0@ <= requested_size@ && r->0@ <= available_budget@ && r->0@
            >= min_order_size@,
{
    let whole_share_budget = whole_share_budget_limit(available_budget);
    let capped_size = requested_size.floor().min(whole_share_budget);
    if capped_size < min_order_size || capped_size <= Decimal::zero() {
        None
    } else {
        Some(capped_size)
    }
}

/// Map a QuoteLeg to (token_id, side) for order placement.
pub fn leg_to_order_params(leg: QuoteLeg, market: &CanonicalMarket) -> (r: (String, Side))
    ensures
        r.0@ == leg_token(leg, *market),
        r.1 == leg_side(leg),
{
    match leg {
        QuoteLeg::YesBid => (market.yes_token_id.clone(), Side::Buy),
        QuoteLeg::YesAsk => (market.yes_token_id.clone(), Side::Sell),
        QuoteLeg::NoBid => (market.no_token_id.clone(), Side::Buy),
        QuoteLeg::NoAsk => (market.no_token_id.clone(), Side::Sell),
    }
}

pub open spec fn leg_token(leg: QuoteLeg, market: CanonicalMarket) -> Seq<char> {
    match leg {
        QuoteLeg::YesBid | QuoteLeg::YesAsk => market.yes_token_id@,
        QuoteLeg::NoBid | QuoteLeg::NoAsk => market.no_token_id@,
    }
}

pub open spec fn opposite_leg_token(leg: QuoteLeg, market: CanonicalMarket) -> Seq<char> {
    match leg {
        QuoteLeg::YesBid | QuoteLeg::YesAsk => market.no_token_id@,
        QuoteLeg::NoBid | QuoteLeg::NoAsk => market.yes_token_id@,
    }
}

pub open spec fn leg_side(leg: QuoteLeg) -> Side {
    if leg.bids() {
        Side::Buy
    } else {
        Side::Sell
    }
}

/// The role in which an order rests.
pub fn order_role(order: &TrackedOrder) -> (r: &'static str)
    ensures
        r@ == if order.leg.bids() {
            "bid_entry"@
        } else {
            "ask_inventory"@
        },
{
    match order.leg {
        QuoteLeg::YesBid | QuoteLeg::NoBid => "bid_entry",
        QuoteLeg::YesAsk | QuoteLeg::NoAsk => "ask_inventory",
    }
}

pub fn ask_origin_allows_full_inventory_exit(origin: &str) -> (r: bool)
    ensures
        r == (origin@ == "inventory_exit_ask"@),
{
    same_text(origin, "inventory_exit_ask")
}

/// Shares that an ask may offer: all of them when leaving a market, else those without a
/// counterpart.
pub open spec fn sellable(leg: QuoteLeg, position: Option<&Position>, origin: Seq<char>) -> int {
    match position {
        Some(p) => if leg.bids() {
            0
        } else if origin == "inventory_exit_ask"@ {
            if leg == QuoteLeg::YesAsk {
                p.yes_size@
            } else {
                p.no_size@
            }
        } else if leg == QuoteLeg::YesAsk {
            max_of(difference(p.yes_size@, p.no_size@), 0)
        } else {
            max_of(difference(p.no_size@, p.yes_size@), 0)
        },
        None => 0,
    }
}

/// Nothing in the shares that an ask may offer is too large for a decimal.
pub open spec fn sellable_fits(leg: QuoteLeg, position: Option<&Position>, origin: Seq<char>) -> bool {
    match position {
        Some(p) => leg.bids() || origin == "inventory_exit_ask"@ || if leg == QuoteLeg::YesAsk {
            difference_fits(p.yes_size@, p.no_size@)
        } else {
            difference_fits(p.no_size@, p.yes_size@)
        },
        None => true,
    }
}

/// Shares that an ask may offer, unless they are too many.
pub fn sellable_inventory_for_ask(leg: QuoteLeg, position: Option<&Position>, origin: &str) -> (r:
    Option<Decimal>)
    ensures
        r is Some == sellable_fits(leg, position, origin@),
        r matches Some(shares) ==> shares@ == sellable(leg, position, origin@),
{
    let exit = ask_origin_allows_full_inventory_exit(origin);
    match position {
        Some(pos) => match leg {
            QuoteLeg::YesAsk => if exit {
                Some(pos.yes_size)
            } else {
                pos.sellable_yes()
            },
            QuoteLeg::NoAsk => if exit {
                Some(pos.no_size)
            } else {
                pos.sellable_no()
            },
            _ => Some(Decimal::zero()),
        },
        None => Some(Decimal::zero()),
    }
}

pub fn build_tracked_order(
    order_id: String,
    trace_id: String,
    created_at: Timestamp,
    condition_id: String,
    leg: QuoteLeg,
    token_id: String,
    opposite_token_id: String,
    side: Side,
    price: Decimal,
    size: Decimal,
    matched_size: Decimal,
    neg_risk: bool,
    tick_size: String,
) -> (r: TrackedOrder)
    ensures
        r@ == (TrackedView {
            order_id: order_id@,
            trace_id: trace_id@,
            condition_id: condition_id@,
            created_at,
            leg,
            token_id: token_id@,
            opposite_token_id: opposite_token_id@,
            side,
            price: price@,
            size: size@,
            matched_size: matched_size@,
            neg_risk,
            tick_size: tick_size@,
        }),
{
    TrackedOrder {
        order_id,
        trace_id,
        condition_id,
        created_at,
        leg,
        token_id,
        opposite_token_id,
        side,
        price,
        size,
        matched_size,
        neg_risk,
        tick_size,
    }
}

/// The text of a random (version 4) UUID: 36 characters, four of them hyphens, the version in its
/// place, the others digits of base sixteen in lower case.
pub open spec fn is_uuid_text(s: Seq<char>) -> bool {
    &&& s.len() == 36
    &&& s[14] == '4'
    &&& forall|i: int|
        0 <= i < 36 ==> if i == 8 || i == 13 || i == 18 || i == 23 {
            #[trigger] s[i] == '-'
        } else {
            '0' <= s[i] <= '9' || 'a' <= s[i] <= 'f'
        }
}

/// A new trace id, by `uuid::Uuid::new_v4` and its text form. Which one it is is left to chance.
#[verifier::external_body]
pub(crate) fn fresh_trace_id() -> (r: String)
    ensures
        is_uuid_text(r@),
{
    uuid::Uuid::new_v4().to_string()
}

/// The size in which `candidate` is placed, if it is placed at all.
pub open spec fn placement_size(
    v: OrdersView,
    market: CanonicalMarket,
    candidate: QuoteCandidate,
    position: Option<&Position>,
    min_order_size: int,
    origin: Seq<char>,
) -> Option<int> {
    if candidate.status != QuoteStatus::Approved {
        None
    } else if find(v.orders, entry_on_leg(market.condition_id@, candidate.leg)) is Some {
        None
    } else if v.legs.contains((market.condition_id@, candidate.leg)) {
        None
    } else if candidate.leg.bids() {
        capped(candidate.size@, v.budget(), min_order_size)
    } else if sellable(candidate.leg, position, origin) < candidate.size@ {
        None
    } else {
        Some(candidate.size@)
    }
}

/// `request` places a passive order of `size` shares on the leg of `candidate`.
pub open spec fn places(
    request: OrderRequest,
    market: CanonicalMarket,
    candidate: QuoteCandidate,
    size: int,
) -> bool {
    &&& request.token_id@ == leg_token(candidate.leg, market)
    &&& request.price@ == candidate.price@
    &&& request.size@ == size
    &&& request.amount_kind == OrderAmountKind::Shares
    &&& request.side == leg_side(candidate.leg)
    &&& request.order_type == OrderType::GTC
    &&& request.post_only
    &&& request.neg_risk == market.neg_risk
    &&& request.tick_size@ == market.tick_size@
}

/// The order that tracks a placed quote.
pub open spec fn placed_order(
    market: CanonicalMarket,
    candidate: QuoteCandidate,
    size: int,
    order_id: Seq<char>,
    trace_id: Seq<char>,
    created_at: Timestamp,
) -> TrackedView {
    TrackedView {
        order_id,
        trace_id,
        condition_id: market.condition_id@,
        created_at,
        leg: candidate.leg,
        token_id: leg_token(candidate.leg, market),
        opposite_token_id: opposite_leg_token(candidate.leg, market),
        side: leg_side(candidate.leg),
        price: candidate.price@,
        size,
        matched_size: 0,
        neg_risk: market.neg_risk,
        tick_size: market.tick_size@,
    }
}

/// The quote may be placed: it is approved, and neither an order nor the exchange is on its leg.
pub open spec fn leg_is_free(
    v: OrdersView,
    market: CanonicalMarket,
    candidate: QuoteCandidate,
) -> bool {
    &&& candidate.status == QuoteStatus::Approved
    &&& find(v.orders, entry_on_leg(market.condition_id@, candidate.leg)) is None
    &&& !v.legs.contains((market.condition_id@, candidate.leg))
}

/// Nothing that is worked out to place a quote is too large for a decimal: the budget for a bid, the
/// shares held for an ask.
pub open spec fn placement_fits(
    v: OrdersView,
    market: CanonicalMarket,
    candidate: QuoteCandidate,
    position: Option<&Position>,
    origin: Seq<char>,
) -> bool {
    leg_is_free(v, market, candidate) ==> if candidate.leg.bids() {
        v.budget_fits()
    } else {
        sellable_fits(candidate.leg, position, origin)
    }
}

impl OrderManager {
    /// The order to place for a quote, if there is one: the quote is approved, no order is on its
    /// leg, an ask offers no more than is held, and a bid is cut to the whole shares that the
    /// budget pays for.
    pub fn place_candidate(
        &self,
        market: &CanonicalMarket,
        candidate: &QuoteCandidate,
        position: Option<&Position>,
        min_order_size: Decimal,
        origin: &str,
    ) -> (r: Option<OrderRequest>)
        requires
            placement_fits(self@, *market, *candidate, position, origin@),
        ensures
            match placement_size(
                self@,
                *market,
                *candidate,
                position,
                min_order_size@,
                origin@,
            ) {
                Some(size) => r is Some && places(r->0, *market, *candidate, size),
                None => r is None,
            },
    {
        match self.checked_placement(market, candidate, position, min_order_size, origin) {
            Some(request) => request,
            None => unreached(),
        }
    }

    /// The order to place for a quote, if there is one, unless some number on the way is too large.
    pub fn try_place_candidate(
        &self,
        market: &CanonicalMarket,
        candidate: &QuoteCandidate,
        position: Option<&Position>,
        min_order_size: Decimal,
        origin: &str,
    ) -> (r: Option<Option<OrderRequest>>)
        ensures
            r is Some == placement_fits(self@, *market, *candidate, position, origin@),
            r matches Some(request) ==> match placement_size(
                self@,
                *market,
                *candidate,
                position,
                min_order_size@,
                origin@,
            ) {
                Some(size) => request is Some && places(request->0, *market, *candidate, size),
                None => request is None,
            },
    {
        if self.checked_placement(market, candidate, position, min_order_size, origin).is_some() {
            Some(self.place_candidate(market, candidate, position, min_order_size, origin))
        } else {
            None
        }
    }

    fn checked_placement(
        &self,
        market: &CanonicalMarket,
        candidate: &QuoteCandidate,
        position: Option<&Position>,
        min_order_size: Decimal,
        origin: &str,
    ) -> (r: Option<Option<OrderRequest>>)
        ensures
            r is Some == placement_fits(self@, *market, *candidate, position, origin@),
            r matches Some(request) ==> match placement_size(
                self@,
                *market,
                *candidate,
                position,
                min_order_size@,
                origin@,
            ) {
                Some(size) => request is Some && places(request->0, *market, *candidate, size),
                None => request is None,
            },
    {
        if candidate.status != QuoteStatus::Approved {
            return Some(None);
        }
        if self.find_on_leg(market.condition_id.as_str(), candidate.leg).is_some() {
            return Some(None);
        }
        if self.has_exchange_live_leg(market.condition_id.as_str(), candidate.leg) {
            return Some(None);
        }
        let (token_id, side) = leg_to_order_params(candidate.leg, market);
        if side == Side::Sell {
            let sellable = sellable_inventory_for_ask(candidate.leg, position, origin)?;
            if sellable < candidate.size {
                return Some(None);
            }
        }
        let mut effective_size = candidate.size;
        if side == Side::Buy {
            let available_budget = self.checked_budget()?;
            match cap_buy_size_to_budget(candidate.size, available_budget, min_order_size) {
                Some(capped_size) => {
                    if capped_size < candidate.size {
                        effective_size = capped_size;
                    }
                },
                None => {
                    return Some(None);
                },
            }
        }
        Some(
            Some(
                OrderRequest {
                    token_id,
                    price: candidate.price,
                    size: effective_size,
                    amount_kind: OrderAmountKind::Shares,
                    side,
                    order_type: OrderType::GTC,
                    post_only: true,
                    neg_risk: market.neg_risk,
                    tick_size: market.tick_size.clone(),
                },
            ),
        )
    }

    /// Takes up an order that was placed for a quote. Its leg is taken from then on.
    pub fn order_placed(
        &mut self,
        market: &CanonicalMarket,
        candidate: &QuoteCandidate,
        size: Decimal,
        order_id: String,
        trace_id: Option<String>,
        created_at: Timestamp,
    ) -> (r: TrackedOrder)
        ensures
            r@ == placed_order(
                *market,
                *candidate,
                size@,
                order_id@,
                r@.trace_id,
                created_at,
            ),
            trace_id is Some ==> r@.trace_id == trace_id->0@,
            trace_id is None ==> is_uuid_text(r@.trace_id),
            final(self)@ == old(self)@.with_order(market.condition_id@, r@).with_leg(
                market.condition_id@,
                candidate.leg,
            ),
            old(self)@.well_formed() ==> final(self)@.well_formed(),
    {
        let (token_id, side) = leg_to_order_params(candidate.leg, market);
        let opposite_token_id = match candidate.leg {
            QuoteLeg::YesBid | QuoteLeg::YesAsk => market.no_token_id.clone(),
            QuoteLeg::NoBid | QuoteLeg::NoAsk => market.yes_token_id.clone(),
        };
        let trace = match trace_id {
            Some(trace) => trace,
            None => fresh_trace_id(),
        };
        let order = build_tracked_order(
            order_id,
            trace,
            created_at,
            market.condition_id.clone(),
            candidate.leg,
            token_id,
            opposite_token_id,
            side,
            candidate.price,
            size,
            Decimal::zero(),
            market.neg_risk,
            market.tick_size.clone(),
        );
        self.file_order(market.condition_id.as_str(), order.clone());
        self.remember_exchange_leg(market.condition_id.as_str(), candidate.leg);
        order
    }

    /// After the cancellation of an order that is to rest at another size: the order and what to
    /// place in its stead. Nothing is placed for an order that is not known, or whose cancellation
    /// is not confirmed.
    pub fn resize_order(
        &mut self,
        order_id: &str,
        new_size: Decimal,
        outcome: &CancelOrderOutcome,
        reason_code: CancelReasonCode,
        origin: &str,
        now: u64,
    ) -> (r: Option<(TrackedOrder, OrderRequest)>)
        requires
            old(self)@.can_retry(order_id@),
        ensures
            old(self)@.well_formed() ==> final(self)@.well_formed(),
            match old(self)@.known(order_id@) {
                Some(existing) => {
                    &&& final(self)@ == if outcome is Confirmed {
                        old(self)@.cancel_confirmed(existing, now as int)
                    } else {
                        old(self)@.cancel_pending(existing, reason_code, origin@, now as int)
                    }
                    &&& r is Some == (outcome is Confirmed)
                    &&& r matches Some((order, request)) ==> order@ == existing && resizes(
                        request,
                        existing,
                        new_size@,
                    )
                },
                None => final(self)@ == old(self)@ && r is None,
            },
    {
        proof {
            lemma_find(self@.orders, entry_with_id(order_id@));
            lemma_find(self@.recent, cancelled_with_id(order_id@));
        }
        let existing = match self.get_tracked_order(order_id) {
            Some(order) => order,
            None => {
                return None;
            },
        };
        self.apply_cancel_outcome(&existing, outcome, reason_code, origin, now);
        match outcome {
            CancelOrderOutcome::Confirmed => {},
            _ => {
                return None;
            },
        }
        let request = OrderRequest {
            token_id: existing.token_id.clone(),
            price: existing.price,
            size: new_size,
            amount_kind: OrderAmountKind::Shares,
            side: existing.side,
            order_type: OrderType::GTC,
            post_only: true,
            neg_risk: existing.neg_risk,
            tick_size: existing.tick_size.clone(),
        };
        Some((existing, request))
    }

    /// Takes up the order that replaces `existing` at another size. It keeps the trace and the
    /// time of creation.
    pub fn order_resized(&mut self, existing: &TrackedOrder, new_size: Decimal, order_id: String) -> (r:
        TrackedOrder)
        ensures
            r@ == (TrackedView {
                order_id: order_id@,
                size: new_size@,
                matched_size: 0,
                ..existing@
            }),
            final(self)@ == old(self)@.with_order(existing@.condition_id, r@).with_leg(
                existing@.condition_id,
                existing@.leg,
            ),
            old(self)@.well_formed() ==> final(self)@.well_formed(),
    {
        let mut order = existing.clone();
        order.order_id = order_id;
        order.size = new_size;
        order.matched_size = Decimal::zero();
        self.file_order(existing.condition_id.as_str(), order.clone());
        self.remember_exchange_leg(existing.condition_id.as_str(), existing.leg);
        order
    }
}

/// The request rests an order again at another size.
pub open spec fn resizes(request: OrderRequest, existing: TrackedView, new_size: int) -> bool {
    &&& request.token_id@ == existing.token_id
    &&& request.price@ == existing.price
    &&& request.size@ == new_size
    &&& request.amount_kind == OrderAmountKind::Shares
    &&& request.side == existing.side
    &&& request.order_type == OrderType::GTC
    &&& request.post_only
    &&& request.neg_risk == existing.neg_risk
    &&& request.tick_size@ == existing.tick_size
}

/// How far `old` is from `new`, in parts per `scale` of `new`.
pub open spec fn drift(old: int, new: int, scale: int) -> int {
    if new > 0 {
        product(quotient(abs_value(difference(old, new)), new), scale * unit())
    } else {
        0
    }
}

/// Whether an order rests too far from a quote: by price, in basis points, or by more than half
/// of its size.
pub open spec fn has_drifted(order: TrackedView, candidate: QuoteCandidate, threshold_bps: int) -> bool {
    ||| drift(order.price, candidate.price@, 10_000) > threshold_bps
    ||| drift(order.size, candidate.size@, 100) > 50 * unit()
}

/// What a new quote asks of the orders that rest in its market.
pub enum DriftAction {
    Keep,
    Replace(TrackedView),
    Place,
}

pub open spec fn drift_action(
    v: OrdersView,
    market: CanonicalMarket,
    candidate: QuoteCandidate,
    threshold_bps: int,
) -> DriftAction {
    if candidate.status != QuoteStatus::Approved {
        DriftAction::Keep
    } else {
        match find(v.orders, entry_on_leg(market.condition_id@, candidate.leg)) {
            Some(i) => if has_drifted(v.orders[i].order, candidate, threshold_bps) {
                DriftAction::Replace(v.orders[i].order)
            } else {
                DriftAction::Keep
            },
            None => if v.legs.contains((market.condition_id@, candidate.leg)) {
                DriftAction::Keep
            } else {
                DriftAction::Place
            },
        }
    }
}

/// A quote to place, with the order that it replaces.
pub struct ReplacementView {
    pub candidate: QuoteCandidate,
    pub replaced: Option<TrackedView>,
}

/// The quotes to place, in turn.
pub open spec fn drift_plan(
    v: OrdersView,
    market: CanonicalMarket,
    candidates: Seq<QuoteCandidate>,
    threshold_bps: int,
) -> Seq<ReplacementView>
    decreases candidates.len(),
{
    if candidates.len() == 0 {
        Seq::empty()
    } else {
        let rest = drift_plan(v, market, candidates.drop_last(), threshold_bps);
        match drift_action(v, market, candidates.last(), threshold_bps) {
            DriftAction::Keep => rest,
            DriftAction::Replace(order) => rest.push(
                ReplacementView { candidate: candidates.last(), replaced: Some(order) },
            ),
            DriftAction::Place => rest.push(
                ReplacementView { candidate: candidates.last(), replaced: None },
            ),
        }
    }
}

/// What is to be placed: nothing in a market without orders.
pub open spec fn drift_replacements(
    v: OrdersView,
    market: CanonicalMarket,
    candidates: Seq<QuoteCandidate>,
    threshold_bps: int,
) -> Seq<ReplacementView> {
    if find(v.orders, entry_in(market.condition_id@)) is None {
        Seq::empty()
    } else {
        drift_plan(v, market, candidates, threshold_bps)
    }
}

/// A quote to place. What it replaces has to be cancelled first.
#[derive(Debug)]
pub struct Replacement {
    pub candidate: QuoteCandidate,
    pub replaced: Option<TrackedOrder>,
}

impl View for Replacement {
    type V = ReplacementView;

    open spec fn view(&self) -> ReplacementView {
        ReplacementView {
            candidate: self.candidate,
            replaced: match self.replaced {
                Some(order) => Some(order@),
                None => None,
            },
        }
    }
}

pub open spec fn replacement_views(s: Seq<Replacement>) -> Seq<ReplacementView> {
    s.map_values(|r: Replacement| r@)
}

/// The drift is not too large for a decimal.
pub open spec fn drift_fits(old: int, new: int, scale: int) -> bool {
    new > 0 ==> {
        let ratio = quotient(abs_value(difference(old, new)), new);
        &&& difference_fits(old, new)
        &&& quotient_fits(abs_value(difference(old, new)), new)
        &&& product_fits(ratio, scale * unit())
    }
}

/// Each step of a drift is the exact value or a decimal next to it.
#[verifier::opaque]
pub open spec fn drift_rounds(old: int, new: int, scale: int) -> bool {
    new > 0 ==> {
        let distance = abs_value(difference(old, new));
        let ratio = quotient(distance, new);
        &&& is_rounding(difference(old, new), old - new, 1)
        &&& is_rounding(ratio, distance * unit(), new)
        &&& is_rounding(drift(old, new, scale), ratio * (scale * unit()), unit())
    }
}

/// Each step of the drifts of the orders from the quotes is the exact value or a decimal next to it.
pub open spec fn drifts_round(
    v: OrdersView,
    market: CanonicalMarket,
    candidates: Seq<QuoteCandidate>,
) -> bool {
    forall|j: int|
        0 <= j < candidates.len() && (#[trigger] candidates[j]).status == QuoteStatus::Approved ==> {
            match find(v.orders, entry_on_leg(market.condition_id@, candidates[j].leg)) {
                Some(i) => {
                    &&& drift_rounds(v.orders[i].order.price, candidates[j].price@, 10_000)
                    &&& drift_rounds(v.orders[i].order.size, candidates[j].size@, 100)
                },
                None => true,
            }
        }
}

/// No drift of the orders from the quotes is too large for a decimal.
pub open spec fn drifts_fit(
    v: OrdersView,
    market: CanonicalMarket,
    candidates: Seq<QuoteCandidate>,
) -> bool {
    forall|j: int|
        0 <= j < candidates.len() && (#[trigger] candidates[j]).status == QuoteStatus::Approved ==> {
            match find(v.orders, entry_on_leg(market.condition_id@, candidates[j].leg)) {
                Some(i) => {
                    &&& drift_fits(v.orders[i].order.price, candidates[j].price@, 10_000)
                    &&& drift_fits(v.orders[i].order.size, candidates[j].size@, 100)
                },
                None => true,
            }
        }
}

fn measure_drift(old: Decimal, new: Decimal, scale: u64) -> (r: Option<Decimal>)
    ensures
        r is Some == drift_fits(old@, new@, scale as int),
        r matches Some(d) ==> d@ == drift(old@, new@, scale as int) && drift_rounds(
            old@,
            new@,
            scale as int,
        ),
{
    reveal(drift_rounds);
    if new > Decimal::zero() {
        let distance = old.checked_minus(new)?.abs();
        distance.checked_over(new)?.checked_times(Decimal::from_u64(scale))
    } else {
        Some(Decimal::zero())
    }
}

impl OrderManager {
    fn checked_drift_plan(
        &self,
        market: &CanonicalMarket,
        new_quote_set: &QuoteSet,
        drift_threshold_bps: Decimal,
    ) -> (r: Option<Vec<Replacement>>)
        ensures
            r is Some == drifts_fit(self@, *market, new_quote_set.candidates@),
            r matches Some(plan) ==> replacement_views(plan@) == drift_plan(
                self@,
                *market,
                new_quote_set.candidates@,
                drift_threshold_bps@,
            ) && drifts_round(self@, *market, new_quote_set.candidates@),
    {
        let mut r: Vec<Replacement> = Vec::new();
        assert(replacement_views(r@) =~= Seq::empty());
        let ghost all = new_quote_set.candidates@;
        let mut i: usize = 0;
        assert(drift_plan(self@, *market, all.take(0), drift_threshold_bps@) =~= Seq::empty());
        while i < new_quote_set.candidates.len()
            invariant
                i <= new_quote_set.candidates.len(),
                all == new_quote_set.candidates@,
                drifts_fit(self@, *market, all.take(i as int)),
                drifts_round(self@, *market, all.take(i as int)),
                replacement_views(r@) == drift_plan(
                    self@,
                    *market,
                    all.take(i as int),
                    drift_threshold_bps@,
                ),
            decreases new_quote_set.candidates.len() - i,
        {
            let ghost before = replacement_views(r@);
            let candidate = &new_quote_set.candidates[i];
            proof {
                assert(all.take(i + 1).drop_last() =~= all.take(i as int));
                assert(all.take(i + 1).last() == *candidate);
                assert(all[i as int] == *candidate);
                lemma_find(self@.orders, entry_on_leg(market.condition_id@, candidate.leg));
                assert forall|j: int| 0 <= j < i implies #[trigger] all.take(i + 1)[j] == all.take(
                    i as int,
                )[j] by {}
            }
            if candidate.status == QuoteStatus::Approved {
                match self.find_on_leg(market.condition_id.as_str(), candidate.leg) {
                    Some(at) => {
                        assert(self@.orders[at as int] == self.orders@[at as int]@);
                        let order = &self.orders[at].order;
                        let price_drift = measure_drift(order.price, candidate.price, 10_000)?;
                        let size_drift = measure_drift(order.size, candidate.size, 100)?;
                        if price_drift > drift_threshold_bps || size_drift > Decimal::from_u64(50) {
                            let item = Replacement {
                                candidate: candidate.clone(),
                                replaced: Some(order.clone()),
                            };
                            let ghost view = item@;
                            r.push(item);
                            assert(replacement_views(r@) =~= before.push(view));
                        }
                    },
                    None => {
                        if !self.has_exchange_live_leg(
                            market.condition_id.as_str(),
                            candidate.leg,
                        ) {
                            let item = Replacement { candidate: candidate.clone(), replaced: None };
                            let ghost view = item@;
                            r.push(item);
                            assert(replacement_views(r@) =~= before.push(view));
                        }
                    },
                }
            }
            i = i + 1;
        }
        assert(all.take(i as int) =~= all);
        Some(r)
    }

    /// The quotes to place for the orders of a market to follow a new set of quotes: those that
    /// replace an order that has drifted beyond the threshold, and those on a free leg. A market
    /// without orders is left alone.
    pub fn cancel_replace_if_drifted(
        &self,
        market: &CanonicalMarket,
        new_quote_set: &QuoteSet,
        drift_threshold_bps: Decimal,
    ) -> (r: Vec<Replacement>)
        requires
            drifts_fit(self@, *market, new_quote_set.candidates@),
        ensures
            replacement_views(r@) == drift_replacements(
                self@,
                *market,
                new_quote_set.candidates@,
                drift_threshold_bps@,
            ),
            drifts_round(self@, *market, new_quote_set.candidates@),
    {
        if !self.market_has_orders(market.condition_id.as_str()) {
            let r: Vec<Replacement> = Vec::new();
            proof {
                lemma_find(self@.orders, entry_in(market.condition_id@));
                assert forall|j: int| 0 <= j < new_quote_set.candidates@.len() implies find(
                    self@.orders,
                    entry_on_leg(
                        market.condition_id@,
                        (#[trigger] new_quote_set.candidates@[j]).leg,
                    ),
                ) is None by {
                    lemma_not_found(
                        self@.orders,
                        entry_on_leg(market.condition_id@, new_quote_set.candidates@[j].leg),
                    );
                }
            }
            assert(replacement_views(r@) =~= Seq::empty());
            return r;
        }
        match self.checked_drift_plan(market, new_quote_set, drift_threshold_bps) {
            Some(plan) => plan,
            None => unreached(),
        }
    }

    /// The quotes to place for the orders of a market to follow a new set of quotes, unless a drift
    /// is too large.
    pub fn try_cancel_replace_if_drifted(
        &self,
        market: &CanonicalMarket,
        new_quote_set: &QuoteSet,
        drift_threshold_bps: Decimal,
    ) -> (r: Option<Vec<Replacement>>)
        ensures
            r is Some == drifts_fit(self@, *market, new_quote_set.candidates@),
            r matches Some(plan) ==> replacement_views(plan@) == drift_replacements(
                self@,
                *market,
                new_quote_set.candidates@,
                drift_threshold_bps@,
            ) && drifts_round(self@, *market, new_quote_set.candidates@),
    {
        if self.checked_drift_plan(market, new_quote_set, drift_threshold_bps).is_some() {
            Some(self.cancel_replace_if_drifted(market, new_quote_set, drift_threshold_bps))
        } else {
            None
        }
    }

    fn market_has_orders(&self, market: &str) -> (r: bool)
        ensures
            r == (find(self@.orders, entry_in(market@)) is Some),
    {
        let mut i: usize = 0;
        while i < self.orders.len()
            invariant
                i <= self.orders.len(),
                forall|j: int| 0 <= j < i ==> (#[trigger] self@.orders[j]).market != market@,
            decreases self.orders.len() - i,
        {
            assert(self@.orders[i as int] == self.orders@[i as int]@);
            if same_text(self.orders[i].market.as_str(), market) {
                proof {
                    lemma_found(self@.orders, entry_in(market@), i as int);
                }
                return true;
            }
            i = i + 1;
        }
        proof {
            lemma_not_found(self@.orders, entry_in(market@));
        }
        false
    }

    /// Replacements are placed only if every cancellation was confirmed: no leg is ever doubled.
    pub fn may_replace(outcomes: &Vec<CancelOrderOutcome>) -> (r: bool)
        ensures
            r == (forall|i: int| 0 <= i < outcomes@.len() ==> (#[trigger] outcomes@[i]) is Confirmed),
    {
        let mut i: usize = 0;
        while i < outcomes.len()
            invariant
                i <= outcomes.len(),
                forall|j: int| 0 <= j < i ==> (#[trigger] outcomes@[j]) is Confirmed,
            decreases outcomes.len() - i,
        {
            match &outcomes[i] {
                CancelOrderOutcome::Confirmed => {},
                _ => {
                    return false;
                },
            }
            i = i + 1;
        }
        true
    }
}

} // verus!
