//! Which quotes are placed, in what size, and when they replace an order.

use crate::decimal::{
    abs_value, lemma_cents_add_up, lemma_grid_point, lemma_representable_bound, mantissa_bound,
    pow10, representable, unit,
};
use crate::keyed::{find, lemma_find, lemma_found, lemma_not_found};
use crate::models::{
    CanonicalMarket, OrderAmountKind, OrderRequest, OrderType, Position, QuoteCandidate, QuoteLeg, QuoteStatus, Side,
};
use crate::trading::order_manager::placement::{
    drift, drift_action, drift_plan, drift_replacements, drift_rounds, drifts_round, has_drifted,
    placed_order, placement_size, places, resizes, DriftAction, ReplacementView,
};
use crate::trading::order_manager::{
    buy_exposure, entry_in, entry_on_leg, exposure_fits, EntryView, OrdersView,
};
use vstd::prelude::*;

verus! {

/// Written with at most four places, and below a trillion.
pub open spec fn quoted_number(v: int) -> bool {
    &&& v % 1_000_000_000_000_000_000_000_000 == 0
    &&& -1_000_000_000_000 * unit() <= v <= 1_000_000_000_000 * unit()
}

proof fn lemma_apart(old: int, new: int)
    requires
        quoted_number(old),
        quoted_number(new),
    ensures
        representable(old - new),
{
    reveal_with_fuel(pow10, 29);
    assert(pow10(24) == 1_000_000_000_000_000_000_000_000);
    let n = (old - new) / pow10(24);
    assert(old - new == n * pow10(24));
    lemma_grid_point(n, 24);
}

/// A drift is no smaller than a decimal that the exact one reaches, and no larger than one that it
/// does not exceed.
proof fn lemma_drift_bounds(old: int, new: int, scale: int, y: int)
    requires
        new > 0,
        scale > 0,
        drift_rounds(old, new, scale),
        representable(old - new),
        representable(y),
        representable(scale * y),
    ensures
        y * new <= abs_value(old - new) * unit() ==> drift(old, new, scale) >= scale * y,
        abs_value(old - new) * unit() <= y * new ==> drift(old, new, scale) <= scale * y,
{
    reveal(drift_rounds);
    let u = unit();
    let q = crate::decimal::quotient(abs_value(old - new), new);
    assert(crate::decimal::difference(old, new) == old - new);
    if y * new <= abs_value(old - new) * u {
        assert(y <= q);
        assert((scale * y) * u <= q * (scale * u)) by (nonlinear_arith)
            requires
                y <= q,
                scale > 0,
                u > 0,
        ;
    }
    if abs_value(old - new) * u <= y * new {
        assert(q <= y);
        assert(q * (scale * u) <= (scale * y) * u) by (nonlinear_arith)
            requires
                q <= y,
                scale > 0,
                u > 0,
        ;
    }
}

/// Prices have drifted exactly where their distance, in parts per ten thousand of the new one, is
/// beyond the threshold.
#[verifier::spinoff_prover]
#[verifier::rlimit(60)]
proof fn lemma_price_drift(old: int, new: int, threshold: int)
    requires
        quoted_number(old),
        quoted_number(new),
        new > 0,
        threshold % 1_000_000_000_000_000_000_000_000 == 0,
        0 <= threshold <= 10_000 * unit(),
        drift_rounds(old, new, 10_000),
    ensures
        drift(old, new, 10_000) > threshold <==> abs_value(old - new) * 10_000 * unit() > threshold
            * new,
{
    let g = 1_000_000_000_000_000_000_000_000int;
    let u = unit();
    let a = abs_value(old - new);
    let t = threshold / g;
    let d = a / g;
    let n = new / g;
    lemma_apart(old, new);
    assert(threshold == t * g && a == d * g && new == n * g);
    assert(pow10(0) == 1 && pow10(4) == 10_000) by {
        reveal_with_fuel(pow10, 5);
    }
    let y = t * 100_000_000_000_000_000_000;
    lemma_grid_point(y, 0);
    lemma_grid_point(y, 4);
    lemma_grid_point(y + 1, 0);
    lemma_grid_point(y + 1, 4);
    assert(10_000 * y == threshold);
    lemma_drift_bounds(old, new, 10_000, y);
    lemma_drift_bounds(old, new, 10_000, y + 1);
    let tn = t * n;
    assert(threshold * new == tn * (g * g)) by (nonlinear_arith)
        requires
            threshold == t * g,
            new == n * g,
            tn == t * n,
    ;
    assert(a * 10_000 * u == (d * 100_000_000) * (g * g)) by (nonlinear_arith)
        requires
            a == d * g,
            u == 10_000 * g,
    ;
    assert((a * 10_000 * u > threshold * new) == (d * 100_000_000 > tn)) by (nonlinear_arith)
        requires
            threshold * new == tn * (g * g),
            a * 10_000 * u == (d * 100_000_000) * (g * g),
            g > 0,
    ;
    let e = 100_000_000_000_000_000_000int;
    assert(y * new == (tn * e) * g) by (nonlinear_arith)
        requires
            y == t * e,
            new == n * g,
            tn == t * n,
    ;
    assert(a * u == ((d * 100_000_000) * e) * g) by (nonlinear_arith)
        requires
            a == d * g,
            u == 100_000_000 * e,
    ;
    if d * 100_000_000 > tn {
        assert((y + 1) * new <= a * u) by (nonlinear_arith)
            requires
                y * new == (tn * e) * g,
                a * u == ((d * 100_000_000) * e) * g,
                d * 100_000_000 >= tn + 1,
                new == n * g,
                n <= e,
                g > 0,
                e > 0,
        ;
    } else {
        assert(a * u <= y * new) by (nonlinear_arith)
            requires
                y * new == (tn * e) * g,
                a * u == ((d * 100_000_000) * e) * g,
                d * 100_000_000 <= tn,
                g > 0,
                e > 0,
        ;
    }
}

/// Sizes have drifted exactly where they differ by more than half of the new one.
#[verifier::spinoff_prover]
#[verifier::rlimit(60)]
proof fn lemma_size_drift(old: int, new: int)
    requires
        quoted_number(old),
        quoted_number(new),
        new > 0,
        drift_rounds(old, new, 100),
    ensures
        drift(old, new, 100) > 50 * unit() <==> 2 * abs_value(old - new) > new,
{
    let y = 5_000_000_000_000_000_000_000_000_000int;
    lemma_apart(old, new);
    assert(pow10(0) == 1 && pow10(2) == 100) by {
        reveal_with_fuel(pow10, 3);
    }
    lemma_grid_point(y, 0);
    lemma_grid_point(y, 2);
    lemma_grid_point(y + 1, 0);
    lemma_grid_point(y + 1, 2);
    lemma_drift_bounds(old, new, 100, y);
    lemma_drift_bounds(old, new, 100, y + 1);
    lemma_half(abs_value(old - new), new, y);
}

/// Quoted numbers beyond half of another are beyond it by more than rounding shows.
proof fn lemma_half(a: int, new: int, y: int)
    requires
        a % 1_000_000_000_000_000_000_000_000 == 0,
        new % 1_000_000_000_000_000_000_000_000 == 0,
        0 < new <= 1_000_000_000_000 * unit(),
        2 * y == unit(),
    ensures
        2 * a > new ==> (y + 1) * new <= a * unit(),
        2 * a <= new ==> a * unit() <= y * new,
{
    let g = 1_000_000_000_000_000_000_000_000int;
    let u = unit();
    assert((2 * a) * y == a * u) by (nonlinear_arith)
        requires
            2 * y == u,
    ;
    if 2 * a > new {
        let x = a / g;
        let z = new / g;
        assert(a == x * g && new == z * g);
        assert(2 * x >= z + 1);
        assert(new + g <= 2 * a);
        assert((new + g) * y <= (2 * a) * y) by (nonlinear_arith)
            requires
                new + g <= 2 * a,
                y > 0,
        ;
        assert((new + g) * y == new * y + g * y) by (nonlinear_arith);
        assert((y + 1) * new == new * y + new) by (nonlinear_arith);
        assert(new <= g * y);
    } else {
        assert((2 * a) * y <= new * y) by (nonlinear_arith)
            requires
                2 * a <= new,
                y > 0,
        ;
        assert(new * y == y * new) by (nonlinear_arith);
    }
}

/// The plan holds what each quote asks for.
proof fn lemma_planned(
    v: OrdersView,
    market: CanonicalMarket,
    candidates: Seq<QuoteCandidate>,
    threshold_bps: int,
    j: int,
)
    requires
        0 <= j < candidates.len(),
    ensures
        match drift_action(v, market, candidates[j], threshold_bps) {
            DriftAction::Keep => true,
            DriftAction::Replace(order) => drift_plan(
                v,
                market,
                candidates,
                threshold_bps,
            ).contains(ReplacementView { candidate: candidates[j], replaced: Some(order) }),
            DriftAction::Place => drift_plan(v, market, candidates, threshold_bps).contains(
                ReplacementView { candidate: candidates[j], replaced: None },
            ),
        },
    decreases candidates.len(),
{
    let plan = drift_plan(v, market, candidates, threshold_bps);
    let rest = drift_plan(v, market, candidates.drop_last(), threshold_bps);
    if j == candidates.len() - 1 {
        if !(drift_action(v, market, candidates[j], threshold_bps) is Keep) {
            assert(plan[plan.len() - 1] == plan.last());
        }
    } else {
        lemma_planned(v, market, candidates.drop_last(), threshold_bps, j);
        assert(candidates.drop_last()[j] == candidates[j]);
        assert forall|x: ReplacementView| #[trigger] rest.contains(x) implies plan.contains(x) by {
            let k = choose|k: int| 0 <= k < rest.len() && rest[k] == x;
            assert(plan[k] == x);
        }
    }
}

/// Every entry of the plan comes from a quote that asks for it.
proof fn lemma_asked_for(
    v: OrdersView,
    market: CanonicalMarket,
    candidates: Seq<QuoteCandidate>,
    threshold_bps: int,
    x: ReplacementView,
)
    requires
        drift_plan(v, market, candidates, threshold_bps).contains(x),
    ensures
        exists|j: int|
            0 <= j < candidates.len() && #[trigger] candidates[j] == x.candidate && drift_action(
                v,
                market,
                candidates[j],
                threshold_bps,
            ) == match x.replaced {
                Some(order) => DriftAction::Replace(order),
                None => DriftAction::Place,
            },
    decreases candidates.len(),
{
    let plan = drift_plan(v, market, candidates, threshold_bps);
    if candidates.len() > 0 {
        let rest = drift_plan(v, market, candidates.drop_last(), threshold_bps);
        let k = choose|k: int| 0 <= k < plan.len() && plan[k] == x;
        if k < rest.len() {
            assert(rest[k] == x);
            lemma_asked_for(v, market, candidates.drop_last(), threshold_bps, x);
            let j = choose|j: int|
                0 <= j < candidates.drop_last().len() && #[trigger] candidates.drop_last()[j]
                    == x.candidate && drift_action(
                    v,
                    market,
                    candidates.drop_last()[j],
                    threshold_bps,
                ) == match x.replaced {
                    Some(order) => DriftAction::Replace(order),
                    None => DriftAction::Place,
                };
            assert(candidates[j] == x.candidate);
        } else {
            assert(candidates[candidates.len() - 1] == x.candidate);
        }
    }
}

/// The first order on the leg of an approved quote is replaced by it exactly where their prices are
/// more than the threshold apart, in ten-thousandths of the quote's price and whichever is higher,
/// or their sizes differ by more than half of the quote's size. Numbers have at most four places.
pub proof fn law_orders_are_replaced_where_they_drift(
    v: OrdersView,
    market: CanonicalMarket,
    candidates: Seq<QuoteCandidate>,
    threshold_bps: int,
    i: int,
    j: int,
)
    requires
        drifts_round(v, market, candidates),
        0 <= i < v.orders.len(),
        0 <= j < candidates.len(),
        candidates[j].status == QuoteStatus::Approved,
        v.orders[i].market == market.condition_id@ && v.orders[i].order.leg == candidates[j].leg,
        forall|k: int|
            0 <= k < i ==> (#[trigger] v.orders[k]).market != market.condition_id@
                || v.orders[k].order.leg != candidates[j].leg,
        quoted_number(v.orders[i].order.price) && quoted_number(candidates[j].price@),
        quoted_number(v.orders[i].order.size) && quoted_number(candidates[j].size@),
        candidates[j].price@ > 0 && candidates[j].size@ > 0,
        threshold_bps % 1_000_000_000_000_000_000_000_000 == 0,
        0 <= threshold_bps <= 10_000 * unit(),
    ensures
        ({
            let order = v.orders[i].order;
            let c = candidates[j];
            let moved = abs_value(order.price - c.price@) * 10_000 * unit() > threshold_bps
                * c.price@ || 2 * abs_value(order.size - c.size@) > c.size@;
            let plan = drift_replacements(v, market, candidates, threshold_bps);
            &&& moved ==> plan.contains(
                ReplacementView { candidate: c, replaced: Some(order) },
            )
            &&& !moved ==> forall|x: ReplacementView|
                #![trigger plan.contains(x)]
                plan.contains(x) && x.candidate == c ==> false
        }),
{
    let order = v.orders[i].order;
    let c = candidates[j];
    let p = entry_on_leg(market.condition_id@, c.leg);
    lemma_found(v.orders, p, i);
    lemma_find(v.orders, entry_in(market.condition_id@));
    lemma_price_drift(order.price, c.price@, threshold_bps);
    lemma_size_drift(order.size, c.size@);
    lemma_planned(v, market, candidates, threshold_bps, j);
    let plan = drift_plan(v, market, candidates, threshold_bps);
    assert forall|x: ReplacementView| #[trigger] plan.contains(x) && x.candidate
        == c implies has_drifted(order, c, threshold_bps) by {
        lemma_asked_for(v, market, candidates, threshold_bps, x);
    }
}

/// Only approved quotes are placed. One that replaces an order replaces the first on its own leg of
/// the market; one that replaces none has no order on its leg, nor is the exchange known to have
/// one. A market without orders is left alone.
pub proof fn law_replacements_keep_to_their_legs(
    v: OrdersView,
    market: CanonicalMarket,
    candidates: Seq<QuoteCandidate>,
    threshold_bps: int,
    x: ReplacementView,
)
    requires
        drift_replacements(v, market, candidates, threshold_bps).contains(x),
    ensures
        candidates.contains(x.candidate),
        x.candidate.status == QuoteStatus::Approved,
        exists|k: int| 0 <= k < v.orders.len() && (#[trigger] v.orders[k]).market
            == market.condition_id@,
        match x.replaced {
            Some(order) => order.leg == x.candidate.leg && exists|k: int|
                0 <= k < v.orders.len() && (#[trigger] v.orders[k]).order == order
                    && v.orders[k].market == market.condition_id@,
            None => !v.legs.contains((market.condition_id@, x.candidate.leg)) && forall|k: int|
                0 <= k < v.orders.len() && (#[trigger] v.orders[k]).market == market.condition_id@
                    ==> v.orders[k].order.leg != x.candidate.leg,
        },
{
    lemma_find(v.orders, entry_in(market.condition_id@));
    lemma_asked_for(v, market, candidates, threshold_bps, x);
    lemma_find(v.orders, entry_on_leg(market.condition_id@, x.candidate.leg));
}

/// An approved quote is placed on a free leg of a market that has orders.
pub proof fn law_free_legs_are_quoted(
    v: OrdersView,
    market: CanonicalMarket,
    candidates: Seq<QuoteCandidate>,
    threshold_bps: int,
    i: int,
    j: int,
)
    requires
        0 <= i < v.orders.len(),
        v.orders[i].market == market.condition_id@,
        0 <= j < candidates.len(),
        candidates[j].status == QuoteStatus::Approved,
        !v.legs.contains((market.condition_id@, candidates[j].leg)),
        forall|k: int|
            0 <= k < v.orders.len() && (#[trigger] v.orders[k]).market == market.condition_id@
                ==> v.orders[k].order.leg != candidates[j].leg,
    ensures
        drift_replacements(v, market, candidates, threshold_bps).contains(
            ReplacementView { candidate: candidates[j], replaced: None },
        ),
{
    lemma_find(v.orders, entry_in(market.condition_id@));
    lemma_not_found(v.orders, entry_on_leg(market.condition_id@, candidates[j].leg));
    lemma_planned(v, market, candidates, threshold_bps, j);
}

/// The shares of the bids, added up.
pub open spec fn exposed(orders: Seq<EntryView>) -> int
    decreases orders.len(),
{
    if orders.len() == 0 {
        0
    } else {
        exposed(orders.drop_last()) + if orders.last().order.side == Side::Buy {
            orders.last().order.size
        } else {
            0
        }
    }
}

proof fn lemma_exposed(orders: Seq<EntryView>)
    requires
        forall|i: int|
            0 <= i < orders.len() ==> (#[trigger] orders[i]).order.size >= 0
                && orders[i].order.size % 100_000_000_000_000_000_000_000_000 == 0,
        exposed(orders) < mantissa_bound() * 100_000_000_000_000_000_000_000_000,
    ensures
        buy_exposure(orders) == exposed(orders),
        exposure_fits(orders),
        0 <= exposed(orders),
        exposed(orders) % 100_000_000_000_000_000_000_000_000 == 0,
    decreases orders.len(),
{
    if orders.len() > 0 {
        let rest = orders.drop_last();
        let last = orders[orders.len() - 1];
        assert(last.order.size >= 0);
        assert forall|i: int| 0 <= i < rest.len() implies (#[trigger] rest[i]).order.size >= 0
            && rest[i].order.size % 100_000_000_000_000_000_000_000_000 == 0 by {
            assert(rest[i] == orders[i]);
        }
        lemma_exposed(rest);
        if last.order.side == Side::Buy {
            lemma_cents_add_up(exposed(rest), last.order.size);
        }
    }
}

/// Over sizes of whole hundredths, the budget is the balance less a dollar for each share of a
/// resting bid and less the reserve, but never below zero. Hedges may use the reserve too.
pub proof fn law_bids_and_reserve_leave_the_budget(v: OrdersView)
    requires
        forall|i: int|
            0 <= i < v.orders.len() ==> (#[trigger] v.orders[i]).order.size >= 0
                && v.orders[i].order.size % 100_000_000_000_000_000_000_000_000 == 0,
        exposed(v.orders) < mantissa_bound() * 100_000_000_000_000_000_000_000_000,
        representable(v.gross - exposed(v.orders)),
        representable(v.gross - exposed(v.orders) - v.reserve),
    ensures
        v.budget_fits() && v.hedge_money_fits(),
        v.budget() >= 0,
        v.gross - exposed(v.orders) - v.reserve >= 0 ==> v.budget() + exposed(v.orders) + v.reserve
            == v.gross,
        v.gross - exposed(v.orders) - v.reserve < 0 ==> v.budget() == 0,
        v.hedge_money() == if v.gross >= exposed(v.orders) {
            v.gross - exposed(v.orders)
        } else {
            0
        },
{
    lemma_exposed(v.orders);
    lemma_representable_bound(v.gross - exposed(v.orders));
    lemma_representable_bound(v.gross - exposed(v.orders) - v.reserve);
}

/// A quote that is not approved is not placed, and none on a leg that an order or the exchange is on.
/// A bid is placed for the most whole shares that are wanted and that the budget pays for at a dollar
/// each, and not at all where those are none or fewer than the least.
pub proof fn law_bids_take_the_most_whole_shares(
    v: OrdersView,
    market: CanonicalMarket,
    candidate: QuoteCandidate,
    position: Option<&Position>,
    min_order_size: int,
    origin: Seq<char>,
)
    requires
        candidate.leg == QuoteLeg::YesBid || candidate.leg == QuoteLeg::NoBid,
    ensures
        ({
            let r = placement_size(v, market, candidate, position, min_order_size, origin);
            let free = candidate.status == QuoteStatus::Approved && !v.legs.contains(
                (market.condition_id@, candidate.leg),
            ) && forall|k: int|
                0 <= k < v.orders.len() && (#[trigger] v.orders[k]).market == market.condition_id@
                    ==> v.orders[k].order.leg != candidate.leg;
            &&& !free ==> r is None
            &&& r matches Some(size) ==> {
                &&& size > 0 && size % unit() == 0 && size >= min_order_size
                &&& size <= candidate.size@ && size <= v.budget()
                &&& size + unit() > candidate.size@ || size + unit() > v.budget()
            }
            &&& free && r is None ==> forall|w: int|
                #![trigger w * unit()]
                w > 0 && w * unit() >= min_order_size && w * unit() <= candidate.size@ ==> w
                    * unit() > v.budget()
        }),
{
    lemma_find(v.orders, entry_on_leg(market.condition_id@, candidate.leg));
    assert(v.budget() >= 0);
}

/// An ask is placed in full, and only for shares that are held: when leaving a market all of them
/// may be offered, else those that have no counterpart.
pub proof fn law_asks_offer_only_what_is_held(
    v: OrdersView,
    market: CanonicalMarket,
    candidate: QuoteCandidate,
    position: Option<&Position>,
    min_order_size: int,
    origin: Seq<char>,
)
    requires
        candidate.leg == QuoteLeg::YesAsk || candidate.leg == QuoteLeg::NoAsk,
        candidate.size@ > 0,
        position matches Some(p) ==> representable(p.yes_size@ - p.no_size@) && representable(
            p.no_size@ - p.yes_size@,
        ),
    ensures
        ({
            let r = placement_size(v, market, candidate, position, min_order_size, origin);
            let free = candidate.status == QuoteStatus::Approved && !v.legs.contains(
                (market.condition_id@, candidate.leg),
            ) && forall|k: int|
                0 <= k < v.orders.len() && (#[trigger] v.orders[k]).market == market.condition_id@
                    ==> v.orders[k].order.leg != candidate.leg;
            let held = match position {
                Some(p) => {
                    let (ours, other) = if candidate.leg == QuoteLeg::YesAsk {
                        (p.yes_size@, p.no_size@)
                    } else {
                        (p.no_size@, p.yes_size@)
                    };
                    if origin == "inventory_exit_ask"@ {
                        candidate.size@ <= ours
                    } else {
                        candidate.size@ <= ours - other
                    }
                },
                None => false,
            };
            r == if free && held {
                Some(candidate.size@)
            } else {
                None
            }
        }),
{
    lemma_find(v.orders, entry_on_leg(market.condition_id@, candidate.leg));
}

/// An order goes to the token of its leg: bids buy and asks sell it, resting until cancelled. What is
/// tracked of it is what was placed, with nothing matched yet and the other token to hedge with.
pub proof fn law_orders_go_to_the_token_of_their_leg(
    request: OrderRequest,
    market: CanonicalMarket,
    candidate: QuoteCandidate,
    size: int,
    order_id: Seq<char>,
    trace_id: Seq<char>,
    created_at: crate::time::Timestamp,
)
    requires
        places(request, market, candidate, size),
    ensures
        ({
            let yes = candidate.leg == QuoteLeg::YesBid || candidate.leg == QuoteLeg::YesAsk;
            let bid = candidate.leg == QuoteLeg::YesBid || candidate.leg == QuoteLeg::NoBid;
            let tracked_as = placed_order(
                market,
                candidate,
                size,
                order_id,
                trace_id,
                created_at,
            );
            &&& yes ==> request.token_id@ == market.yes_token_id@
            &&& !yes ==> request.token_id@ == market.no_token_id@
            &&& bid ==> request.side == Side::Buy
            &&& !bid ==> request.side == Side::Sell
            &&& request.price@ == candidate.price@ && request.size@ == size
            &&& request.post_only && request.order_type == OrderType::GTC
            &&& request.amount_kind == OrderAmountKind::Shares
            &&& request.neg_risk == market.neg_risk && request.tick_size@ == market.tick_size@
            &&& tracked_as.neg_risk == market.neg_risk && tracked_as.tick_size
                == market.tick_size@
            &&& tracked_as.token_id == request.token_id@
            &&& tracked_as.opposite_token_id == if yes {
                market.no_token_id@
            } else {
                market.yes_token_id@
            }
            &&& tracked_as.side == request.side && tracked_as.leg == candidate.leg
            &&& tracked_as.price == candidate.price@ && tracked_as.size == size
            &&& tracked_as.matched_size == 0
            &&& tracked_as.order_id == order_id && tracked_as.trace_id == trace_id
            &&& tracked_as.condition_id == market.condition_id@
            &&& tracked_as.created_at == created_at
        }),
{
}

/// An order that rests again at another size is placed as its quote would be at that size.
pub proof fn law_resizing_changes_the_size_alone(
    request: OrderRequest,
    market: CanonicalMarket,
    candidate: QuoteCandidate,
    size: int,
    new_size: int,
    order_id: Seq<char>,
    trace_id: Seq<char>,
    created_at: crate::time::Timestamp,
)
    ensures
        resizes(
            request,
            placed_order(market, candidate, size, order_id, trace_id, created_at),
            new_size,
        ) == places(request, market, candidate, new_size),
        resizes(
            request,
            placed_order(market, candidate, size, order_id, trace_id, created_at),
            new_size,
        ) ==> request.size@ == new_size && request.price@ == candidate.price@,
{
}

} // verus!
