//! What always holds of the tracked orders.

use crate::decimal::{lemma_whole, representable};
use crate::keyed::{find, lemma_find, lemma_found, lemma_not_found};
use crate::models::{CancelReasonCode, CanonicalMarket, LiveOrder, Position, QuoteCandidate};
use crate::trading::order_manager::placement::placement_size;
use crate::trading::order_manager::sync::{not_missing_from, synced_all};
use crate::trading::order_manager::{
    cancelled_with_id, caught_up_shares, entry_at, entry_with_id, filled_shares, matched_by, pending_with_id,
    EntryView, OrdersView, TrackedView,
};
use vstd::prelude::*;

verus! {

/// An unconfirmed cancellation changes nothing but the retries: the order stays active, its leg
/// stays taken, and the cancellation is listed for another attempt.
pub proof fn law_unconfirmed_cancel_keeps_order(
    v: OrdersView,
    order: TrackedView,
    reason_code: CancelReasonCode,
    origin: Seq<char>,
    now: int,
)
    ensures
        ({
            let after = v.cancel_pending(order, reason_code, origin, now);
            &&& after.orders == v.orders
            &&& after.legs == v.legs
            &&& after.recent == v.recent
            &&& find(after.pending, pending_with_id(order.order_id)) is Some
        }),
{
    let after = v.cancel_pending(order, reason_code, origin, now);
    let p = pending_with_id(order.order_id);
    lemma_find(v.pending, p);
    match find(v.pending, p) {
        Some(i) => {
            lemma_found(after.pending, p, i);
        },
        None => {
            lemma_found(after.pending, p, v.pending.len() as int);
        },
    }
}

/// A confirmed cancellation is no longer retried, and fills that arrive late still find the order.
pub proof fn law_confirmed_cancel_settles(v: OrdersView, order: TrackedView, now: int)
    requires
        v.well_formed(),
    ensures
        ({
            let after = v.cancel_confirmed(order, now);
            &&& find(after.pending, pending_with_id(order.order_id)) is None
            &&& find(after.recent, cancelled_with_id(order.order_id)) is Some
        }),
{
    let after = v.cancel_confirmed(order, now);
    let id = order.order_id;
    let p = pending_with_id(id);
    lemma_find(v.pending, p);
    assert(after.pending == v.without_pending(id).pending);
    lemma_not_found(after.pending, p);
    lemma_find(v.orders, entry_with_id(id));
    let gone = match v.active(id) {
        Some(active) => active,
        None => order,
    };
    assert(gone.order_id == id);
    let c = cancelled_with_id(id);
    lemma_find(v.recent, c);
    match find(v.recent, c) {
        Some(i) => {
            lemma_found(after.recent, c, i);
        },
        None => {
            lemma_found(after.recent, c, v.recent.len() as int);
        },
    }
}

/// A fill moves shares from open to matched: as long as the sums are decimals, none is lost.
pub proof fn law_fill_conserves_shares(order: TrackedView, fill: int)
    requires
        fill > 0,
        order.size >= 0,
        representable(order.size - filled_shares(order, fill)),
        representable(order.matched_size + filled_shares(order, fill)),
    ensures
        ({
            let after = matched_by(order, filled_shares(order, fill));
            after.size + after.matched_size == order.size + order.matched_size
        }),
{
}

/// What the records know of an order once `shares` of it are matched.
proof fn lemma_match_is_known(v: OrdersView, id: Seq<char>, shares: int, now: int)
    requires
        v.known(id) is Some,
        forall|i: int, j: int|
            0 <= i < j < v.orders.len() ==> (#[trigger] v.orders[i]).order.order_id != id || (
            #[trigger] v.orders[j]).order.order_id != id,
    ensures
        v.with_match(id, shares, now).known(id) == Some(matched_by(v.known(id)->0, shares)),
{
    let p = entry_with_id(id);
    let c = cancelled_with_id(id);
    let after = v.with_match(id, shares, now);
    lemma_find(v.orders, p);
    lemma_find(v.recent, c);
    match find(v.orders, p) {
        Some(i) => {
            let order = matched_by(v.orders[i].order, shares);
            if order.size <= 0 {
                assert(after.orders == v.orders.remove(i));
                assert forall|j: int| 0 <= j < after.orders.len() implies !p(
                    #[trigger] after.orders[j],
                ) by {
                    assert(after.orders[j] == v.orders[if j < i {
                        j
                    } else {
                        j + 1
                    }]);
                    if j >= i {
                        assert(v.orders[i].order.order_id == id);
                    }
                }
                lemma_not_found(after.orders, p);
                match find(v.recent, c) {
                    Some(k) => {
                        lemma_found(after.recent, c, k);
                    },
                    None => {
                        lemma_found(after.recent, c, v.recent.len() as int);
                    },
                }
            } else {
                lemma_found(after.orders, p, i);
            }
        },
        None => {
            let k = find(v.recent, c)->0;
            lemma_found(after.recent, c, k);
        },
    }
}

/// The numbers of an order and of two updates need no rounding.
pub open spec fn counted_exactly(order: TrackedView, cumulative: int, repeated: int) -> bool {
    let shares = caught_up_shares(order, cumulative);
    let matched = order.matched_size + shares;
    &&& representable(cumulative - order.matched_size)
    &&& representable(cumulative)
    &&& representable(order.size - shares)
    &&& representable(matched)
    &&& representable(repeated - matched)
}

/// An order update that repeats an earlier amount, or reports a smaller one, matches nothing and
/// leaves the order as it is. That holds too where the earlier update reported more than the order
/// had open, and after the order was fully matched.
pub proof fn law_old_updates_match_nothing(
    v: OrdersView,
    id: Seq<char>,
    cumulative: int,
    repeated: int,
    now: int,
    later: int,
)
    requires
        v.known(id) is Some,
        forall|i: int, j: int|
            0 <= i < j < v.orders.len() ==> (#[trigger] v.orders[i]).order.order_id != id || (
            #[trigger] v.orders[j]).order.order_id != id,
        0 <= repeated <= cumulative,
        cumulative > v.known(id)->0.matched_size ==> counted_exactly(
            v.known(id)->0,
            cumulative,
            repeated,
        ),
    ensures
        ({
            let after = v.updated(id, cumulative, now);
            &&& after.update_report(id, repeated) is Some
            &&& after.update_report(id, repeated)->0.newly_matched == 0
            &&& after.updated(id, repeated, later).known(id) == after.known(id)
        }),
{
    let order = v.known(id)->0;
    lemma_whole(0);
    if cumulative > order.matched_size {
        let shares = caught_up_shares(order, cumulative);
        let after = v.updated(id, cumulative, now);
        lemma_match_is_known(v, id, shares, now);
        let next = matched_by(order, shares);
        assert(next.matched_size == order.matched_size + shares);
        if repeated > next.matched_size {
            assert(next.size == 0);
            assert(caught_up_shares(next, repeated) == 0);
            assert(matched_by(next, 0) == next);
            lemma_find(v.orders, entry_with_id(id));
            assert forall|i: int, j: int| 0 <= i < j < after.orders.len() implies (
            #[trigger] after.orders[i]).order.order_id != id || (
            #[trigger] after.orders[j]).order.order_id != id by {
                match find(v.orders, entry_with_id(id)) {
                    Some(k) => {
                        assert(after.orders == v.orders.remove(k));
                        let a = if i < k {
                            i
                        } else {
                            i + 1
                        };
                        let b = if j < k {
                            j
                        } else {
                            j + 1
                        };
                        assert(after.orders[i] == v.orders[a] && after.orders[j] == v.orders[b]);
                    },
                    None => {
                        assert(after.orders == v.orders);
                    },
                }
            }
            lemma_match_is_known(after, id, 0, later);
        }
    }
}

/// A fill that is reported both as a trade and by an order update counts once.
pub proof fn law_trade_and_update_count_once(order: TrackedView, fill: int)
    requires
        0 < fill <= order.size,
        representable(order.matched_size + fill),
    ensures
        ({
            let after = matched_by(order, filled_shares(order, fill));
            caught_up_shares(after, order.matched_size + fill) == 0
        }),
{
}

/// No bid is placed for more shares than the budget pays for at a dollar each.
pub proof fn law_bid_within_budget(
    v: OrdersView,
    market: CanonicalMarket,
    candidate: QuoteCandidate,
    position: Option<&Position>,
    min_order_size: int,
    origin: Seq<char>,
)
    requires
        candidate.leg.bids(),
    ensures
        placement_size(v, market, candidate, position, min_order_size, origin) matches Some(size)
            ==> 0 < size <= v.budget() && size <= candidate.size@ && size >= min_order_size,
{
}

/// A leg that an order was placed on takes no second order.
pub proof fn law_placed_leg_is_taken(
    v: OrdersView,
    market: CanonicalMarket,
    candidate: QuoteCandidate,
    order: TrackedView,
    next: QuoteCandidate,
    position: Option<&Position>,
    min_order_size: int,
    origin: Seq<char>,
)
    requires
        next.leg == candidate.leg,
    ensures
        placement_size(
            v.with_order(market.condition_id@, order).with_leg(market.condition_id@, candidate.leg),
            market,
            next,
            position,
            min_order_size,
            origin,
        ) is None,
{
}

/// Filing an order under a market makes it findable there.
pub proof fn law_filed_order_is_found(v: OrdersView, market: Seq<char>, order: TrackedView)
    ensures
        ({
            let after = v.with_order(market, order);
            find(after.orders, entry_at(market, order.order_id)) matches Some(i)
                && after.orders[i].order == order
        }),
{
    let p = entry_at(market, order.order_id);
    let after = v.with_order(market, order);
    lemma_find(v.orders, p);
    match find(v.orders, p) {
        Some(i) => {
            lemma_found(after.orders, p, i);
        },
        None => {
            lemma_found(after.orders, p, v.orders.len() as int);
        },
    }
}

/// A sync of all markets drops no order and moves none to another market, whatever the exchange
/// leaves out: what was tracked keeps its capital reserved.
pub proof fn law_global_sync_keeps_orders(
    orders: Seq<EntryView>,
    fetched: Seq<LiveOrder>,
    markets: Seq<CanonicalMarket>,
    traces: Seq<Seq<char>>,
)
    ensures
        ({
            let after = synced_all(orders, fetched, markets, traces).orders;
            &&& orders.len() <= after.len()
            &&& forall|i: int|
                0 <= i < orders.len() ==> (#[trigger] after[i]).market == orders[i].market
                    && after[i].order.order_id == orders[i].order.order_id && after[i].order.leg
                    == orders[i].order.leg
        }),
    decreases fetched.len(),
{
    if fetched.len() > 0 {
        law_global_sync_keeps_orders(orders, fetched.drop_last(), markets, traces);
        let st = synced_all(orders, fetched.drop_last(), markets, traces);
        lemma_find(
            st.orders,
            crate::trading::order_manager::entry_with_id(fetched.last().id@),
        );
    }
}

/// The orders that the exchange does not report keep their size and what was matched of them.
pub proof fn law_global_sync_leaves_unreported(
    orders: Seq<EntryView>,
    fetched: Seq<LiveOrder>,
    markets: Seq<CanonicalMarket>,
    traces: Seq<Seq<char>>,
    i: int,
)
    requires
        0 <= i < orders.len(),
        forall|k: int|
            0 <= k < fetched.len() ==> (#[trigger] fetched[k]).id@ != orders[i].order.order_id,
    ensures
        synced_all(orders, fetched, markets, traces).orders[i] == orders[i],
    decreases fetched.len(),
{
    if fetched.len() > 0 {
        assert forall|k: int| 0 <= k < fetched.drop_last().len() implies (
        #[trigger] fetched.drop_last()[k]).id@ != orders[i].order.order_id by {
            assert(fetched.drop_last()[k] == fetched[k]);
        }
        law_global_sync_leaves_unreported(orders, fetched.drop_last(), markets, traces, i);
        law_global_sync_keeps_orders(orders, fetched.drop_last(), markets, traces);
        let st = synced_all(orders, fetched.drop_last(), markets, traces);
        lemma_find(
            st.orders,
            crate::trading::order_manager::entry_with_id(fetched.last().id@),
        );
        assert(fetched[fetched.len() - 1] == fetched.last());
    }
}

/// After a reconciling sync every order filed under the market is one that the exchange reports.
pub proof fn law_reconcile_leaves_only_live(
    orders: Seq<EntryView>,
    market: Seq<char>,
    live_ids: Seq<Seq<char>>,
    i: int,
)
    requires
        0 <= i < orders.filter(not_missing_from(market, live_ids)).len(),
        orders.filter(not_missing_from(market, live_ids))[i].market == market,
    ensures
        live_ids.contains(
            orders.filter(not_missing_from(market, live_ids))[i].order.order_id,
        ),
{
    orders.lemma_filter_pred(not_missing_from(market, live_ids), i);
}

/// A reconciling sync of one market leaves the orders of all other markets alone.
pub proof fn law_reconcile_spares_other_markets(
    orders: Seq<EntryView>,
    market: Seq<char>,
    live_ids: Seq<Seq<char>>,
    i: int,
)
    requires
        0 <= i < orders.len(),
        orders[i].market != market,
    ensures
        orders.filter(not_missing_from(market, live_ids)).contains(orders[i]),
{
    orders.lemma_filter_contains(not_missing_from(market, live_ids), i);
}

} // verus!
