//! What fills, updates and cancellations do to the orders that are followed.

use crate::decimal::{
    lemma_representable_bound, lemma_six_place_product, lemma_twelve_places_add_up, mantissa_bound,
    product, representable, six_places, unit,
};
use crate::keyed::{find, lemma_find, lemma_found, lemma_not_found};
use crate::models::{
    CancelReasonCode, CanonicalMarket, LiveOrder, OrderStatus, Outcome, QuoteLeg, Side,
};
use crate::trading::order_manager::sync::{
    import_of, opposite_token, rests, sync_step, MarketTerms, SyncState,
};
use crate::trading::order_manager::{
    bid_naming_other, buy_capital, cancelled_with_id, capital_fits, due_at, entry_ask_in,
    entry_bid_elsewhere, entry_bid_in, entry_in, entry_on_leg, entry_with_id, fresh_at, leg_of,
    pending_bid_elsewhere, pending_bid_of, pending_of, pending_with_id, CancelledView, EntryView,
    OrdersView, PendingView, RECENTLY_CANCELLED_TTL_MS, TrackedView,
};
use vstd::prelude::*;

verus! {

/// The order at `i` is the only active one of its id.
pub open spec fn only_one(v: OrdersView, i: int, id: Seq<char>) -> bool {
    &&& 0 <= i < v.orders.len()
    &&& v.orders[i].order.order_id == id
    &&& forall|k: int|
        0 <= k < v.orders.len() && k != i ==> (#[trigger] v.orders[k]).order.order_id != id
}

/// After `shares` of the active order at `i` were matched: it has that many fewer to go. With some
/// left it stays where it is; with none it is no longer active but remembered, and its leg is free
/// unless another order is on it.
pub open spec fn takes_shares(
    v: OrdersView,
    w: OrdersView,
    i: int,
    shares: int,
    now: int,
) -> bool {
    let order = v.orders[i].order;
    let left = TrackedView {
        size: order.size - shares,
        matched_size: order.matched_size + shares,
        ..order
    };
    &&& w.gross == v.gross && w.reserve == v.reserve
    &&& left.size > 0 ==> {
        &&& w.orders == v.orders.update(i, EntryView { market: v.orders[i].market, order: left })
        &&& w.legs == v.legs && w.recent == v.recent && w.pending == v.pending
    }
    &&& left.size == 0 ==> {
        &&& w.orders == v.orders.remove(i)
        &&& w.recent.contains(CancelledView { order: left, recorded_at: now })
        &&& forall|k: int|
            0 <= k < w.pending.len() ==> v.pending.contains(#[trigger] w.pending[k])
        &&& v.well_formed() ==> forall|k: int|
            0 <= k < w.pending.len() ==> (#[trigger] w.pending[k]).order.order_id
                != order.order_id
        &&& forall|m: Seq<char>, leg: QuoteLeg|
            #![trigger w.legs.contains((m, leg))]
            (m != order.condition_id || leg != order.leg) ==> w.legs.contains((m, leg))
                == v.legs.contains((m, leg))
        &&& w.legs.contains((order.condition_id, order.leg)) ==> exists|k: int|
            0 <= k < w.orders.len() && (#[trigger] w.orders[k]).market == order.condition_id
                && w.orders[k].order.leg == order.leg
    }
}

proof fn lemma_only_one(v: OrdersView, i: int, id: Seq<char>)
    requires
        only_one(v, i, id),
    ensures
        find(v.orders, entry_with_id(id)) == Some(i),
        v.active(id) == Some(v.orders[i].order),
        v.known(id) == Some(v.orders[i].order),
{
    lemma_found(v.orders, entry_with_id(id), i);
}

/// Recording an order as cancelled remembers it and frees its leg, unless one is on it.
proof fn lemma_cancelled(v: OrdersView, order: TrackedView, now: int)
    ensures
        ({
            let w = v.cancelled(order, now);
            &&& w.orders == v.orders && w.pending == v.pending
            &&& w.gross == v.gross && w.reserve == v.reserve
            &&& w.recent.contains(CancelledView { order, recorded_at: now })
            &&& forall|m: Seq<char>, leg: QuoteLeg|
                #![trigger w.legs.contains((m, leg))]
                (m != order.condition_id || leg != order.leg) ==> w.legs.contains((m, leg))
                    == v.legs.contains((m, leg))
            &&& w.legs.contains((order.condition_id, order.leg)) ==> exists|k: int|
                0 <= k < v.orders.len() && (#[trigger] v.orders[k]).market == order.condition_id
                    && v.orders[k].order.leg == order.leg
        }),
{
    let w = v.cancelled(order, now);
    let item = CancelledView { order, recorded_at: now };
    lemma_find(v.recent, cancelled_with_id(order.order_id));
    match find(v.recent, cancelled_with_id(order.order_id)) {
        Some(i) => {
            assert(w.recent[i] == item);
        },
        None => {
            assert(w.recent[v.recent.len() as int] == item);
        },
    }
    lemma_find(v.orders, entry_on_leg(order.condition_id, order.leg));
}

proof fn lemma_pending_gone(v: OrdersView, id: Seq<char>)
    ensures
        ({
            let w = v.without_pending(id);
            &&& forall|k: int|
                0 <= k < w.pending.len() ==> v.pending.contains(#[trigger] w.pending[k])
            &&& v.well_formed() ==> forall|k: int|
                0 <= k < w.pending.len() ==> (#[trigger] w.pending[k]).order.order_id != id
            &&& forall|k: int|
                0 <= k < v.pending.len() && (#[trigger] v.pending[k]).order.order_id != id
                    ==> w.pending.contains(v.pending[k])
        }),
{
    let w = v.without_pending(id);
    lemma_find(v.pending, pending_with_id(id));
    match find(v.pending, pending_with_id(id)) {
        Some(i) => {
            assert forall|k: int| 0 <= k < w.pending.len() implies v.pending.contains(
                #[trigger] w.pending[k],
            ) && (v.well_formed() ==> w.pending[k].order.order_id != id) by {
                let at = if k < i {
                    k
                } else {
                    k + 1
                };
                assert(w.pending[k] == v.pending[at]);
                assert(v.pending[i].order.order_id == id);
            }
            assert forall|k: int|
                0 <= k < v.pending.len() && (#[trigger] v.pending[k]).order.order_id
                    != id implies w.pending.contains(v.pending[k]) by {
                let at = if k < i {
                    k
                } else {
                    k - 1
                };
                assert(w.pending[at] == v.pending[k]);
            }
        },
        None => {
            assert forall|k: int| 0 <= k < v.pending.len() implies (
            #[trigger] v.pending[k]).order.order_id != id by {
                assert(!pending_with_id(id)(v.pending[k]));
            }
        },
    }
}

proof fn lemma_matched(v: OrdersView, i: int, shares: int, now: int)
    requires
        only_one(v, i, v.orders[i].order.order_id),
        0 < shares <= v.orders[i].order.size,
        representable(v.orders[i].order.size - shares),
        representable(v.orders[i].order.matched_size + shares),
    ensures
        takes_shares(v, v.with_match(v.orders[i].order.order_id, shares, now), i, shares, now),
{
    let order = v.orders[i].order;
    let id = order.order_id;
    lemma_only_one(v, i, id);
    lemma_pending_gone(v.without_active(id), id);
    let left = TrackedView {
        size: order.size - shares,
        matched_size: order.matched_size + shares,
        ..order
    };
    lemma_cancelled(v.without_active(id).without_pending(id), left, now);
}

/// A fill of an active order matches its shares, up to those the order has left, and says so.
pub proof fn law_fills_take_shares(v: OrdersView, i: int, fill: int, now: int)
    requires
        only_one(v, i, v.orders[i].order.order_id),
        fill > 0,
        v.orders[i].order.size > 0,
        representable(v.orders[i].order.size - fill) && representable(0),
        representable(v.orders[i].order.matched_size + fill),
        representable(v.orders[i].order.matched_size + v.orders[i].order.size),
    ensures
        ({
            let order = v.orders[i].order;
            let w = v.filled(order.order_id, fill, now);
            let told = v.fill_report(order.order_id, fill);
            &&& fill < order.size ==> takes_shares(v, w, i, fill, now)
            &&& fill >= order.size ==> takes_shares(v, w, i, order.size, now)
            &&& told is Some && told->0.before == order
            &&& fill < order.size ==> told->0.newly_matched == fill && told->0.after == Some(
                w.orders[i].order,
            )
            &&& fill >= order.size ==> told->0.newly_matched == order.size && told->0.after is None
            &&& v.fill_fits(order.order_id, fill)
        }),
{
    lemma_representable_bound(v.orders[i].order.matched_size + fill);
    lemma_representable_bound(v.orders[i].order.matched_size + v.orders[i].order.size);
    let order = v.orders[i].order;
    lemma_only_one(v, i, order.order_id);
    lemma_matched(
        v,
        i,
        if fill < order.size {
            fill
        } else {
            order.size
        },
        now,
    );
}

/// An update on an active order matches what it counts beyond the shares known to be matched, up to
/// those the order has left; one that counts no more than those changes nothing.
pub proof fn law_updates_take_what_is_new(v: OrdersView, i: int, cumulative: int, now: int)
    requires
        only_one(v, i, v.orders[i].order.order_id),
        cumulative >= 0,
        v.orders[i].order.size > 0,
        representable(cumulative) && representable(0),
        representable(cumulative - v.orders[i].order.matched_size),
        representable(
            v.orders[i].order.size - (cumulative - v.orders[i].order.matched_size),
        ),
        representable(v.orders[i].order.matched_size + v.orders[i].order.size),
    ensures
        ({
            let order = v.orders[i].order;
            let more = cumulative - order.matched_size;
            let w = v.updated(order.order_id, cumulative, now);
            let told = v.update_report(order.order_id, cumulative);
            &&& told is Some && told->0.before == order
            &&& more <= 0 ==> w == v && told->0.newly_matched == 0 && told->0.after == Some(order)
            &&& 0 < more < order.size ==> takes_shares(v, w, i, more, now)
                && told->0.newly_matched == more && told->0.after == Some(w.orders[i].order)
            &&& more >= order.size ==> takes_shares(v, w, i, order.size, now)
                && told->0.newly_matched == order.size && told->0.after is None
            &&& v.update_fits(order.order_id, cumulative)
        }),
{
    lemma_representable_bound(cumulative);
    lemma_representable_bound(cumulative - v.orders[i].order.matched_size);
    lemma_representable_bound(v.orders[i].order.matched_size + v.orders[i].order.size);
    let order = v.orders[i].order;
    let more = cumulative - order.matched_size;
    lemma_only_one(v, i, order.order_id);
    if more > 0 {
        lemma_matched(
            v,
            i,
            if more < order.size {
                more
            } else {
                order.size
            },
            now,
        );
    }
}

/// A fill or an update of an order that was cancelled a short time ago, and is active no longer, matches
/// its shares all the same, up to those that it had left. It is remembered anew from then on, and
/// nothing else changes.
pub proof fn law_remembered_orders_are_matched_too(
    v: OrdersView,
    i: int,
    id: Seq<char>,
    fill: int,
    cumulative: int,
    now: int,
)
    requires
        forall|k: int| 0 <= k < v.orders.len() ==> (#[trigger] v.orders[k]).order.order_id != id,
        0 <= i < v.recent.len() && v.recent[i].order.order_id == id,
        forall|k: int| 0 <= k < i ==> (#[trigger] v.recent[k]).order.order_id != id,
        0 < fill <= v.recent[i].order.size,
        cumulative == v.recent[i].order.matched_size + fill,
        cumulative >= 0,
        representable(fill) && representable(cumulative),
        representable(v.recent[i].order.size - fill),
    ensures
        ({
            let order = v.recent[i].order;
            let left = TrackedView {
                size: order.size - fill,
                matched_size: order.matched_size + fill,
                ..order
            };
            let w = v.filled(id, fill, now);
            let told = v.fill_report(id, fill);
            &&& w == (OrdersView {
                recent: v.recent.update(i, CancelledView { order: left, recorded_at: now }),
                ..v
            })
            &&& v.updated(id, cumulative, now) == w
            &&& told is Some && told->0.before == order && told->0.newly_matched == fill
                && told->0.after == Some(left)
            &&& v.update_report(id, cumulative) == told
        }),
{
    lemma_not_found(v.orders, entry_with_id(id));
    lemma_found(v.recent, cancelled_with_id(id), i);
}

/// Nothing is known of an order that is neither active nor remembered: a fill or an update of it changes
/// nothing and is not reported. Nor does a fill of no shares.
pub proof fn law_unknown_orders_are_not_matched(
    v: OrdersView,
    id: Seq<char>,
    fill: int,
    now: int,
)
    requires
        fill <= 0 || (forall|k: int|
            0 <= k < v.orders.len() ==> (#[trigger] v.orders[k]).order.order_id != id) && (forall|
            k: int,
        |
            0 <= k < v.recent.len() ==> (#[trigger] v.recent[k]).order.order_id != id),
    ensures
        v.filled(id, fill, now) == v,
        v.fill_report(id, fill) is None,
        fill > 0 ==> v.updated(id, fill, now) == v && v.update_report(id, fill) is None,
{
    if fill > 0 {
        lemma_not_found(v.orders, entry_with_id(id));
        lemma_not_found(v.recent, cancelled_with_id(id));
    }
}

/// An order that is cancelled or taken away is active no longer and does not wait for its
/// cancellation. A cancelled one is remembered as it was. Its leg is free unless another order is on
/// it, and every other order stays.
pub proof fn law_cancelled_orders_leave(v: OrdersView, i: int, now: int)
    requires
        v.well_formed(),
        only_one(v, i, v.orders[i].order.order_id),
    ensures
        ({
            let order = v.orders[i].order;
            let id = order.order_id;
            let a = v.cancel_confirmed(order, now);
            let b = v.moved_to_recent(id, now);
            let c = v.removed(id);
            &&& a == b
            &&& a.orders == v.orders.remove(i) && c.orders == v.orders.remove(i)
            &&& a.recent.contains(CancelledView { order, recorded_at: now })
            &&& c.recent == v.recent
            &&& forall|k: int|
                0 <= k < a.pending.len() ==> (#[trigger] a.pending[k]).order.order_id != id
            &&& c.pending == a.pending
            &&& c.legs == a.legs
            &&& forall|m: Seq<char>, leg: QuoteLeg|
                #![trigger a.legs.contains((m, leg))]
                (m != order.condition_id || leg != order.leg) ==> a.legs.contains((m, leg))
                    == v.legs.contains((m, leg))
            &&& a.legs.contains((order.condition_id, order.leg)) ==> exists|k: int|
                0 <= k < a.orders.len() && (#[trigger] a.orders[k]).market == order.condition_id
                    && a.orders[k].order.leg == order.leg
        }),
{
    let order = v.orders[i].order;
    let id = order.order_id;
    lemma_only_one(v, i, id);
    lemma_pending_gone(v, id);
    let w = v.without_active(id).without_pending(id);
    lemma_cancelled(w, order, now);
    assert(v.without_pending(id).without_active(id) == w);
}

/// Each attempt at a cancellation that is not confirmed is counted, keeps the time of the first, and
/// leaves the order active and its leg taken.
pub proof fn law_attempts_are_counted(
    v: OrdersView,
    order: TrackedView,
    reason_code: CancelReasonCode,
    origin: Seq<char>,
    first: int,
    second: int,
)
    requires
        v.well_formed(),
        forall|k: int|
            0 <= k < v.pending.len() ==> (#[trigger] v.pending[k]).order.order_id
                != order.order_id,
    ensures
        ({
            let a = v.cancel_pending(order, reason_code, origin, first);
            let b = a.cancel_pending(order, reason_code, origin, second);
            let item = b.pending[v.pending.len() as int];
            &&& a.pending.len() == v.pending.len() + 1 && b.pending.len() == v.pending.len() + 1
            &&& a.pending[v.pending.len() as int].attempts == 1
            &&& item.attempts == 2
            &&& item.order == order && item.reason_code == reason_code && item.origin == origin
            &&& item.first_attempted_at == first && item.last_attempted_at == second
            &&& forall|k: int|
                0 <= k < v.pending.len() ==> #[trigger] b.pending[k] == v.pending[k]
            &&& b.orders == v.orders && b.legs == v.legs && b.recent == v.recent
        }),
{
    let p = pending_with_id(order.order_id);
    lemma_not_found(v.pending, p);
    let a = v.cancel_pending(order, reason_code, origin, first);
    lemma_found(a.pending, p, v.pending.len() as int);
}

/// Which orders and cancellations a market, its bids, its asks and the other markets' bids are: by
/// where an order is filed and the leg it is on.
pub proof fn law_orders_are_chosen_by_market_and_leg(
    market: Seq<char>,
    leg: QuoteLeg,
    e: EntryView,
    p: PendingView,
)
    ensures
        ({
            let bid = e.order.leg == QuoteLeg::YesBid || e.order.leg == QuoteLeg::NoBid;
            let ask = e.order.leg == QuoteLeg::YesAsk || e.order.leg == QuoteLeg::NoAsk;
            let pending_bid = p.order.leg == QuoteLeg::YesBid || p.order.leg == QuoteLeg::NoBid;
            &&& entry_in(market)(e) == (entry_bid_in(market)(e) || entry_ask_in(market)(e))
            &&& entry_in(market)(e) == (e.market == market)
            &&& entry_bid_in(market)(e) == (e.market == market && bid)
            &&& entry_ask_in(market)(e) == (e.market == market && ask)
            &&& entry_bid_elsewhere(market)(e) == (e.market != market && bid)
            &&& bid_naming_other(market)(e) == (e.order.condition_id != market && bid)
            &&& entry_on_leg(market, leg)(e) == (e.market == market && e.order.leg == leg)
            &&& pending_of(market)(p) == (p.order.condition_id == market)
            &&& pending_bid_of(market)(p) == (p.order.condition_id == market && pending_bid)
            &&& pending_bid_elsewhere(market)(p) == (p.order.condition_id != market && pending_bid)
        }),
{
}

/// A cancelled order is remembered for half a minute, and a cancellation tried again after two
/// seconds.
pub proof fn law_cancellations_age(c: CancelledView, p: PendingView, now: int)
    ensures
        fresh_at(now, RECENTLY_CANCELLED_TTL_MS as int)(c) == (now < c.recorded_at + 30_000),
        due_at(now)(p) == (now >= p.last_attempted_at + 2_000),
{
}

/// Price times shares of every bid, in square units.
pub open spec fn bid_costs(s: Seq<EntryView>) -> int
    decreases s.len(),
{
    if s.len() == 0 {
        0
    } else {
        bid_costs(s.drop_last()) + if s.last().order.side == Side::Buy {
            s.last().order.price * s.last().order.size
        } else {
            0
        }
    }
}

/// Price and shares of up to six places, none below zero.
pub open spec fn plain_order(o: TrackedView) -> bool {
    six_places(o.price) && six_places(o.size)
}

proof fn lemma_bid_costs(s: Seq<EntryView>)
    requires
        forall|i: int| 0 <= i < s.len() ==> plain_order((#[trigger] s[i]).order),
        bid_costs(s) < mantissa_bound() * 10_000_000_000_000_000 * unit(),
    ensures
        buy_capital(s) * unit() == bid_costs(s),
        capital_fits(s),
        buy_capital(s) >= 0,
        buy_capital(s) % 10_000_000_000_000_000 == 0,
    decreases s.len(),
{
    if s.len() > 0 {
        let rest = s.drop_last();
        let o = s[s.len() - 1].order;
        assert(plain_order(o));
        assert forall|i: int| 0 <= i < rest.len() implies plain_order((#[trigger] rest[i]).order) by {
            assert(rest[i] == s[i]);
        }
        assert(o.price * o.size >= 0) by (nonlinear_arith)
            requires
                o.price >= 0,
                o.size >= 0,
        ;
        lemma_bid_costs(rest);
        if o.side == Side::Buy {
            lemma_bid_costs_positive(rest);
            lemma_six_place_product(o.price, o.size);
            assert((buy_capital(rest) + product(o.price, o.size)) * unit() == bid_costs(s));
            lemma_twelve_places_add_up(buy_capital(rest), product(o.price, o.size));
        }
    }
}

proof fn lemma_bid_costs_positive(s: Seq<EntryView>)
    requires
        forall|i: int| 0 <= i < s.len() ==> plain_order((#[trigger] s[i]).order),
    ensures
        bid_costs(s) >= 0,
    decreases s.len(),
{
    if s.len() > 0 {
        let rest = s.drop_last();
        let o = s[s.len() - 1].order;
        assert(plain_order(o));
        assert forall|i: int| 0 <= i < rest.len() implies plain_order((#[trigger] rest[i]).order) by {
            assert(rest[i] == s[i]);
        }
        lemma_bid_costs_positive(rest);
        assert(o.price * o.size >= 0) by (nonlinear_arith)
            requires
                o.price >= 0,
                o.size >= 0,
        ;
    }
}

/// The capital that orders lock in is the price times the shares of the bids, and nothing of the
/// asks: exactly, for numbers of up to six places.
pub proof fn law_bids_lock_in_their_cost(s: Seq<EntryView>)
    requires
        forall|i: int| 0 <= i < s.len() ==> plain_order((#[trigger] s[i]).order),
        bid_costs(s) < mantissa_bound() * 10_000_000_000_000_000 * unit(),
    ensures
        buy_capital(s) * unit() == bid_costs(s),
        capital_fits(s),
{
    lemma_bid_costs(s);
}

/// An order that the exchange reports rests where it is live and not all of it is matched. It is taken
/// up as reported, with what is not matched yet as its size, on the leg of its outcome and side.
pub proof fn law_reported_orders_are_taken_up(
    o: LiveOrder,
    terms: MarketTerms,
    trace_id: Seq<char>,
    market: CanonicalMarket,
)
    requires
        representable(o.original_size@ - o.size_matched@),
    ensures
        ({
            let t = import_of(o, terms, trace_id);
            let yes = t.leg == QuoteLeg::YesBid || t.leg == QuoteLeg::YesAsk;
            let bid = t.leg == QuoteLeg::YesBid || t.leg == QuoteLeg::NoBid;
            &&& rests(o) == (o.status == OrderStatus::Live && o.size_matched@ < o.original_size@)
            &&& t.size + t.matched_size == o.original_size@ && t.matched_size == o.size_matched@
            &&& t.price == o.price@ && t.side == o.side
            &&& t.order_id == o.id@ && t.condition_id == o.condition_id@ && t.token_id
                == o.asset_id@
            &&& yes == (o.outcome == Outcome::Yes)
            &&& bid == (o.side == Side::Buy)
            &&& t.leg == leg_of(o.outcome, o.side)
            &&& market.yes_token_id@ != market.no_token_id@ ==> {
                &&& o.asset_id@ == market.yes_token_id@ ==> opposite_token(o.asset_id@, market)
                    == market.no_token_id@
                &&& o.asset_id@ == market.no_token_id@ ==> opposite_token(o.asset_id@, market)
                    == market.yes_token_id@
            }
        }),
{
}

/// A resting order that is followed takes the reported price, size and matched shares where the last
/// two have changed, and nothing else; one that is not followed is added. It is counted as live and as
/// one of updated, unchanged and added, and its leg is taken.
pub proof fn law_sync_follows_the_report(
    st: SyncState,
    o: LiveOrder,
    at: Option<int>,
    market: Seq<char>,
    order: TrackedView,
)
    requires
        at matches Some(i) ==> 0 <= i < st.orders.len(),
    ensures
        ({
            let w = sync_step(st, o, at, market, order);
            &&& w.live == st.live + 1
            &&& w.updated + w.already + w.imported == st.updated + st.already + st.imported + 1
            &&& w.ids == st.ids.push(o.id@)
            &&& w.legs == st.legs.insert((market, order.leg))
            &&& (w.imported == st.imported + 1) == (at is None)
            &&& at is None ==> w.orders == st.orders.push(EntryView { market, order })
                && w.updated == st.updated && w.already == st.already
            &&& at matches Some(i) ==> {
                let e = st.orders[i];
                let moved = e.order.size != order.size || e.order.matched_size
                    != order.matched_size;
                &&& w.orders.len() == st.orders.len()
                &&& forall|k: int|
                    0 <= k < st.orders.len() && k != i ==> #[trigger] w.orders[k] == st.orders[k]
                &&& w.orders[i].order.size == order.size && w.orders[i].order.matched_size
                    == order.matched_size
                &&& moved ==> w.orders[i].order.price == order.price && w.updated == st.updated + 1
                &&& !moved ==> w.orders[i] == e && w.already == st.already + 1
                &&& w.orders[i].market == e.market && w.orders[i].order.order_id
                    == e.order.order_id && w.orders[i].order.leg == e.order.leg
                    && w.orders[i].order.side == e.order.side && w.orders[i].order.trace_id
                    == e.order.trace_id
            }
            &&& o.side == Side::Buy ==> w.bids.len() == st.bids.len() + 1 && w.bids.last().id
                == o.id@ && w.bids.last().condition_id == o.condition_id@
            &&& o.side == Side::Sell ==> w.bids == st.bids
        }),
{
}

} // verus!
