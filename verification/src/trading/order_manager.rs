//! The resting orders across all markets, and what happens to them.

use crate::decimal::{
    difference, difference_fits, lemma_inv_representable, lemma_whole, max_of, min_of, product,
    product_fits, sum, sum_fits, Decimal,
};
use crate::keyed::{find, lemma_find, lemma_found, lemma_not_found};
use crate::models::{CancelReasonCode, LiveOrder, Outcome, QuoteLeg, Side};
use crate::text::{
    contains_text, lemma_text_le_total, lemma_text_le_transitive, same_text, sorted_texts, text_le,
    text_not_after, texts, texts_sorted,
};
use crate::time::Timestamp;
use crate::trading::client::CancelOrderOutcome;
use vstd::pervasive::unreached;
use vstd::prelude::*;

pub mod laws;
pub mod matching;
pub mod placement;
pub mod sync;

verus! {

/// Milliseconds that pass before an unconfirmed cancellation is tried again.
pub const PENDING_CANCEL_RETRY_BACKOFF_MS: u64 = 2_000;

/// Milliseconds for which a cancelled order can still be matched with a late fill.
pub const RECENTLY_CANCELLED_TTL_MS: u64 = 30_000;

/// A resting order placed and tracked by us.
#[derive(Debug)]
pub struct TrackedOrder {
    pub order_id: String,
    pub trace_id: String,
    pub condition_id: String,
    /// Seconds since the epoch.
    pub created_at: Timestamp,
    pub leg: QuoteLeg,
    pub token_id: String,
    /// The opposite outcome's token ID (needed for hedging when market metadata is unavailable).
    pub opposite_token_id: String,
    pub side: Side,
    pub price: Decimal,
    pub size: Decimal,
    pub matched_size: Decimal,
    pub neg_risk: bool,
    pub tick_size: String,
}

/// A tracked order as plain texts and values.
pub struct TrackedView {
    pub order_id: Seq<char>,
    pub trace_id: Seq<char>,
    pub condition_id: Seq<char>,
    pub created_at: Timestamp,
    pub leg: QuoteLeg,
    pub token_id: Seq<char>,
    pub opposite_token_id: Seq<char>,
    pub side: Side,
    pub price: int,
    pub size: int,
    pub matched_size: int,
    pub neg_risk: bool,
    pub tick_size: Seq<char>,
}

impl View for TrackedOrder {
    type V = TrackedView;

    open spec fn view(&self) -> TrackedView {
        TrackedView {
            order_id: self.order_id@,
            trace_id: self.trace_id@,
            condition_id: self.condition_id@,
            created_at: self.created_at,
            leg: self.leg,
            token_id: self.token_id@,
            opposite_token_id: self.opposite_token_id@,
            side: self.side,
            price: self.price@,
            size: self.size@,
            matched_size: self.matched_size@,
            neg_risk: self.neg_risk,
            tick_size: self.tick_size@,
        }
    }
}

impl Clone for TrackedOrder {
    fn clone(&self) -> (r: TrackedOrder)
        ensures
            r == *self,
    {
        TrackedOrder {
            order_id: self.order_id.clone(),
            trace_id: self.trace_id.clone(),
            condition_id: self.condition_id.clone(),
            created_at: self.created_at,
            leg: self.leg,
            token_id: self.token_id.clone(),
            opposite_token_id: self.opposite_token_id.clone(),
            side: self.side,
            price: self.price,
            size: self.size,
            matched_size: self.matched_size,
            neg_risk: self.neg_risk,
            tick_size: self.tick_size.clone(),
        }
    }
}

/// An order with the market that it is filed under.
#[derive(Debug)]
pub struct MarketOrder {
    pub market: String,
    pub order: TrackedOrder,
}

pub struct EntryView {
    pub market: Seq<char>,
    pub order: TrackedView,
}

impl View for MarketOrder {
    type V = EntryView;

    open spec fn view(&self) -> EntryView {
        EntryView { market: self.market@, order: self.order@ }
    }
}

/// A cancelled order, with the time at which it was recorded.
#[derive(Debug)]
pub struct CancelledOrder {
    pub order: TrackedOrder,
    pub recorded_at: u64,
}

pub struct CancelledView {
    pub order: TrackedView,
    pub recorded_at: int,
}

impl View for CancelledOrder {
    type V = CancelledView;

    open spec fn view(&self) -> CancelledView {
        CancelledView { order: self.order@, recorded_at: self.recorded_at as int }
    }
}

/// An order whose cancellation has not been confirmed.
#[derive(Debug)]
pub struct PendingCancelRetry {
    pub order: TrackedOrder,
    pub reason_code: CancelReasonCode,
    pub origin: String,
    pub first_attempted_at: u64,
    pub last_attempted_at: u64,
    pub attempts: u32,
}

pub struct PendingView {
    pub order: TrackedView,
    pub reason_code: CancelReasonCode,
    pub origin: Seq<char>,
    pub first_attempted_at: int,
    pub last_attempted_at: int,
    pub attempts: int,
}

impl View for PendingCancelRetry {
    type V = PendingView;

    open spec fn view(&self) -> PendingView {
        PendingView {
            order: self.order@,
            reason_code: self.reason_code,
            origin: self.origin@,
            first_attempted_at: self.first_attempted_at as int,
            last_attempted_at: self.last_attempted_at as int,
            attempts: self.attempts as int,
        }
    }
}

impl Clone for PendingCancelRetry {
    fn clone(&self) -> (r: PendingCancelRetry)
        ensures
            r == *self,
    {
        PendingCancelRetry {
            order: self.order.clone(),
            reason_code: self.reason_code,
            origin: self.origin.clone(),
            first_attempted_at: self.first_attempted_at,
            last_attempted_at: self.last_attempted_at,
            attempts: self.attempts,
        }
    }
}

pub open spec fn entry_with_id(id: Seq<char>) -> spec_fn(EntryView) -> bool {
    |e: EntryView| e.order.order_id == id
}

pub open spec fn entry_at(market: Seq<char>, id: Seq<char>) -> spec_fn(EntryView) -> bool {
    |e: EntryView| e.market == market && e.order.order_id == id
}

pub open spec fn entry_on_leg(market: Seq<char>, leg: QuoteLeg) -> spec_fn(EntryView) -> bool {
    |e: EntryView| e.market == market && e.order.leg == leg
}

pub open spec fn entry_in(market: Seq<char>) -> spec_fn(EntryView) -> bool {
    |e: EntryView| e.market == market
}

pub open spec fn cancelled_with_id(id: Seq<char>) -> spec_fn(CancelledView) -> bool {
    |c: CancelledView| c.order.order_id == id
}

pub open spec fn pending_with_id(id: Seq<char>) -> spec_fn(PendingView) -> bool {
    |p: PendingView| p.order.order_id == id
}

/// All that is known of the resting orders.
pub struct OrdersView {
    /// Active orders. No market holds an order id twice.
    pub orders: Seq<EntryView>,
    /// Market and leg of the orders believed to rest on the exchange.
    pub legs: Set<(Seq<char>, QuoteLeg)>,
    /// Orders cancelled a short time ago, by order id.
    pub recent: Seq<CancelledView>,
    /// Orders with unverified or rejected cancel attempts, by order id.
    pub pending: Seq<PendingView>,
    /// USDC balance, collateral of resting orders included.
    pub gross: int,
    /// USDC amount to always keep in the account (never used for orders).
    pub reserve: int,
}

impl OrdersView {
    pub open spec fn well_formed(self) -> bool {
        &&& forall|i: int, j: int|
            0 <= i < j < self.orders.len() ==> (#[trigger] self.orders[i]).market != (
            #[trigger] self.orders[j]).market || self.orders[i].order.order_id
                != self.orders[j].order.order_id
        &&& forall|i: int, j: int|
            0 <= i < j < self.recent.len() ==> (#[trigger] self.recent[i]).order.order_id != (
            #[trigger] self.recent[j]).order.order_id
        &&& forall|i: int, j: int|
            0 <= i < j < self.pending.len() ==> (#[trigger] self.pending[i]).order.order_id != (
            #[trigger] self.pending[j]).order.order_id
    }

    /// `order` recorded as cancelled at `now`.
    pub open spec fn with_recent(self, order: TrackedView, now: int) -> OrdersView {
        let item = CancelledView { order, recorded_at: now };
        OrdersView {
            recent: match find(self.recent, cancelled_with_id(order.order_id)) {
                Some(i) => self.recent.update(i, item),
                None => self.recent.push(item),
            },
            ..self
        }
    }

    /// Without the reservation of a leg, unless an active order is on it.
    pub open spec fn leg_forgotten(self, market: Seq<char>, leg: QuoteLeg) -> OrdersView {
        if find(self.orders, entry_on_leg(market, leg)) is Some {
            self
        } else {
            OrdersView { legs: self.legs.remove((market, leg)), ..self }
        }
    }

    /// `order` recorded as cancelled, its leg free again unless another order is on it.
    pub open spec fn cancelled(self, order: TrackedView, now: int) -> OrdersView {
        self.with_recent(order, now).leg_forgotten(order.condition_id, order.leg)
    }

    /// Without a pending cancellation of `id`.
    pub open spec fn without_pending(self, id: Seq<char>) -> OrdersView {
        OrdersView {
            pending: match find(self.pending, pending_with_id(id)) {
                Some(i) => self.pending.remove(i),
                None => self.pending,
            },
            ..self
        }
    }

    /// The active order of that id.
    pub open spec fn active(self, id: Seq<char>) -> Option<TrackedView> {
        match find(self.orders, entry_with_id(id)) {
            Some(i) => Some(self.orders[i].order),
            None => None,
        }
    }

    /// Without the active order of that id.
    pub open spec fn without_active(self, id: Seq<char>) -> OrdersView {
        OrdersView {
            orders: match find(self.orders, entry_with_id(id)) {
                Some(i) => self.orders.remove(i),
                None => self.orders,
            },
            ..self
        }
    }

    /// With an active order filed under `market`, in place of one with the same id.
    pub open spec fn with_order(self, market: Seq<char>, order: TrackedView) -> OrdersView {
        let item = EntryView { market, order };
        OrdersView {
            orders: match find(self.orders, entry_at(market, order.order_id)) {
                Some(i) => self.orders.update(i, item),
                None => self.orders.push(item),
            },
            ..self
        }
    }

    pub open spec fn with_leg(self, market: Seq<char>, leg: QuoteLeg) -> OrdersView {
        OrdersView { legs: self.legs.insert((market, leg)), ..self }
    }

    /// The cancellation of `order` attempted once more, without confirmation.
    pub open spec fn cancel_pending(
        self,
        order: TrackedView,
        reason_code: CancelReasonCode,
        origin: Seq<char>,
        now: int,
    ) -> OrdersView {
        OrdersView {
            pending: match find(self.pending, pending_with_id(order.order_id)) {
                Some(i) => self.pending.update(
                    i,
                    PendingView {
                        order,
                        reason_code,
                        origin,
                        last_attempted_at: now,
                        attempts: self.pending[i].attempts + 1,
                        ..self.pending[i]
                    },
                ),
                None => self.pending.push(
                    PendingView {
                        order,
                        reason_code,
                        origin,
                        first_attempted_at: now,
                        last_attempted_at: now,
                        attempts: 1,
                    },
                ),
            },
            ..self
        }
    }

    /// The attempts at cancelling `id` can still be counted.
    pub open spec fn can_retry(self, id: Seq<char>) -> bool {
        match find(self.pending, pending_with_id(id)) {
            Some(i) => self.pending[i].attempts < u32::MAX,
            None => true,
        }
    }

    /// The cancellation of `order` confirmed.
    pub open spec fn cancel_confirmed(self, order: TrackedView, now: int) -> OrdersView {
        let gone = match self.active(order.order_id) {
            Some(active) => active,
            None => order,
        };
        self.without_pending(order.order_id).without_active(order.order_id).cancelled(gone, now)
    }
}

/// The resting orders across all markets.
pub struct OrderManager {
    orders: Vec<MarketOrder>,
    gross_balance: Decimal,
    exchange_legs: Vec<(String, QuoteLeg)>,
    recently_cancelled: Vec<CancelledOrder>,
    pending_cancel_retries: Vec<PendingCancelRetry>,
    cash_reserve: Decimal,
}

pub open spec fn entries(v: Seq<MarketOrder>) -> Seq<EntryView> {
    v.map_values(|e: MarketOrder| e@)
}

pub open spec fn cancellations(v: Seq<CancelledOrder>) -> Seq<CancelledView> {
    v.map_values(|c: CancelledOrder| c@)
}

pub open spec fn retries(v: Seq<PendingCancelRetry>) -> Seq<PendingView> {
    v.map_values(|p: PendingCancelRetry| p@)
}

pub open spec fn leg_pairs(v: Seq<(String, QuoteLeg)>) -> Seq<(Seq<char>, QuoteLeg)> {
    v.map_values(|p: (String, QuoteLeg)| (p.0@, p.1))
}

impl View for OrderManager {
    type V = OrdersView;

    closed spec fn view(&self) -> OrdersView {
        OrdersView {
            orders: entries(self.orders@),
            legs: leg_pairs(self.exchange_legs@).to_set(),
            recent: cancellations(self.recently_cancelled@),
            pending: retries(self.pending_cancel_retries@),
            gross: self.gross_balance@,
            reserve: self.cash_reserve@,
        }
    }
}

impl OrderManager {
    pub fn new(gross_balance: Decimal, cash_reserve: Decimal) -> (r: OrderManager)
        ensures
            r@.well_formed(),
            r@ == (OrdersView {
                orders: Seq::empty(),
                legs: Set::empty(),
                recent: Seq::empty(),
                pending: Seq::empty(),
                gross: gross_balance@,
                reserve: cash_reserve@,
            }),
    {
        let r = OrderManager {
            orders: Vec::new(),
            gross_balance,
            exchange_legs: Vec::new(),
            recently_cancelled: Vec::new(),
            pending_cancel_retries: Vec::new(),
            cash_reserve,
        };
        assert(entries(r.orders@) =~= Seq::empty());
        assert(cancellations(r.recently_cancelled@) =~= Seq::empty());
        assert(retries(r.pending_cancel_retries@) =~= Seq::empty());
        assert(leg_pairs(r.exchange_legs@).to_set() =~= Set::empty());
        r
    }

    fn find_active(&self, order_id: &str) -> (r: Option<usize>)
        ensures
            match r {
                Some(i) => find(self@.orders, entry_with_id(order_id@)) == Some(i as int),
                None => find(self@.orders, entry_with_id(order_id@)) is None,
            },
    {
        let mut i: usize = 0;
        while i < self.orders.len()
            invariant
                i <= self.orders.len(),
                forall|j: int|
                    0 <= j < i ==> (#[trigger] self@.orders[j]).order.order_id != order_id@,
            decreases self.orders.len() - i,
        {
            assert(self@.orders[i as int] == self.orders@[i as int]@);
            if same_text(self.orders[i].order.order_id.as_str(), order_id) {
                proof {
                    lemma_found(self@.orders, entry_with_id(order_id@), i as int);
                }
                return Some(i);
            }
            i = i + 1;
        }
        proof {
            lemma_not_found(self@.orders, entry_with_id(order_id@));
        }
        None
    }

    fn find_filed(&self, market: &str, order_id: &str) -> (r: Option<usize>)
        ensures
            match r {
                Some(i) => find(self@.orders, entry_at(market@, order_id@)) == Some(i as int),
                None => find(self@.orders, entry_at(market@, order_id@)) is None,
            },
    {
        let mut i: usize = 0;
        while i < self.orders.len()
            invariant
                i <= self.orders.len(),
                forall|j: int|
                    0 <= j < i ==> !((#[trigger] self@.orders[j]).market == market@
                        && self@.orders[j].order.order_id == order_id@),
            decreases self.orders.len() - i,
        {
            assert(self@.orders[i as int] == self.orders@[i as int]@);
            if same_text(self.orders[i].market.as_str(), market) && same_text(
                self.orders[i].order.order_id.as_str(),
                order_id,
            ) {
                proof {
                    lemma_found(self@.orders, entry_at(market@, order_id@), i as int);
                }
                return Some(i);
            }
            i = i + 1;
        }
        proof {
            lemma_not_found(self@.orders, entry_at(market@, order_id@));
        }
        None
    }

    fn find_on_leg(&self, market: &str, leg: QuoteLeg) -> (r: Option<usize>)
        ensures
            match r {
                Some(i) => find(self@.orders, entry_on_leg(market@, leg)) == Some(i as int),
                None => find(self@.orders, entry_on_leg(market@, leg)) is None,
            },
    {
        let mut i: usize = 0;
        while i < self.orders.len()
            invariant
                i <= self.orders.len(),
                forall|j: int|
                    0 <= j < i ==> !((#[trigger] self@.orders[j]).market == market@
                        && self@.orders[j].order.leg == leg),
            decreases self.orders.len() - i,
        {
            assert(self@.orders[i as int] == self.orders@[i as int]@);
            if same_text(self.orders[i].market.as_str(), market) && self.orders[i].order.leg
                == leg {
                proof {
                    lemma_found(self@.orders, entry_on_leg(market@, leg), i as int);
                }
                return Some(i);
            }
            i = i + 1;
        }
        proof {
            lemma_not_found(self@.orders, entry_on_leg(market@, leg));
        }
        None
    }

    fn find_cancelled(&self, order_id: &str) -> (r: Option<usize>)
        ensures
            match r {
                Some(i) => find(self@.recent, cancelled_with_id(order_id@)) == Some(i as int),
                None => find(self@.recent, cancelled_with_id(order_id@)) is None,
            },
    {
        let mut i: usize = 0;
        while i < self.recently_cancelled.len()
            invariant
                i <= self.recently_cancelled.len(),
                forall|j: int|
                    0 <= j < i ==> (#[trigger] self@.recent[j]).order.order_id != order_id@,
            decreases self.recently_cancelled.len() - i,
        {
            assert(self@.recent[i as int] == self.recently_cancelled@[i as int]@);
            if same_text(self.recently_cancelled[i].order.order_id.as_str(), order_id) {
                proof {
                    lemma_found(self@.recent, cancelled_with_id(order_id@), i as int);
                }
                return Some(i);
            }
            i = i + 1;
        }
        proof {
            lemma_not_found(self@.recent, cancelled_with_id(order_id@));
        }
        None
    }

    fn find_pending(&self, order_id: &str) -> (r: Option<usize>)
        ensures
            match r {
                Some(i) => find(self@.pending, pending_with_id(order_id@)) == Some(i as int),
                None => find(self@.pending, pending_with_id(order_id@)) is None,
            },
    {
        let mut i: usize = 0;
        while i < self.pending_cancel_retries.len()
            invariant
                i <= self.pending_cancel_retries.len(),
                forall|j: int|
                    0 <= j < i ==> (#[trigger] self@.pending[j]).order.order_id != order_id@,
            decreases self.pending_cancel_retries.len() - i,
        {
            assert(self@.pending[i as int] == self.pending_cancel_retries@[i as int]@);
            if same_text(self.pending_cancel_retries[i].order.order_id.as_str(), order_id) {
                proof {
                    lemma_found(self@.pending, pending_with_id(order_id@), i as int);
                }
                return Some(i);
            }
            i = i + 1;
        }
        proof {
            lemma_not_found(self@.pending, pending_with_id(order_id@));
        }
        None
    }
}

impl OrderManager {
    pub fn has_exchange_live_leg(&self, condition_id: &str, leg: QuoteLeg) -> (r: bool)
        ensures
            r == self@.legs.contains((condition_id@, leg)),
    {
        let ghost pairs = leg_pairs(self.exchange_legs@);
        let mut i: usize = 0;
        while i < self.exchange_legs.len()
            invariant
                i <= self.exchange_legs.len(),
                pairs == leg_pairs(self.exchange_legs@),
                forall|j: int| 0 <= j < i ==> #[trigger] pairs[j] != (condition_id@, leg),
            decreases self.exchange_legs.len() - i,
        {
            assert(pairs[i as int] == (self.exchange_legs@[i as int].0@, self.exchange_legs@[i as int].1));
            if same_text(self.exchange_legs[i].0.as_str(), condition_id) && self.exchange_legs[i].1
                == leg {
                assert(pairs.contains((condition_id@, leg)));
                return true;
            }
            i = i + 1;
        }
        assert(!pairs.contains((condition_id@, leg)));
        false
    }

    fn remember_exchange_leg(&mut self, condition_id: &str, leg: QuoteLeg)
        ensures
            final(self)@ == old(self)@.with_leg(condition_id@, leg),
            old(self)@.well_formed() ==> final(self)@.well_formed(),
    {
        let ghost before = leg_pairs(self.exchange_legs@);
        if self.has_exchange_live_leg(condition_id, leg) {
            assert(self@.legs.insert((condition_id@, leg)) =~= self@.legs);
        } else {
            self.exchange_legs.push((condition_id.to_owned(), leg));
            let ghost after = leg_pairs(self.exchange_legs@);
            assert(after =~= before.push((condition_id@, leg)));
            assert(after.to_set() =~= before.to_set().insert((condition_id@, leg))) by {
                assert(after[before.len() as int] == (condition_id@, leg));
                assert forall|x: (Seq<char>, QuoteLeg)| before.contains(x) implies after.contains(
                    x,
                ) by {
                    let k = choose|k: int| 0 <= k < before.len() && before[k] == x;
                    assert(after[k] == x);
                }
            }
        }
    }

    /// Drops every reservation of the market, or just that of one leg.
    fn drop_exchange_legs(&mut self, condition_id: &str, only: Option<QuoteLeg>)
        ensures
            final(self)@ == (OrdersView {
                legs: old(self)@.legs.filter(
                    |p: (Seq<char>, QuoteLeg)|
                        !(p.0 == condition_id@ && (only is None || only == Some(p.1))),
                ),
                ..old(self)@
            }),
    {
        let ghost before = leg_pairs(self.exchange_legs@);
        let ghost keep = |p: (Seq<char>, QuoteLeg)|
            !(p.0 == condition_id@ && (only is None || only == Some(p.1)));
        let mut kept: Vec<(String, QuoteLeg)> = Vec::new();
        let mut i: usize = 0;
        while i < self.exchange_legs.len()
            invariant
                i <= self.exchange_legs.len(),
                *self == *old(self),
                before == leg_pairs(self.exchange_legs@),
                keep == (|p: (Seq<char>, QuoteLeg)|
                    !(p.0 == condition_id@ && (only is None || only == Some(p.1)))),
                forall|x: (Seq<char>, QuoteLeg)| #[trigger]
                    leg_pairs(kept@).contains(x) <==> before.take(i as int).contains(x) && keep(x),
            decreases self.exchange_legs.len() - i,
        {
            let leg = self.exchange_legs[i].1;
            let drop_it = same_text(self.exchange_legs[i].0.as_str(), condition_id) && match only {
                Some(o) => o == leg,
                None => true,
            };
            let ghost pair = before[i as int];
            let ghost kept_before = leg_pairs(kept@);
            assert(pair == (self.exchange_legs@[i as int].0@, leg));
            assert(drop_it == !keep(pair));
            if !drop_it {
                let name = self.exchange_legs[i].0.clone();
                kept.push((name, leg));
                assert(leg_pairs(kept@) =~= kept_before.push(pair));
            }
            proof {
                let next = before.take(i + 1);
                assert(next =~= before.take(i as int).push(pair));
                assert forall|x: (Seq<char>, QuoteLeg)| #[trigger]
                    leg_pairs(kept@).contains(x) <==> next.contains(x) && keep(x) by {
                    lemma_push_contains(before.take(i as int), pair, x);
                    lemma_push_contains(kept_before, pair, x);
                }
            }
            i = i + 1;
        }
        assert(before.take(i as int) =~= before);
        self.exchange_legs = kept;
        assert(self@.legs =~= old(self)@.legs.filter(keep));
    }

    fn forget_exchange_leg_if_no_active_order(&mut self, condition_id: &str, leg: QuoteLeg)
        ensures
            final(self)@ == old(self)@.leg_forgotten(condition_id@, leg),
            old(self)@.well_formed() ==> final(self)@.well_formed(),
    {
        if self.find_on_leg(condition_id, leg).is_some() {
            return;
        }
        self.drop_exchange_legs(condition_id, Some(leg));
        assert(self@.legs =~= old(self)@.legs.remove((condition_id@, leg)));
    }

    fn record_recently_cancelled(&mut self, order: TrackedOrder, now: u64)
        ensures
            final(self)@ == old(self)@.cancelled(order@, now as int),
            old(self)@.well_formed() ==> final(self)@.well_formed(),
    {
        let condition_id = order.condition_id.clone();
        let leg = order.leg;
        let ghost view = order@;
        let ghost before = self@.recent;
        proof {
            lemma_find(before, cancelled_with_id(view.order_id));
        }
        match self.find_cancelled(order.order_id.as_str()) {
            Some(i) => {
                self.recently_cancelled.set(i, CancelledOrder { order, recorded_at: now });
                assert(self@.recent =~= before.update(
                    i as int,
                    CancelledView { order: view, recorded_at: now as int },
                ));
            },
            None => {
                self.recently_cancelled.push(CancelledOrder { order, recorded_at: now });
                assert(self@.recent =~= before.push(
                    CancelledView { order: view, recorded_at: now as int },
                ));
            },
        }
        assert(self@ == old(self)@.with_recent(view, now as int));
        self.forget_exchange_leg_if_no_active_order(condition_id.as_str(), leg);
    }

    fn remove_active_order_from_tracking(&mut self, order_id: &str) -> (r: Option<TrackedOrder>)
        ensures
            final(self)@ == old(self)@.without_active(order_id@),
            match r {
                Some(order) => old(self)@.active(order_id@) == Some(order@),
                None => old(self)@.active(order_id@) is None,
            },
            old(self)@.well_formed() ==> final(self)@.well_formed(),
    {
        let ghost before = self@.orders;
        proof {
            lemma_find(before, entry_with_id(order_id@));
        }
        match self.find_active(order_id) {
            Some(i) => {
                assert(before[i as int] == self.orders@[i as int]@);
                let entry = self.orders.remove(i);
                assert(self@.orders =~= before.remove(i as int));
                Some(entry.order)
            },
            None => None,
        }
    }

    fn remove_pending(&mut self, order_id: &str)
        ensures
            final(self)@ == old(self)@.without_pending(order_id@),
            old(self)@.well_formed() ==> final(self)@.well_formed(),
    {
        let ghost before = self@.pending;
        proof {
            lemma_find(before, pending_with_id(order_id@));
        }
        match self.find_pending(order_id) {
            Some(i) => {
                self.pending_cancel_retries.remove(i);
                assert(self@.pending =~= before.remove(i as int));
            },
            None => {},
        }
    }

    /// Files an order under a market, in place of one with the same id.
    fn file_order(&mut self, market: &str, order: TrackedOrder)
        ensures
            final(self)@ == old(self)@.with_order(market@, order@),
            old(self)@.well_formed() ==> final(self)@.well_formed(),
    {
        let ghost before = self@.orders;
        let ghost view = order@;
        proof {
            lemma_find(before, entry_at(market@, view.order_id));
        }
        match self.find_filed(market, order.order_id.as_str()) {
            Some(i) => {
                self.orders.set(i, MarketOrder { market: market.to_owned(), order });
                assert(self@.orders =~= before.update(
                    i as int,
                    EntryView { market: market@, order: view },
                ));
            },
            None => {
                self.orders.push(MarketOrder { market: market.to_owned(), order });
                assert(self@.orders =~= before.push(EntryView { market: market@, order: view }));
            },
        }
    }

    fn record_pending_cancel(
        &mut self,
        order: &TrackedOrder,
        reason_code: CancelReasonCode,
        origin: &str,
        now: u64,
    )
        requires
            old(self)@.can_retry(order@.order_id),
        ensures
            final(self)@ == old(self)@.cancel_pending(order@, reason_code, origin@, now as int),
            old(self)@.well_formed() ==> final(self)@.well_formed(),
    {
        let ghost before = self@.pending;
        proof {
            lemma_find(before, pending_with_id(order@.order_id));
        }
        match self.find_pending(order.order_id.as_str()) {
            Some(i) => {
                assert(before[i as int] == self.pending_cancel_retries@[i as int]@);
                let first_attempted_at: u64 = self.pending_cancel_retries[i].first_attempted_at;
                let attempts: u32 = self.pending_cancel_retries[i].attempts + 1;
                let entry = PendingCancelRetry {
                    order: order.clone(),
                    reason_code,
                    origin: origin.to_owned(),
                    first_attempted_at,
                    last_attempted_at: now,
                    attempts,
                };
                let ghost item = entry@;
                self.pending_cancel_retries.set(i, entry);
                assert(self@.pending =~= before.update(i as int, item));
            },
            None => {
                let entry = PendingCancelRetry {
                    order: order.clone(),
                    reason_code,
                    origin: origin.to_owned(),
                    first_attempted_at: now,
                    last_attempted_at: now,
                    attempts: 1,
                };
                let ghost item = entry@;
                self.pending_cancel_retries.push(entry);
                assert(self@.pending =~= before.push(item));
            },
        }
    }

    fn finalize_confirmed_cancel(&mut self, order: &TrackedOrder, now: u64)
        ensures
            final(self)@ == old(self)@.cancel_confirmed(order@, now as int),
            old(self)@.well_formed() ==> final(self)@.well_formed(),
    {
        self.remove_pending(order.order_id.as_str());
        let cancelled = match self.remove_active_order_from_tracking(order.order_id.as_str()) {
            Some(active) => active,
            None => order.clone(),
        };
        self.record_recently_cancelled(cancelled, now);
    }

    /// What the answer to a cancellation changes: a confirmed one takes the order out of the
    /// active ones; after any other it stays where it is, and the cancellation is tried again.
    pub fn apply_cancel_outcome(
        &mut self,
        order: &TrackedOrder,
        outcome: &CancelOrderOutcome,
        reason_code: CancelReasonCode,
        origin: &str,
        now: u64,
    )
        requires
            old(self)@.can_retry(order@.order_id),
        ensures
            final(self)@ == if outcome is Confirmed {
                old(self)@.cancel_confirmed(order@, now as int)
            } else {
                old(self)@.cancel_pending(order@, reason_code, origin@, now as int)
            },
            old(self)@.well_formed() ==> final(self)@.well_formed(),
    {
        match outcome {
            CancelOrderOutcome::Confirmed => {
                self.finalize_confirmed_cancel(order, now);
            },
            CancelOrderOutcome::Rejected(_) => {
                self.record_pending_cancel(order, reason_code, origin, now);
            },
            CancelOrderOutcome::Unknown(_) => {
                self.record_pending_cancel(order, reason_code, origin, now);
            },
        }
    }
}

proof fn lemma_push_contains<A>(s: Seq<A>, a: A, x: A)
    ensures
        s.push(a).contains(x) <==> s.contains(x) || x == a,
{
    assert(s.push(a)[s.len() as int] == a);
    if s.contains(x) {
        let k = choose|k: int| 0 <= k < s.len() && s[k] == x;
        assert(s.push(a)[k] == x);
    }
    if s.push(a).contains(x) && x != a {
        let k = choose|k: int| 0 <= k < s.push(a).len() && s.push(a)[k] == x;
        assert(s[k] == x);
    }
}

/// What a fill or an order update changed.
#[derive(Debug)]
pub struct MatchUpdate {
    pub tracked_before: TrackedOrder,
    pub tracked_after: Option<TrackedOrder>,
    pub newly_matched: Decimal,
}

pub struct MatchView {
    pub before: TrackedView,
    pub after: Option<TrackedView>,
    pub newly_matched: int,
}

impl View for MatchUpdate {
    type V = MatchView;

    open spec fn view(&self) -> MatchView {
        MatchView {
            before: self.tracked_before@,
            after: match self.tracked_after {
                Some(order) => Some(order@),
                None => None,
            },
            newly_matched: self.newly_matched@,
        }
    }
}

pub open spec fn match_view(u: Option<MatchUpdate>) -> Option<MatchView> {
    match u {
        Some(u) => Some(u@),
        None => None,
    }
}

/// `order` after `shares` more of it have been matched.
pub open spec fn matched_by(order: TrackedView, shares: int) -> TrackedView {
    TrackedView {
        size: max_of(difference(order.size, shares), 0),
        matched_size: sum(order.matched_size, shares),
        ..order
    }
}

/// Shares of `order` that a fill of `fill` shares matches.
pub open spec fn filled_shares(order: TrackedView, fill: int) -> int {
    min_of(fill, max_of(order.size, 0))
}

/// Shares of `order` that are newly matched once `cumulative` are matched in all.
pub open spec fn caught_up_shares(order: TrackedView, cumulative: int) -> int {
    if cumulative <= order.matched_size {
        0
    } else {
        min_of(difference(cumulative, order.matched_size), max_of(order.size, 0))
    }
}

/// The report on an order of which nothing new was matched.
pub open spec fn unmatched(order: TrackedView) -> MatchView {
    MatchView { before: order, after: Some(order), newly_matched: 0 }
}

impl OrdersView {
    /// Active order of that id, or else the one cancelled a short time ago.
    pub open spec fn known(self, id: Seq<char>) -> Option<TrackedView> {
        match self.active(id) {
            Some(order) => Some(order),
            None => match find(self.recent, cancelled_with_id(id)) {
                Some(i) => Some(self.recent[i].order),
                None => None,
            },
        }
    }

    /// `shares` of the known order `id` matched at `now`. An active order that is fully matched
    /// leaves for the recently cancelled ones; a recently cancelled order starts its grace period
    /// anew.
    pub open spec fn with_match(self, id: Seq<char>, shares: int, now: int) -> OrdersView {
        match find(self.orders, entry_with_id(id)) {
            Some(i) => {
                let after = matched_by(self.orders[i].order, shares);
                if after.size <= 0 {
                    self.without_active(id).without_pending(id).cancelled(after, now)
                } else {
                    OrdersView {
                        orders: self.orders.update(
                            i,
                            EntryView { market: self.orders[i].market, order: after },
                        ),
                        ..self
                    }
                }
            },
            None => match find(self.recent, cancelled_with_id(id)) {
                Some(i) => OrdersView {
                    recent: self.recent.update(
                        i,
                        CancelledView {
                            order: matched_by(self.recent[i].order, shares),
                            recorded_at: now,
                        },
                    ),
                    ..self
                },
                None => self,
            },
        }
    }

    /// The report on `shares` of the known order `id` matched.
    pub open spec fn match_report(self, id: Seq<char>, shares: int) -> MatchView {
        let before = self.known(id)->0;
        let after = matched_by(before, shares);
        MatchView {
            before,
            after: if self.active(id) is Some && after.size <= 0 {
                None
            } else {
                Some(after)
            },
            newly_matched: shares,
        }
    }

    /// After an order update that reports `cumulative` shares of the order `id` matched in all.
    pub open spec fn updated(self, id: Seq<char>, cumulative: int, now: int) -> OrdersView {
        match self.known(id) {
            Some(order) => if cumulative < 0 || cumulative <= order.matched_size {
                self
            } else {
                self.with_match(id, caught_up_shares(order, cumulative), now)
            },
            None => self,
        }
    }

    /// What is reported of such an update.
    pub open spec fn update_report(self, id: Seq<char>, cumulative: int) -> Option<MatchView> {
        match self.known(id) {
            Some(order) => if cumulative < 0 {
                None
            } else if cumulative <= order.matched_size {
                Some(unmatched(order))
            } else {
                Some(self.match_report(id, caught_up_shares(order, cumulative)))
            },
            None => None,
        }
    }

    /// Nothing in a fill of the order is too large for a decimal.
    pub open spec fn fill_fits(self, id: Seq<char>, fill: int) -> bool {
        self.known(id) matches Some(order) ==> (fill > 0 && filled_shares(order, fill) > 0
            ==> sum_fits(order.matched_size, filled_shares(order, fill)))
    }

    /// Nothing in an update of the order is too large for a decimal.
    pub open spec fn update_fits(self, id: Seq<char>, cumulative: int) -> bool {
        self.known(id) matches Some(order) ==> (cumulative >= 0 && cumulative > order.matched_size
            ==> {
            &&& difference_fits(cumulative, order.matched_size)
            &&& sum_fits(order.matched_size, caught_up_shares(order, cumulative))
        })
    }

    /// After a fill of `fill` shares of the order `id`.
    pub open spec fn filled(self, id: Seq<char>, fill: int, now: int) -> OrdersView {
        match self.known(id) {
            Some(order) => if fill <= 0 || filled_shares(order, fill) <= 0 {
                self
            } else {
                self.with_match(id, filled_shares(order, fill), now)
            },
            None => self,
        }
    }

    /// What is reported of such a fill.
    pub open spec fn fill_report(self, id: Seq<char>, fill: int) -> Option<MatchView> {
        match self.known(id) {
            Some(order) => if fill <= 0 {
                None
            } else if filled_shares(order, fill) <= 0 {
                Some(unmatched(order))
            } else {
                Some(self.match_report(id, filled_shares(order, fill)))
            },
            None => None,
        }
    }
}

impl OrderManager {
    /// `shares` of an order matched.
    fn match_shares(order: &TrackedOrder, shares: Decimal) -> (r: TrackedOrder)
        requires
            0 <= shares@ <= max_of(order@.size, 0),
            sum_fits(order@.matched_size, shares@),
        ensures
            r@ == matched_by(order@, shares@),
    {
        proof {
            use_type_invariant(&order.size);
            lemma_inv_representable(order.size);
        }
        let mut after = order.clone();
        after.size = order.size.minus(shares).max(Decimal::zero());
        after.matched_size = order.matched_size.plus(shares);
        after
    }

    /// Records `shares` of the known order `order_id` as matched.
    fn record_match(&mut self, order_id: &str, shares: Decimal, now: u64) -> (r: MatchUpdate)
        requires
            old(self)@.known(order_id@) matches Some(order) && 0 <= shares@ <= max_of(order.size, 0)
                && sum_fits(order.matched_size, shares@),
        ensures
            final(self)@ == old(self)@.with_match(order_id@, shares@, now as int),
            r@ == old(self)@.match_report(order_id@, shares@),
            old(self)@.well_formed() ==> final(self)@.well_formed(),
    {
        proof {
            lemma_find(self@.orders, entry_with_id(order_id@));
            lemma_find(self@.recent, cancelled_with_id(order_id@));
        }
        match self.find_active(order_id) {
            Some(i) => {
                let ghost before_orders = self@.orders;
                assert(before_orders[i as int] == self.orders@[i as int]@);
                let before = self.orders[i].order.clone();
                let after = OrderManager::match_shares(&before, shares);
                if after.size <= Decimal::zero() {
                    self.remove_active_order_from_tracking(order_id);
                    self.remove_pending(order_id);
                    self.record_recently_cancelled(after, now);
                    MatchUpdate { tracked_before: before, tracked_after: None, newly_matched: shares }
                } else {
                    let market = self.orders[i].market.clone();
                    self.orders.set(i, MarketOrder { market, order: after.clone() });
                    assert(self@.orders =~= before_orders.update(
                        i as int,
                        EntryView { market: before_orders[i as int].market, order: after@ },
                    ));
                    MatchUpdate {
                        tracked_before: before,
                        tracked_after: Some(after),
                        newly_matched: shares,
                    }
                }
            },
            None => {
                let found = self.find_cancelled(order_id);
                let i: usize = found.unwrap();
                let ghost before_recent = self@.recent;
                assert(before_recent[i as int] == self.recently_cancelled@[i as int]@);
                let before = self.recently_cancelled[i].order.clone();
                let after = OrderManager::match_shares(&before, shares);
                self.recently_cancelled.set(
                    i,
                    CancelledOrder { order: after.clone(), recorded_at: now },
                );
                assert(self@.recent =~= before_recent.update(
                    i as int,
                    CancelledView { order: after@, recorded_at: now as int },
                ));
                MatchUpdate {
                    tracked_before: before,
                    tracked_after: Some(after),
                    newly_matched: shares,
                }
            },
        }
    }

    /// Look up a tracked order by order_id (checks active + recently-cancelled).
    pub fn get_tracked_order(&self, order_id: &str) -> (r: Option<TrackedOrder>)
        ensures
            match r {
                Some(order) => self@.known(order_id@) == Some(order@),
                None => self@.known(order_id@) is None,
            },
    {
        proof {
            lemma_find(self@.orders, entry_with_id(order_id@));
            lemma_find(self@.recent, cancelled_with_id(order_id@));
        }
        match self.find_active(order_id) {
            Some(i) => {
                assert(self@.orders[i as int] == self.orders@[i as int]@);
                Some(self.orders[i].order.clone())
            },
            None => match self.find_cancelled(order_id) {
                Some(i) => {
                    assert(self@.recent[i as int] == self.recently_cancelled@[i as int]@);
                    Some(self.recently_cancelled[i].order.clone())
                },
                None => None,
            },
        }
    }

    /// A fill of `fill_size` shares of an order: as many of them as the order still has open are
    /// matched.
    pub fn apply_trade_fill(&mut self, order_id: &str, fill_size: Decimal, now: u64) -> (r: Option<
        MatchUpdate,
    >)
        requires
            old(self)@.fill_fits(order_id@, fill_size@),
        ensures
            final(self)@ == old(self)@.filled(order_id@, fill_size@, now as int),
            match_view(r) == old(self)@.fill_report(order_id@, fill_size@),
            old(self)@.well_formed() ==> final(self)@.well_formed(),
    {
        if fill_size <= Decimal::zero() {
            return None;
        }
        match self.get_tracked_order(order_id) {
            Some(before) => {
                let newly_matched = fill_size.min(before.size.max(Decimal::zero()));
                if newly_matched <= Decimal::zero() {
                    Some(
                        MatchUpdate {
                            tracked_before: before.clone(),
                            tracked_after: Some(before),
                            newly_matched: Decimal::zero(),
                        },
                    )
                } else {
                    Some(self.record_match(order_id, newly_matched, now))
                }
            },
            None => None,
        }
    }

    /// Such a fill, unless the matched shares become too many; then nothing is changed.
    pub fn try_apply_trade_fill(&mut self, order_id: &str, fill_size: Decimal, now: u64) -> (r: Option<
        Option<MatchUpdate>,
    >)
        ensures
            r is Some == old(self)@.fill_fits(order_id@, fill_size@),
            match r {
                Some(update) => {
                    &&& final(self)@ == old(self)@.filled(order_id@, fill_size@, now as int)
                    &&& match_view(update) == old(self)@.fill_report(order_id@, fill_size@)
                },
                None => final(self)@ == old(self)@,
            },
            old(self)@.well_formed() ==> final(self)@.well_formed(),
    {
        if fill_size > Decimal::zero() {
            if let Some(order) = self.get_tracked_order(order_id) {
                let newly_matched = fill_size.min(order.size.max(Decimal::zero()));
                if newly_matched > Decimal::zero() {
                    order.matched_size.checked_plus(newly_matched)?;
                }
            }
        }
        Some(self.apply_trade_fill(order_id, fill_size, now))
    }

    /// An order update that reports `cumulative_matched` shares matched in all: what was not
    /// known yet of them is matched, as far as the order still has it open.
    pub fn apply_order_update(&mut self, order_id: &str, cumulative_matched: Decimal, now: u64) -> (r:
        Option<MatchUpdate>)
        requires
            old(self)@.update_fits(order_id@, cumulative_matched@),
        ensures
            final(self)@ == old(self)@.updated(order_id@, cumulative_matched@, now as int),
            match_view(r) == old(self)@.update_report(order_id@, cumulative_matched@),
            old(self)@.well_formed() ==> final(self)@.well_formed(),
    {
        if cumulative_matched < Decimal::zero() {
            return None;
        }
        match self.get_tracked_order(order_id) {
            Some(before) => {
                if cumulative_matched <= before.matched_size {
                    return Some(
                        MatchUpdate {
                            tracked_before: before.clone(),
                            tracked_after: Some(before),
                            newly_matched: Decimal::zero(),
                        },
                    );
                }
                proof {
                    lemma_whole(0);
                }
                let newly_matched = cumulative_matched.minus(before.matched_size).min(
                    before.size.max(Decimal::zero()),
                );
                Some(self.record_match(order_id, newly_matched, now))
            },
            None => None,
        }
    }

    /// Such an update, unless the matched shares become too many; then nothing is changed.
    pub fn try_apply_order_update(
        &mut self,
        order_id: &str,
        cumulative_matched: Decimal,
        now: u64,
    ) -> (r: Option<Option<MatchUpdate>>)
        ensures
            r is Some == old(self)@.update_fits(order_id@, cumulative_matched@),
            match r {
                Some(update) => {
                    &&& final(self)@ == old(self)@.updated(
                        order_id@,
                        cumulative_matched@,
                        now as int,
                    )
                    &&& match_view(update) == old(self)@.update_report(
                        order_id@,
                        cumulative_matched@,
                    )
                },
                None => final(self)@ == old(self)@,
            },
            old(self)@.well_formed() ==> final(self)@.well_formed(),
    {
        if cumulative_matched >= Decimal::zero() {
            if let Some(order) = self.get_tracked_order(order_id) {
                if cumulative_matched > order.matched_size {
                    let newly_matched = cumulative_matched.checked_minus(order.matched_size)?.min(
                        order.size.max(Decimal::zero()),
                    );
                    order.matched_size.checked_plus(newly_matched)?;
                }
            }
        }
        Some(self.apply_order_update(order_id, cumulative_matched, now))
    }
}

/// Whether at least `threshold` has passed from `recorded_at` to `now`.
pub fn instant_age_at_least(now: u64, recorded_at: u64, threshold: u64) -> (r: bool)
    ensures
        r == aged(now as int, recorded_at as int, threshold as int),
{
    now >= recorded_at && now - recorded_at >= threshold
}

pub open spec fn aged(now: int, recorded_at: int, threshold: int) -> bool {
    now >= recorded_at && now - recorded_at >= threshold
}

pub open spec fn fresh_at(now: int, ttl: int) -> spec_fn(CancelledView) -> bool {
    |c: CancelledView| !aged(now, c.recorded_at, ttl)
}

/// Keeps the cancelled orders that have not reached the age of `ttl`.
pub fn prune_recently_cancelled_entries(
    recently_cancelled: Vec<CancelledOrder>,
    now: u64,
    ttl: u64,
) -> (r: Vec<CancelledOrder>)
    ensures
        cancellations(r@) == cancellations(recently_cancelled@).filter(
            fresh_at(now as int, ttl as int),
        ),
{
    let ghost all = cancellations(recently_cancelled@);
    let ghost keep = fresh_at(now as int, ttl as int);
    let mut kept: Vec<CancelledOrder> = Vec::new();
    let mut i: usize = 0;
    while i < recently_cancelled.len()
        invariant
            i <= recently_cancelled.len(),
            all == cancellations(recently_cancelled@),
            keep == fresh_at(now as int, ttl as int),
            cancellations(kept@) == all.take(i as int).filter(keep),
        decreases recently_cancelled.len() - i,
    {
        let ghost kept_before = cancellations(kept@);
        let ghost item = all[i as int];
        assert(item == recently_cancelled@[i as int]@);
        proof {
            assert(all.take(i + 1) =~= all.take(i as int).push(item));
            assert(all.take(i as int).push(item).drop_last() =~= all.take(i as int));
            reveal_with_fuel(Seq::filter, 2);
        }
        if !instant_age_at_least(now, recently_cancelled[i].recorded_at, ttl) {
            kept.push(
                CancelledOrder {
                    order: recently_cancelled[i].order.clone(),
                    recorded_at: recently_cancelled[i].recorded_at,
                },
            );
            assert(cancellations(kept@) =~= kept_before.push(item));
        }
        i = i + 1;
    }
    assert(all.take(i as int) =~= all);
    kept
}

/// Which markets a choice of orders takes in.
#[derive(Debug)]
pub enum MarketChoice {
    Any,
    /// Orders filed under this market.
    Of(String),
    /// Orders filed under any other market.
    NotOf(String),
    /// Orders that name any other market.
    NotNaming(String),
}

/// Which legs a choice of orders takes in.
#[derive(Clone, Copy, Debug)]
pub enum LegChoice {
    Any,
    Bids,
    Asks,
    Only(QuoteLeg),
}

impl LegChoice {
    pub open spec fn takes(self, leg: QuoteLeg) -> bool {
        match self {
            LegChoice::Any => true,
            LegChoice::Bids => leg.bids(),
            LegChoice::Asks => !leg.bids(),
            LegChoice::Only(only) => leg == only,
        }
    }

    fn accepts(self, leg: QuoteLeg) -> (r: bool)
        ensures
            r == self.takes(leg),
    {
        match self {
            LegChoice::Any => true,
            LegChoice::Bids => leg.is_bid(),
            LegChoice::Asks => leg.is_ask(),
            LegChoice::Only(only) => leg == only,
        }
    }
}

impl MarketChoice {
    pub open spec fn takes(self, e: EntryView) -> bool {
        match self {
            MarketChoice::Any => true,
            MarketChoice::Of(market) => e.market == market@,
            MarketChoice::NotOf(market) => e.market != market@,
            MarketChoice::NotNaming(market) => e.order.condition_id != market@,
        }
    }

    fn accepts(&self, e: &MarketOrder) -> (r: bool)
        ensures
            r == self.takes(e@),
    {
        match self {
            MarketChoice::Any => true,
            MarketChoice::Of(market) => same_text(e.market.as_str(), market.as_str()),
            MarketChoice::NotOf(market) => !same_text(e.market.as_str(), market.as_str()),
            MarketChoice::NotNaming(market) => !same_text(
                e.order.condition_id.as_str(),
                market.as_str(),
            ),
        }
    }
}

pub open spec fn chosen(markets: MarketChoice, legs: LegChoice) -> spec_fn(EntryView) -> bool {
    |e: EntryView| markets.takes(e) && legs.takes(e.order.leg)
}

/// The orders of a list of entries.
pub open spec fn orders_of(s: Seq<EntryView>) -> Seq<TrackedView> {
    s.map_values(|e: EntryView| e.order)
}

pub open spec fn order_views(s: Seq<TrackedOrder>) -> Seq<TrackedView> {
    s.map_values(|o: TrackedOrder| o@)
}

spec fn pending_chosen(condition_id: Seq<char>, elsewhere: bool, bids_only: bool) -> spec_fn(
    PendingView,
) -> bool {
    |p: PendingView|
        (p.order.condition_id == condition_id) != elsewhere && (bids_only ==> p.order.leg.bids())
}

pub open spec fn pending_of(condition_id: Seq<char>) -> spec_fn(PendingView) -> bool {
    |p: PendingView| p.order.condition_id == condition_id
}

pub open spec fn pending_bid_of(condition_id: Seq<char>) -> spec_fn(PendingView) -> bool {
    |p: PendingView| p.order.condition_id == condition_id && p.order.leg.bids()
}

pub open spec fn pending_bid_elsewhere(condition_id: Seq<char>) -> spec_fn(PendingView) -> bool {
    |p: PendingView| p.order.condition_id != condition_id && p.order.leg.bids()
}

proof fn lemma_filter_step<A>(s: Seq<A>, i: int, p: spec_fn(A) -> bool)
    requires
        0 <= i < s.len(),
    ensures
        s.take(i + 1).filter(p) == if p(s[i]) {
            s.take(i).filter(p).push(s[i])
        } else {
            s.take(i).filter(p)
        },
{
    assert(s.take(i + 1).drop_last() =~= s.take(i));
    assert(s.take(i + 1).last() == s[i]);
    reveal_with_fuel(Seq::filter, 2);
}

impl OrderManager {
    /// The chosen active orders.
    fn choose_orders(&self, markets: &MarketChoice, legs: LegChoice) -> (r: Vec<TrackedOrder>)
        ensures
            order_views(r@) == orders_of(self@.orders.filter(chosen(*markets, legs))),
            r@.len() == self@.orders.filter(chosen(*markets, legs)).len(),
    {
        let ghost all = self@.orders;
        let ghost p = chosen(*markets, legs);
        let mut r: Vec<TrackedOrder> = Vec::new();
        let mut i: usize = 0;
        while i < self.orders.len()
            invariant
                i <= self.orders.len(),
                all == self@.orders,
                p == chosen(*markets, legs),
                order_views(r@) == orders_of(all.take(i as int).filter(p)),
            decreases self.orders.len() - i,
        {
            let ghost before = order_views(r@);
            let ghost filtered = all.take(i as int).filter(p);
            assert(all[i as int] == self.orders@[i as int]@);
            proof {
                lemma_filter_step(all, i as int, p);
            }
            if markets.accepts(&self.orders[i]) && legs.accepts(self.orders[i].order.leg) {
                r.push(self.orders[i].order.clone());
                assert(order_views(r@) =~= before.push(all[i as int].order));
                assert(orders_of(filtered.push(all[i as int])) =~= orders_of(filtered).push(
                    all[i as int].order,
                ));
            }
            i = i + 1;
        }
        assert(all.take(i as int) =~= all);
        assert(order_views(r@).len() == r@.len());
        r
    }

    /// The pending cancellations of bids or of all legs, of one market or of all others.
    fn count_pending(&self, condition_id: &str, elsewhere: bool, bids_only: bool) -> (r: usize)
        ensures
            r == self@.pending.filter(pending_chosen(condition_id@, elsewhere, bids_only)).len(),
    {
        let ghost all = self@.pending;
        let ghost p = pending_chosen(condition_id@, elsewhere, bids_only);
        let mut count: usize = 0;
        let mut i: usize = 0;
        while i < self.pending_cancel_retries.len()
            invariant
                i <= self.pending_cancel_retries.len(),
                all == self@.pending,
                p == pending_chosen(condition_id@, elsewhere, bids_only),
                count == all.take(i as int).filter(p).len(),
                count <= i,
            decreases self.pending_cancel_retries.len() - i,
        {
            assert(all[i as int] == self.pending_cancel_retries@[i as int]@);
            proof {
                lemma_filter_step(all, i as int, p);
            }
            let order = &self.pending_cancel_retries[i].order;
            if same_text(order.condition_id.as_str(), condition_id) != elsewhere && (!bids_only
                || order.leg.is_bid()) {
                count = count + 1;
            }
            i = i + 1;
        }
        assert(all.take(i as int) =~= all);
        count
    }

    /// Active orders and pending cancellations of a market.
    pub fn market_order_state_counts(&self, condition_id: &str) -> (r: (usize, usize))
        ensures
            r.0 == self@.orders.filter(entry_in(condition_id@)).len(),
            r.1 == self@.pending.filter(pending_of(condition_id@)).len(),
    {
        let markets = MarketChoice::Of(condition_id.to_owned());
        let active = self.choose_orders(&markets, LegChoice::Any).len();
        let pending = self.count_pending(condition_id, false, false);
        proof {
            assert(chosen(markets, LegChoice::Any) =~= entry_in(condition_id@));
            assert(pending_chosen(condition_id@, false, false) =~= pending_of(condition_id@));
        }
        (active, pending)
    }

    /// Active bids and pending cancellations of bids of a market.
    pub fn market_bid_order_state_counts(&self, condition_id: &str) -> (r: (usize, usize))
        ensures
            r.0 == self@.orders.filter(entry_bid_in(condition_id@)).len(),
            r.1 == self@.pending.filter(pending_bid_of(condition_id@)).len(),
    {
        let markets = MarketChoice::Of(condition_id.to_owned());
        let active = self.choose_orders(&markets, LegChoice::Bids).len();
        let pending = self.count_pending(condition_id, false, true);
        proof {
            assert(chosen(markets, LegChoice::Bids) =~= entry_bid_in(condition_id@));
            assert(pending_chosen(condition_id@, false, true) =~= pending_bid_of(condition_id@));
        }
        (active, pending)
    }

    /// Active bids and pending cancellations of bids of all markets but one.
    pub fn global_bid_order_state_counts_excluding(&self, excluded_condition_id: &str) -> (r: (
        usize,
        usize,
    ))
        ensures
            r.0 == self@.orders.filter(entry_bid_elsewhere(excluded_condition_id@)).len(),
            r.1 == self@.pending.filter(pending_bid_elsewhere(excluded_condition_id@)).len(),
    {
        let markets = MarketChoice::NotOf(excluded_condition_id.to_owned());
        let active = self.choose_orders(&markets, LegChoice::Bids).len();
        let pending = self.count_pending(excluded_condition_id, true, true);
        proof {
            assert(chosen(markets, LegChoice::Bids) =~= entry_bid_elsewhere(excluded_condition_id@));
            assert(pending_chosen(excluded_condition_id@, true, true) =~= pending_bid_elsewhere(
                excluded_condition_id@,
            ));
        }
        (active, pending)
    }

    pub fn has_orders_or_pending_cancels(&self, condition_id: &str) -> (r: bool)
        ensures
            r == (self@.orders.filter(entry_in(condition_id@)).len() > 0 || self@.pending.filter(
                pending_of(condition_id@),
            ).len() > 0),
    {
        let (active, pending) = self.market_order_state_counts(condition_id);
        active > 0 || pending > 0
    }

    pub fn has_bid_orders_or_pending_cancels(&self, condition_id: &str) -> (r: bool)
        ensures
            r == (self@.orders.filter(entry_bid_in(condition_id@)).len() > 0
                || self@.pending.filter(pending_bid_of(condition_id@)).len() > 0),
    {
        let (active, pending) = self.market_bid_order_state_counts(condition_id);
        active > 0 || pending > 0
    }

    pub fn has_pending_cancel_retries(&self) -> (r: bool)
        ensures
            r == (self@.pending.len() > 0),
    {
        self.pending_cancel_retries.len() > 0
    }

    /// Get all tracked orders for a market.
    pub fn get_market_orders(&self, condition_id: &str) -> (r: Vec<TrackedOrder>)
        ensures
            order_views(r@) == orders_of(self@.orders.filter(entry_in(condition_id@))),
    {
        let markets = MarketChoice::Of(condition_id.to_owned());
        assert(chosen(markets, LegChoice::Any) =~= entry_in(condition_id@));
        self.choose_orders(&markets, LegChoice::Any)
    }

    pub fn get_all_orders(&self) -> (r: Vec<TrackedOrder>)
        ensures
            order_views(r@) == orders_of(self@.orders),
    {
        proof {
            let p = chosen(MarketChoice::Any, LegChoice::Any);
            lemma_filter_all(self@.orders, p);
        }
        self.choose_orders(&MarketChoice::Any, LegChoice::Any)
    }

    /// The orders to cancel for all orders of a market to be gone.
    pub fn cancel_all(&self, condition_id: &str) -> (r: Vec<TrackedOrder>)
        ensures
            order_views(r@) == orders_of(self@.orders.filter(entry_in(condition_id@))),
    {
        self.get_market_orders(condition_id)
    }

    /// The orders to cancel for the bids of all other markets to be gone.
    pub fn cancel_other_bids(&self, excluded_condition_id: &str) -> (r: Vec<TrackedOrder>)
        ensures
            order_views(r@) == orders_of(self@.orders.filter(bid_naming_other(excluded_condition_id@))),
    {
        let markets = MarketChoice::NotNaming(excluded_condition_id.to_owned());
        assert(chosen(markets, LegChoice::Bids) =~= bid_naming_other(excluded_condition_id@));
        self.choose_orders(&markets, LegChoice::Bids)
    }

    /// The orders to cancel for the bids of a market to be gone (preserves asks for inventory
    /// rewards).
    pub fn cancel_bids_only(&self, condition_id: &str) -> (r: Vec<TrackedOrder>)
        ensures
            order_views(r@) == orders_of(self@.orders.filter(entry_bid_in(condition_id@))),
    {
        let markets = MarketChoice::Of(condition_id.to_owned());
        assert(chosen(markets, LegChoice::Bids) =~= entry_bid_in(condition_id@));
        self.choose_orders(&markets, LegChoice::Bids)
    }

    /// The orders to cancel for the asks of a market to be gone (preserves bids).
    pub fn cancel_asks_only(&self, condition_id: &str) -> (r: Vec<TrackedOrder>)
        ensures
            order_views(r@) == orders_of(self@.orders.filter(entry_ask_in(condition_id@))),
    {
        let markets = MarketChoice::Of(condition_id.to_owned());
        assert(chosen(markets, LegChoice::Asks) =~= entry_ask_in(condition_id@));
        self.choose_orders(&markets, LegChoice::Asks)
    }

    /// The orders to cancel for a specific leg of a market to be free. Leaves other legs
    /// (including other bids) untouched.
    pub fn cancel_leg(&self, condition_id: &str, leg: QuoteLeg) -> (r: Vec<TrackedOrder>)
        ensures
            order_views(r@) == orders_of(self@.orders.filter(entry_on_leg(condition_id@, leg))),
    {
        let markets = MarketChoice::Of(condition_id.to_owned());
        assert(chosen(markets, LegChoice::Only(leg)) =~= entry_on_leg(condition_id@, leg));
        self.choose_orders(&markets, LegChoice::Only(leg))
    }
}

pub open spec fn entry_bid_in(market: Seq<char>) -> spec_fn(EntryView) -> bool {
    |e: EntryView| e.market == market && e.order.leg.bids()
}

pub open spec fn entry_ask_in(market: Seq<char>) -> spec_fn(EntryView) -> bool {
    |e: EntryView| e.market == market && !e.order.leg.bids()
}

pub open spec fn entry_bid_elsewhere(market: Seq<char>) -> spec_fn(EntryView) -> bool {
    |e: EntryView| e.market != market && e.order.leg.bids()
}

pub open spec fn bid_naming_other(market: Seq<char>) -> spec_fn(EntryView) -> bool {
    |e: EntryView| e.order.condition_id != market && e.order.leg.bids()
}

proof fn lemma_filter_all<A>(s: Seq<A>, p: spec_fn(A) -> bool)
    requires
        forall|a: A| #[trigger] p(a),
    ensures
        s.filter(p) == s,
    decreases s.len(),
{
    reveal_with_fuel(Seq::filter, 2);
    if s.len() > 0 {
        lemma_filter_all(s.drop_last(), p);
        assert(s.drop_last().push(s.last()) =~= s);
    } else {
        assert(s.filter(p) =~= s);
    }
}

impl OrdersView {
    /// Without the order of that id, wherever it is known.
    pub open spec fn removed(self, id: Seq<char>) -> OrdersView {
        match self.active(id) {
            Some(order) => self.without_active(id).without_pending(id).leg_forgotten(
                order.condition_id,
                order.leg,
            ),
            None => match find(self.recent, cancelled_with_id(id)) {
                Some(i) => (OrdersView {
                    recent: self.recent.remove(i),
                    ..self.without_pending(id)
                }).leg_forgotten(self.recent[i].order.condition_id, self.recent[i].order.leg),
                None => self.without_pending(id),
            },
        }
    }

    /// The active order of that id moved to the recently cancelled ones.
    pub open spec fn moved_to_recent(self, id: Seq<char>, now: int) -> OrdersView {
        match self.active(id) {
            Some(order) => self.without_active(id).without_pending(id).cancelled(order, now),
            None => self,
        }
    }
}

/// Shares of the bids among the first orders, added up in turn.
pub open spec fn buy_exposure(s: Seq<EntryView>) -> int
    decreases s.len(),
{
    if s.len() == 0 {
        0
    } else if s.last().order.side == Side::Buy {
        sum(buy_exposure(s.drop_last()), s.last().order.size)
    } else {
        buy_exposure(s.drop_last())
    }
}

/// Price times size of the bids among the first orders, added up in turn.
pub open spec fn buy_capital(s: Seq<EntryView>) -> int
    decreases s.len(),
{
    if s.len() == 0 {
        0
    } else if s.last().order.side == Side::Buy {
        sum(
            buy_capital(s.drop_last()),
            product(s.last().order.price, s.last().order.size),
        )
    } else {
        buy_capital(s.drop_last())
    }
}

/// Nothing in the shares of the bids is too large for a decimal.
pub open spec fn exposure_fits(s: Seq<EntryView>) -> bool
    decreases s.len(),
{
    s.len() == 0 || {
        let order = s.last().order;
        &&& exposure_fits(s.drop_last())
        &&& order.side == Side::Buy ==> sum_fits(buy_exposure(s.drop_last()), order.size)
    }
}

/// Nothing in what the bids cost is too large for a decimal.
pub open spec fn capital_fits(s: Seq<EntryView>) -> bool
    decreases s.len(),
{
    s.len() == 0 || {
        let order = s.last().order;
        &&& capital_fits(s.drop_last())
        &&& order.side == Side::Buy ==> {
            &&& product_fits(order.price, order.size)
            &&& sum_fits(buy_capital(s.drop_last()), product(order.price, order.size))
        }
    }
}

/// Totals that fit also fit as far as they were added up.
proof fn lemma_totals_fit_so_far(s: Seq<EntryView>, i: int)
    requires
        0 <= i <= s.len(),
    ensures
        exposure_fits(s) ==> exposure_fits(s.take(i)),
        capital_fits(s) ==> capital_fits(s.take(i)),
    decreases s.len(),
{
    if i < s.len() {
        lemma_totals_fit_so_far(s.drop_last(), i);
        assert(s.drop_last().take(i) =~= s.take(i));
    } else {
        assert(s.take(i) =~= s);
    }
}

impl OrderManager {
    fn checked_capital(&self) -> (r: Option<Decimal>)
        ensures
            r is Some == capital_fits(self@.orders),
            r matches Some(capital) ==> capital@ == buy_capital(self@.orders),
    {
        let ghost all = self@.orders;
        let mut total = Decimal::zero();
        let mut i: usize = 0;
        assert(all.take(0).len() == 0);
        while i < self.orders.len()
            invariant
                i <= self.orders.len(),
                all == self@.orders,
                all.len() == self.orders.len(),
                total@ == buy_capital(all.take(i as int)),
                capital_fits(all.take(i as int)),
            decreases self.orders.len() - i,
        {
            proof {
                assert(all[i as int] == self.orders@[i as int]@);
                assert(all.take(i + 1).drop_last() =~= all.take(i as int));
                assert(all.take(i + 1).last() == all[i as int]);
                lemma_totals_fit_so_far(all, i + 1);
            }
            let order = &self.orders[i].order;
            if order.side == Side::Buy {
                total = total.checked_plus(order.price.checked_times(order.size)?)?;
            }
            i = i + 1;
        }
        assert(all.take(i as int) =~= all);
        Some(total)
    }

    /// Sum of (price * size) for all resting BUY orders = USDC locked up.
    pub fn committed_capital(&self) -> (r: Decimal)
        requires
            capital_fits(self@.orders),
        ensures
            r@ == buy_capital(self@.orders),
    {
        match self.checked_capital() {
            Some(capital) => capital,
            None => unreached(),
        }
    }

    /// The USDC locked up in resting BUY orders, unless that is too much.
    pub fn try_committed_capital(&self) -> (r: Option<Decimal>)
        ensures
            r is Some == capital_fits(self@.orders),
            r matches Some(capital) ==> capital@ == buy_capital(self@.orders),
    {
        if self.checked_capital().is_some() {
            Some(self.committed_capital())
        } else {
            None
        }
    }

    fn checked_exposure(&self) -> (r: Option<Decimal>)
        ensures
            r is Some == exposure_fits(self@.orders),
            r matches Some(exposure) ==> exposure@ == buy_exposure(self@.orders),
    {
        let ghost all = self@.orders;
        let mut total = Decimal::zero();
        let mut i: usize = 0;
        assert(all.take(0).len() == 0);
        while i < self.orders.len()
            invariant
                i <= self.orders.len(),
                all == self@.orders,
                all.len() == self.orders.len(),
                total@ == buy_exposure(all.take(i as int)),
                exposure_fits(all.take(i as int)),
            decreases self.orders.len() - i,
        {
            proof {
                assert(all[i as int] == self.orders@[i as int]@);
                assert(all.take(i + 1).drop_last() =~= all.take(i as int));
                assert(all.take(i + 1).last() == all[i as int]);
                lemma_totals_fit_so_far(all, i + 1);
            }
            let order = &self.orders[i].order;
            if order.side == Side::Buy {
                total = total.checked_plus(order.size)?;
            }
            i = i + 1;
        }
        assert(all.take(i as int) =~= all);
        Some(total)
    }

    /// Full notional exposure for resting BUY orders (bid + hedge reserve).
    pub fn committed_exposure(&self) -> (r: Decimal)
        requires
            exposure_fits(self@.orders),
        ensures
            r@ == buy_exposure(self@.orders),
    {
        match self.checked_exposure() {
            Some(exposure) => exposure,
            None => unreached(),
        }
    }

    /// The exposure of resting BUY orders, unless that is too much.
    pub fn try_committed_exposure(&self) -> (r: Option<Decimal>)
        ensures
            r is Some == exposure_fits(self@.orders),
            r matches Some(exposure) ==> exposure@ == buy_exposure(self@.orders),
    {
        if self.checked_exposure().is_some() {
            Some(self.committed_exposure())
        } else {
            None
        }
    }

    /// Update gross balance when a fresh API balance is fetched.
    ///
    /// The balance-allowance API returns total USDC (free + collateral locked
    /// in resting orders), so gross_balance = api_balance directly.
    pub fn update_gross_balance(&mut self, api_balance: Decimal)
        ensures
            final(self)@ == (OrdersView { gross: api_balance@, ..old(self)@ }),
    {
        self.gross_balance = api_balance;
    }

    pub(crate) fn checked_budget(&self) -> (r: Option<Decimal>)
        ensures
            r is Some == self@.budget_fits(),
            r matches Some(budget) ==> budget@ == self@.budget(),
    {
        let free = self.gross_balance.checked_minus(self.checked_exposure()?)?;
        Some(free.checked_minus(self.cash_reserve)?.max(Decimal::zero()))
    }

    /// How much USDC budget remains for new BUY orders.
    ///
    /// Formula: gross_balance - committed_exposure - cash_reserve
    /// where gross_balance = api_balance (total USDC from API, includes locked collateral)
    ///       committed_exposure = sum(size) for resting BUY orders
    ///       cash_reserve = USDC amount to always keep untouched
    ///
    /// In binary markets each buy share costs exactly $1 total:
    ///   order_cost (price) + hedge_cost (1 - price) = 1
    /// So committed_exposure (total shares) = total USDC commitment.
    pub fn available_budget(&self) -> (r: Decimal)
        requires
            self@.budget_fits(),
        ensures
            r@ == self@.budget(),
            r@ >= 0,
    {
        match self.checked_budget() {
            Some(budget) => budget,
            None => unreached(),
        }
    }

    /// The budget for new BUY orders, unless some number on the way is too large.
    pub fn try_available_budget(&self) -> (r: Option<Decimal>)
        ensures
            r is Some == self@.budget_fits(),
            r matches Some(budget) ==> budget@ == self@.budget() && budget@ >= 0,
    {
        if self.checked_budget().is_some() {
            Some(self.available_budget())
        } else {
            None
        }
    }

    fn checked_hedge_money(&self) -> (r: Option<Decimal>)
        ensures
            r is Some == self@.hedge_money_fits(),
            r matches Some(money) ==> money@ == self@.hedge_money(),
    {
        let free = self.gross_balance.checked_minus(self.checked_exposure()?)?;
        Some(free.max(Decimal::zero()))
    }

    /// Free USDC available for emergency hedge resolution.
    ///
    /// Unlike `available_budget()`, this does not subtract the normal quoting reserve.
    pub fn available_hedge_resolution_usdc(&self) -> (r: Decimal)
        requires
            self@.hedge_money_fits(),
        ensures
            r@ == self@.hedge_money(),
            r@ >= 0,
    {
        match self.checked_hedge_money() {
            Some(money) => money,
            None => unreached(),
        }
    }

    /// The USDC free for hedges, unless some number on the way is too large.
    pub fn try_available_hedge_resolution_usdc(&self) -> (r: Option<Decimal>)
        ensures
            r is Some == self@.hedge_money_fits(),
            r matches Some(money) ==> money@ == self@.hedge_money() && money@ >= 0,
    {
        if self.checked_hedge_money().is_some() {
            Some(self.available_hedge_resolution_usdc())
        } else {
            None
        }
    }

    /// Remove an order from tracking (e.g. after fill or external cancel).
    pub fn remove_order(&mut self, order_id: &str) -> (r: Option<TrackedOrder>)
        ensures
            final(self)@ == old(self)@.removed(order_id@),
            match r {
                Some(order) => old(self)@.known(order_id@) == Some(order@),
                None => old(self)@.known(order_id@) is None,
            },
            old(self)@.well_formed() ==> final(self)@.well_formed(),
    {
        match self.remove_active_order_from_tracking(order_id) {
            Some(order) => {
                self.remove_pending(order_id);
                self.forget_exchange_leg_if_no_active_order(order.condition_id.as_str(), order.leg);
                Some(order)
            },
            None => {
                assert(self@.orders =~= old(self)@.orders);
                self.remove_pending(order_id);
                let ghost before = self@.recent;
                proof {
                    lemma_find(before, cancelled_with_id(order_id@));
                }
                match self.find_cancelled(order_id) {
                    Some(i) => {
                        assert(before[i as int] == self.recently_cancelled@[i as int]@);
                        let entry = self.recently_cancelled.remove(i);
                        assert(self@.recent =~= before.remove(i as int));
                        let order = entry.order;
                        self.forget_exchange_leg_if_no_active_order(
                            order.condition_id.as_str(),
                            order.leg,
                        );
                        Some(order)
                    },
                    None => None,
                }
            },
        }
    }

    /// Move an order from active tracking to recently-cancelled buffer.
    ///
    /// Public so the WS cancellation handler can use grace-period matching
    /// instead of hard-deleting (prevents race with FillHandler task).
    pub fn move_to_recently_cancelled(&mut self, order_id: &str, now: u64)
        ensures
            final(self)@ == old(self)@.moved_to_recent(order_id@, now as int),
            old(self)@.well_formed() ==> final(self)@.well_formed(),
    {
        match self.remove_active_order_from_tracking(order_id) {
            Some(order) => {
                self.remove_pending(order_id);
                self.record_recently_cancelled(order, now);
            },
            None => {
                assert(self@.orders =~= old(self)@.orders);
            },
        }
    }

    /// Remove entries older than 30 seconds from the recently-cancelled buffer.
    pub fn cleanup_stale_cancels(&mut self, now: u64)
        ensures
            final(self)@ == (OrdersView {
                recent: old(self)@.recent.filter(
                    fresh_at(now as int, RECENTLY_CANCELLED_TTL_MS as int),
                ),
                ..old(self)@
            }),
            old(self)@.well_formed() ==> final(self)@.well_formed(),
    {
        let mut entries: Vec<CancelledOrder> = Vec::new();
        entries.append(&mut self.recently_cancelled);
        assert(entries@ =~= old(self).recently_cancelled@);
        self.recently_cancelled = prune_recently_cancelled_entries(
            entries,
            now,
            RECENTLY_CANCELLED_TTL_MS,
        );
        proof {
            if old(self)@.well_formed() {
                lemma_filter_keeps_unique(
                    old(self)@.recent,
                    fresh_at(now as int, RECENTLY_CANCELLED_TTL_MS as int),
                );
            }
        }
    }

    /// Get recently cancelled orders for a market (for fill-matching fallback).
    pub fn get_recently_cancelled_for_market(&self, condition_id: &str) -> (r: Vec<TrackedOrder>)
        ensures
            order_views(r@) == self@.recent.filter(
                |c: CancelledView| c.order.condition_id == condition_id@,
            ).map_values(|c: CancelledView| c.order),
    {
        let ghost all = self@.recent;
        let ghost p = |c: CancelledView| c.order.condition_id == condition_id@;
        let ghost f = |c: CancelledView| c.order;
        let mut r: Vec<TrackedOrder> = Vec::new();
        let mut i: usize = 0;
        while i < self.recently_cancelled.len()
            invariant
                i <= self.recently_cancelled.len(),
                all == self@.recent,
                p == (|c: CancelledView| c.order.condition_id == condition_id@),
                f == (|c: CancelledView| c.order),
                order_views(r@) == all.take(i as int).filter(p).map_values(f),
            decreases self.recently_cancelled.len() - i,
        {
            let ghost before = order_views(r@);
            let ghost filtered = all.take(i as int).filter(p);
            assert(all[i as int] == self.recently_cancelled@[i as int]@);
            proof {
                lemma_filter_step(all, i as int, p);
            }
            if same_text(
                self.recently_cancelled[i].order.condition_id.as_str(),
                condition_id,
            ) {
                r.push(self.recently_cancelled[i].order.clone());
                assert(order_views(r@) =~= before.push(all[i as int].order));
                assert(filtered.push(all[i as int]).map_values(f) =~= filtered.map_values(f).push(
                    all[i as int].order,
                ));
            }
            i = i + 1;
        }
        assert(all.take(i as int) =~= all);
        r
    }

    /// Get all tracked order IDs across all markets.
    pub fn get_tracked_order_ids(&self) -> (r: Vec<String>)
        ensures
            texts(r@) == self@.orders.map_values(|e: EntryView| e.order.order_id),
    {
        let mut r: Vec<String> = Vec::new();
        let mut i: usize = 0;
        while i < self.orders.len()
            invariant
                i <= self.orders.len(),
                r@.len() == i,
                forall|j: int| 0 <= j < i ==> (#[trigger] r@[j])@ == self@.orders[j].order.order_id,
            decreases self.orders.len() - i,
        {
            assert(self@.orders[i as int] == self.orders@[i as int]@);
            r.push(self.orders[i].order.order_id.clone());
            i = i + 1;
        }
        assert(texts(r@) =~= self@.orders.map_values(|e: EntryView| e.order.order_id));
        r
    }

    /// Get all tracked condition_ids.
    pub fn get_tracked_condition_ids(&self) -> (r: Vec<String>)
        ensures
            texts(r@).no_duplicates(),
            forall|market: Seq<char>|
                texts(r@).contains(market) <==> (exists|i: int|
                    0 <= i < self@.orders.len() && (#[trigger] self@.orders[i]).market == market),
    {
        let mut r: Vec<String> = Vec::new();
        let mut i: usize = 0;
        while i < self.orders.len()
            invariant
                i <= self.orders.len(),
                texts(r@).no_duplicates(),
                forall|market: Seq<char>|
                    texts(r@).contains(market) <==> (exists|j: int|
                        0 <= j < i && (#[trigger] self@.orders[j]).market == market),
            decreases self.orders.len() - i,
        {
            assert(self@.orders[i as int] == self.orders@[i as int]@);
            let ghost before = texts(r@);
            let ghost item = self@.orders[i as int].market;
            if !contains_text(&r, self.orders[i].market.as_str()) {
                r.push(self.orders[i].market.clone());
                assert(texts(r@) =~= before.push(item));
                assert forall|market: Seq<char>| texts(r@).contains(market) <==> (exists|j: int|
                    0 <= j < i + 1 && (#[trigger] self@.orders[j]).market == market) by {
                    lemma_push_contains(before, item, market);
                }
            }
            i = i + 1;
        }
        r
    }

    /// The cancellations that are due for another attempt.
    pub fn retry_pending_cancels(&self, now: u64) -> (r: Vec<PendingCancelRetry>)
        ensures
            retries(r@) == self@.pending.filter(due_at(now as int)),
    {
        let ghost all = self@.pending;
        let ghost p = due_at(now as int);
        let mut r: Vec<PendingCancelRetry> = Vec::new();
        let mut i: usize = 0;
        while i < self.pending_cancel_retries.len()
            invariant
                i <= self.pending_cancel_retries.len(),
                all == self@.pending,
                p == due_at(now as int),
                retries(r@) == all.take(i as int).filter(p),
            decreases self.pending_cancel_retries.len() - i,
        {
            let ghost before = retries(r@);
            assert(all[i as int] == self.pending_cancel_retries@[i as int]@);
            proof {
                lemma_filter_step(all, i as int, p);
            }
            if instant_age_at_least(
                now,
                self.pending_cancel_retries[i].last_attempted_at,
                PENDING_CANCEL_RETRY_BACKOFF_MS,
            ) {
                r.push(self.pending_cancel_retries[i].clone());
                assert(retries(r@) =~= before.push(all[i as int]));
            }
            i = i + 1;
        }
        assert(all.take(i as int) =~= all);
        r
    }

    /// Takes up an order as if it had just been placed.
    pub fn seed_live_order_for_test(&mut self, order: TrackedOrder)
        ensures
            final(self)@ == old(self)@.with_order(order@.condition_id, order@).with_leg(
                order@.condition_id,
                order@.leg,
            ),
            old(self)@.well_formed() ==> final(self)@.well_formed(),
    {
        let condition_id = order.condition_id.clone();
        let leg = order.leg;
        self.file_order(condition_id.as_str(), order);
        self.remember_exchange_leg(condition_id.as_str(), leg);
    }

    /// Takes up a first unconfirmed attempt at cancelling an order.
    pub fn seed_pending_cancel_for_test(
        &mut self,
        order: TrackedOrder,
        reason_code: CancelReasonCode,
        origin: &str,
        now: u64,
    )
        requires
            old(self)@.well_formed(),
        ensures
            final(self)@ == old(self)@.without_pending(order@.order_id).cancel_pending(
                order@,
                reason_code,
                origin@,
                now as int,
            ),
            final(self)@.well_formed(),
    {
        self.remove_pending(order.order_id.as_str());
        proof {
            let id = order@.order_id;
            let before = old(self)@.pending;
            lemma_find(before, pending_with_id(id));
            lemma_find(self@.pending, pending_with_id(id));
        }
        self.record_pending_cancel(&order, reason_code, origin, now);
    }
}

pub open spec fn due_at(now: int) -> spec_fn(PendingView) -> bool {
    |p: PendingView| aged(now, p.last_attempted_at, PENDING_CANCEL_RETRY_BACKOFF_MS as int)
}

impl OrdersView {
    /// Nothing in the money for hedges is too large for a decimal.
    pub open spec fn hedge_money_fits(self) -> bool {
        exposure_fits(self.orders) && difference_fits(self.gross, buy_exposure(self.orders))
    }

    /// Nothing in the budget is too large for a decimal.
    pub open spec fn budget_fits(self) -> bool {
        self.hedge_money_fits() && difference_fits(
            difference(self.gross, buy_exposure(self.orders)),
            self.reserve,
        )
    }

    /// USDC that is free for hedges: what the bids leave of the balance.
    pub open spec fn hedge_money(self) -> int {
        max_of(difference(self.gross, buy_exposure(self.orders)), 0)
    }

    pub open spec fn budget(self) -> int {
        max_of(difference(difference(self.gross, buy_exposure(self.orders)), self.reserve), 0)
    }
}

proof fn lemma_filter_keeps_unique(s: Seq<CancelledView>, p: spec_fn(CancelledView) -> bool)
    requires
        forall|i: int, j: int|
            0 <= i < j < s.len() ==> (#[trigger] s[i]).order.order_id != (
            #[trigger] s[j]).order.order_id,
    ensures
        forall|i: int, j: int|
            0 <= i < j < s.filter(p).len() ==> (#[trigger] s.filter(p)[i]).order.order_id != (
            #[trigger] s.filter(p)[j]).order.order_id,
    decreases s.len(),
{
    reveal_with_fuel(Seq::filter, 2);
    if s.len() > 0 {
        let rest = s.drop_last();
        lemma_filter_keeps_unique(rest, p);
        rest.filter_lemma(p);
        assert forall|i: int| 0 <= i < rest.filter(p).len() implies (
        #[trigger] rest.filter(p)[i]).order.order_id != s.last().order.order_id by {
            assert(rest.filter(p).contains(rest.filter(p)[i]));
            rest.lemma_filter_contains_rev(p, rest.filter(p)[i]);
        }
    }
}

/// More than one live bid on one leg of a market.
#[derive(Debug)]
pub struct DuplicateLiveBidLeg {
    pub condition_id: String,
    pub leg: QuoteLeg,
    pub order_ids: Vec<String>,
}

/// Market, leg and order id of a live bid.
#[derive(Debug)]
pub struct LiveBid {
    pub condition_id: String,
    pub leg: QuoteLeg,
    pub id: String,
}

pub struct LiveBidView {
    pub condition_id: Seq<char>,
    pub leg: QuoteLeg,
    pub id: Seq<char>,
}

impl View for LiveBid {
    type V = LiveBidView;

    open spec fn view(&self) -> LiveBidView {
        LiveBidView { condition_id: self.condition_id@, leg: self.leg, id: self.id@ }
    }
}

pub open spec fn live_bid_views(s: Seq<LiveBid>) -> Seq<LiveBidView> {
    s.map_values(|b: LiveBid| b@)
}

pub open spec fn leg_of(outcome: Outcome, side: Side) -> QuoteLeg {
    match (outcome, side) {
        (Outcome::Yes, Side::Buy) => QuoteLeg::YesBid,
        (Outcome::Yes, Side::Sell) => QuoteLeg::YesAsk,
        (Outcome::No, Side::Buy) => QuoteLeg::NoBid,
        (Outcome::No, Side::Sell) => QuoteLeg::NoAsk,
    }
}

pub fn quote_leg_from_live_order(order: &LiveOrder) -> (r: QuoteLeg)
    ensures
        r == leg_of(order.outcome, order.side),
{
    match (order.outcome, order.side) {
        (Outcome::Yes, Side::Buy) => QuoteLeg::YesBid,
        (Outcome::Yes, Side::Sell) => QuoteLeg::YesAsk,
        (Outcome::No, Side::Buy) => QuoteLeg::NoBid,
        (Outcome::No, Side::Sell) => QuoteLeg::NoAsk,
    }
}

pub open spec fn bid_of(o: LiveOrder) -> LiveBidView {
    LiveBidView { condition_id: o.condition_id@, leg: leg_of(o.outcome, o.side), id: o.id@ }
}

/// The bids among some orders.
pub open spec fn bids_among(s: Seq<LiveOrder>) -> Seq<LiveBidView> {
    s.filter(|o: LiveOrder| o.side == Side::Buy).map_values(|o: LiveOrder| bid_of(o))
}

pub open spec fn bid_on(condition_id: Seq<char>, leg: QuoteLeg) -> spec_fn(LiveBidView) -> bool {
    |b: LiveBidView| b.condition_id == condition_id && b.leg == leg
}

/// Ids of the bids on a leg.
pub open spec fn ids_on(bids: Seq<LiveBidView>, condition_id: Seq<char>, leg: QuoteLeg) -> Seq<
    Seq<char>,
> {
    bids.filter(bid_on(condition_id, leg)).map_values(|b: LiveBidView| b.id)
}

/// `d` comes before `e`: by market, then NO before YES.
pub open spec fn duplicate_before(d: DuplicateLiveBidLeg, e: DuplicateLiveBidLeg) -> bool {
    if d.condition_id@ == e.condition_id@ {
        d.leg == QuoteLeg::NoBid && e.leg == QuoteLeg::YesBid
    } else {
        text_le(d.condition_id@, e.condition_id@)
    }
}

/// `d` lists the ids of more than one bid on a leg, sorted.
pub open spec fn lists_duplicates(bids: Seq<LiveBidView>, d: DuplicateLiveBidLeg) -> bool {
    let ids = ids_on(bids, d.condition_id@, d.leg);
    &&& d.leg.bids()
    &&& ids.len() > 1
    &&& texts_sorted(texts(d.order_ids@))
    &&& texts(d.order_ids@).to_multiset() == ids.to_multiset()
}

/// `r` lists, in order, every leg with more than one bid.
pub open spec fn all_duplicates(bids: Seq<LiveBidView>, r: Seq<DuplicateLiveBidLeg>) -> bool {
    &&& forall|i: int| 0 <= i < r.len() ==> lists_duplicates(bids, #[trigger] r[i])
    &&& forall|i: int, j: int| 0 <= i < j < r.len() ==> #[trigger] duplicate_before(r[i], r[j])
    &&& forall|condition_id: Seq<char>, leg: QuoteLeg|
        #![trigger ids_on(bids, condition_id, leg)]
        leg.bids() && ids_on(bids, condition_id, leg).len() > 1 ==> exists|i: int|
            0 <= i < r.len() && (#[trigger] r[i]).condition_id@ == condition_id && r[i].leg == leg
}

fn ids_of_leg(bids: &Vec<LiveBid>, condition_id: &str, leg: QuoteLeg) -> (r: Vec<String>)
    ensures
        texts(r@) == ids_on(live_bid_views(bids@), condition_id@, leg),
{
    let ghost all = live_bid_views(bids@);
    let ghost p = bid_on(condition_id@, leg);
    let ghost f = |b: LiveBidView| b.id;
    let mut r: Vec<String> = Vec::new();
    let mut i: usize = 0;
    assert(texts(r@) =~= all.take(0).filter(p).map_values(f));
    while i < bids.len()
        invariant
            i <= bids.len(),
            all == live_bid_views(bids@),
            p == bid_on(condition_id@, leg),
            f == (|b: LiveBidView| b.id),
            texts(r@) == all.take(i as int).filter(p).map_values(f),
        decreases bids.len() - i,
    {
        let ghost before = texts(r@);
        let ghost filtered = all.take(i as int).filter(p);
        assert(all[i as int] == bids@[i as int]@);
        proof {
            lemma_filter_step(all, i as int, p);
        }
        if same_text(bids[i].condition_id.as_str(), condition_id) && bids[i].leg == leg {
            r.push(bids[i].id.clone());
            assert(texts(r@) =~= before.push(all[i as int].id));
            assert(filtered.push(all[i as int]).map_values(f) =~= filtered.map_values(f).push(
                all[i as int].id,
            ));
        }
        i = i + 1;
    }
    assert(all.take(i as int) =~= all);
    r
}

/// Whether a leg is listed already.
fn leg_listed(r: &Vec<DuplicateLiveBidLeg>, condition_id: &str, leg: QuoteLeg) -> (b: bool)
    ensures
        b == (exists|i: int|
            0 <= i < r@.len() && (#[trigger] r@[i]).condition_id@ == condition_id@ && r@[i].leg
                == leg),
{
    let mut i: usize = 0;
    while i < r.len()
        invariant
            i <= r.len(),
            forall|j: int|
                0 <= j < i ==> !((#[trigger] r@[j]).condition_id@ == condition_id@ && r@[j].leg
                    == leg),
        decreases r.len() - i,
    {
        if same_text(r[i].condition_id.as_str(), condition_id) && r[i].leg == leg {
            return true;
        }
        i = i + 1;
    }
    false
}

fn comes_before(d: &DuplicateLiveBidLeg, e: &DuplicateLiveBidLeg) -> (r: bool)
    ensures
        r == duplicate_before(*d, *e),
{
    if same_text(d.condition_id.as_str(), e.condition_id.as_str()) {
        d.leg == QuoteLeg::NoBid && e.leg == QuoteLeg::YesBid
    } else {
        text_not_after(d.condition_id.as_str(), e.condition_id.as_str())
    }
}

proof fn lemma_duplicate_order(
    a: DuplicateLiveBidLeg,
    b: DuplicateLiveBidLeg,
    c: DuplicateLiveBidLeg,
)
    requires
        a.leg.bids() && b.leg.bids() && c.leg.bids(),
    ensures
        duplicate_before(a, b) && duplicate_before(b, c) ==> duplicate_before(a, c),
        duplicate_before(a, b) || duplicate_before(b, a) || (a.condition_id@ == b.condition_id@
            && a.leg == b.leg),
{
    lemma_text_le_total(a.condition_id@, b.condition_id@);
    if duplicate_before(a, b) && duplicate_before(b, c) {
        if a.condition_id@ != b.condition_id@ && b.condition_id@ != c.condition_id@ {
            lemma_text_le_transitive(a.condition_id@, b.condition_id@, c.condition_id@);
            lemma_text_le_total(b.condition_id@, c.condition_id@);
        }
    }
}

fn insert_duplicate(r: &mut Vec<DuplicateLiveBidLeg>, d: DuplicateLiveBidLeg)
    requires
        d.leg.bids(),
        forall|i: int| 0 <= i < old(r)@.len() ==> (#[trigger] old(r)@[i]).leg.bids(),
        forall|i: int, j: int|
            0 <= i < j < old(r)@.len() ==> #[trigger] duplicate_before(old(r)@[i], old(r)@[j]),
        forall|i: int|
            0 <= i < old(r)@.len() ==> !((#[trigger] old(r)@[i]).condition_id@ == d.condition_id@
                && old(r)@[i].leg == d.leg),
    ensures
        exists|k: int| 0 <= k <= old(r)@.len() && final(r)@ == #[trigger] old(r)@.insert(k, d),
        forall|i: int, j: int|
            0 <= i < j < final(r)@.len() ==> #[trigger] duplicate_before(
                final(r)@[i],
                final(r)@[j],
            ),
{
    let ghost before = r@;
    let ghost item = d;
    let len: usize = r.len();
    let mut k: usize = 0;
    while k < len && comes_before(&r[k], &d)
        invariant
            k <= len,
            len == r.len(),
            before == r@,
            item == d,
            forall|j: int| 0 <= j < k ==> duplicate_before(#[trigger] before[j], item),
        decreases len - k,
    {
        k = k + 1;
    }
    r.insert(k, d);
    proof {
        assert(r@ == before.insert(k as int, item));
        assert forall|j: int| k <= j < len implies duplicate_before(item, #[trigger] before[j]) by {
            lemma_duplicate_order(before[k as int], item, item);
            if j > k {
                assert(duplicate_before(before[k as int], before[j]));
                lemma_duplicate_order(item, before[k as int], before[j]);
            }
        }
        assert forall|i: int, j: int| 0 <= i < j < r@.len() implies #[trigger] duplicate_before(
            r@[i],
            r@[j],
        ) by {
            if i < k && j < k {
                assert(duplicate_before(before[i], before[j]));
            } else if i < k && j == k {
                assert(duplicate_before(before[i], item));
            } else if i < k {
                assert(duplicate_before(before[i], before[j - 1]));
            } else if i == k {
                assert(duplicate_before(item, before[j - 1]));
            } else {
                assert(duplicate_before(before[i - 1], before[j - 1]));
            }
        }
    }
}

/// The legs with more than one of these bids.
#[verifier::spinoff_prover]
#[verifier::rlimit(40)]
fn duplicate_legs(bids: &Vec<LiveBid>) -> (r: Vec<DuplicateLiveBidLeg>)
    requires
        forall|i: int| 0 <= i < bids@.len() ==> (#[trigger] bids@[i]).leg.bids(),
    ensures
        all_duplicates(live_bid_views(bids@), r@),
{
    let ghost all = live_bid_views(bids@);
    let mut r: Vec<DuplicateLiveBidLeg> = Vec::new();
    let mut i: usize = 0;
    while i < bids.len()
        invariant
            i <= bids.len(),
            all == live_bid_views(bids@),
            forall|i: int| 0 <= i < bids@.len() ==> (#[trigger] bids@[i]).leg.bids(),
            forall|k: int| 0 <= k < r@.len() ==> lists_duplicates(all, #[trigger] r@[k]),
            forall|k: int, j: int|
                0 <= k < j < r@.len() ==> #[trigger] duplicate_before(r@[k], r@[j]),
            forall|j: int|
                0 <= j < i && ids_on(
                    all,
                    (#[trigger] all[j]).condition_id,
                    all[j].leg,
                ).len() > 1 ==> exists|k: int|
                    0 <= k < r@.len() && (#[trigger] r@[k]).condition_id@ == all[j].condition_id
                        && r@[k].leg == all[j].leg,
        decreases bids.len() - i,
    {
        let ghost before = r@;
        let leg = bids[i].leg;
        assert(all[i as int] == bids@[i as int]@);
        if !leg_listed(&r, bids[i].condition_id.as_str(), leg) {
            let ids = ids_of_leg(bids, bids[i].condition_id.as_str(), leg);
            assert(texts(ids@).len() == ids@.len());
            if ids.len() > 1 {
                let order_ids = sorted_texts(&ids);
                let d = DuplicateLiveBidLeg {
                    condition_id: bids[i].condition_id.clone(),
                    leg,
                    order_ids,
                };
                let ghost item = d;
                insert_duplicate(&mut r, d);
                proof {
                    let at = choose|k: int|
                        0 <= k <= before.len() && r@ == #[trigger] before.insert(k, item);
                    assert(r@[at] == item);
                    assert forall|k: int|
                        #![trigger before[k]]
                        0 <= k < before.len() implies exists|m: int|
                        0 <= m < r@.len() && #[trigger] r@[m] == before[k] by {
                        if k < at {
                            assert(r@[k] == before[k]);
                        } else {
                            assert(r@[k + 1] == before[k]);
                        }
                    }
                    assert forall|k: int| 0 <= k < r@.len() implies lists_duplicates(
                        all,
                        #[trigger] r@[k],
                    ) by {
                        if k < at {
                            assert(r@[k] == before[k]);
                        } else if k > at {
                            assert(r@[k] == before[k - 1]);
                        }
                    }
                    assert forall|j: int|
                        0 <= j < i + 1 && ids_on(
                            all,
                            (#[trigger] all[j]).condition_id,
                            all[j].leg,
                        ).len() > 1 implies exists|k: int|
                        0 <= k < r@.len() && (#[trigger] r@[k]).condition_id@ == all[j].condition_id
                            && r@[k].leg == all[j].leg by {
                        if j == i {
                            assert(r@[at].condition_id@ == all[j].condition_id);
                        } else {
                            let k0 = choose|k: int|
                                0 <= k < before.len() && (#[trigger] before[k]).condition_id@
                                    == all[j].condition_id && before[k].leg == all[j].leg;
                            let m = choose|m: int|
                                0 <= m < r@.len() && #[trigger] r@[m] == before[k0];
                            assert(r@[m].condition_id@ == all[j].condition_id);
                        }
                    }
                }
            }
        }
        i = i + 1;
    }
    proof {
        assert forall|condition_id: Seq<char>, leg: QuoteLeg|
            #![trigger ids_on(all, condition_id, leg)]
            leg.bids() && ids_on(all, condition_id, leg).len() > 1 implies exists|k: int|
            0 <= k < r@.len() && (#[trigger] r@[k]).condition_id@ == condition_id && r@[k].leg
                == leg by {
            let p = bid_on(condition_id, leg);
            let kept = all.filter(p);
            assert(kept.len() > 1);
            assert(kept.contains(kept[0]));
            all.lemma_filter_contains_rev(p, kept[0]);
            all.lemma_filter_pred(p, 0);
            let j = choose|j: int| 0 <= j < all.len() && all[j] == kept[0];
            assert(all[j].condition_id == condition_id);
        }
    }
    r
}

/// The legs with more than one live bid, which ought not to exist.
pub fn detect_duplicate_live_bid_legs(live_orders: &[LiveOrder]) -> (r: Vec<DuplicateLiveBidLeg>)
    ensures
        all_duplicates(bids_among(live_orders@), r@),
{
    let ghost all = live_orders@;
    let ghost p = |o: LiveOrder| o.side == Side::Buy;
    let ghost f = |o: LiveOrder| bid_of(o);
    let mut bids: Vec<LiveBid> = Vec::new();
    let len: usize = live_orders.len();
    let mut i: usize = 0;
    assert(live_bid_views(bids@) =~= all.take(0).filter(p).map_values(f));
    while i < len
        invariant
            i <= len,
            len == live_orders@.len(),
            all == live_orders@,
            p == (|o: LiveOrder| o.side == Side::Buy),
            f == (|o: LiveOrder| bid_of(o)),
            live_bid_views(bids@) == all.take(i as int).filter(p).map_values(f),
            forall|k: int| 0 <= k < bids@.len() ==> (#[trigger] bids@[k]).leg.bids(),
        decreases len - i,
    {
        let ghost before = live_bid_views(bids@);
        let ghost filtered = all.take(i as int).filter(p);
        proof {
            lemma_filter_step(all, i as int, p);
        }
        let order = &live_orders[i];
        if order.side == Side::Buy {
            let bid = LiveBid {
                condition_id: order.condition_id.clone(),
                leg: quote_leg_from_live_order(order),
                id: order.id.clone(),
            };
            bids.push(bid);
            assert(live_bid_views(bids@) =~= before.push(bid_of(all[i as int])));
            assert(filtered.push(all[i as int]).map_values(f) =~= filtered.map_values(f).push(
                bid_of(all[i as int]),
            ));
        }
        i = i + 1;
    }
    assert(all.take(i as int) =~= all);
    duplicate_legs(&bids)
}

} // verus!
