//! Bringing the tracked orders in line with what the exchange reports.

use crate::decimal::{difference, max_value, Decimal};
use crate::keyed::{find, lemma_find};
use crate::models::{CanonicalMarket, LiveOrder, OrderStatus, QuoteLeg, Side};
use crate::text::{contains_text, same_text, texts};
use crate::trading::order_manager::placement::{
    build_tracked_order, fresh_trace_id, is_uuid_text,
};
use crate::trading::order_manager::{
    all_duplicates, bid_of, duplicate_legs, entries, entry_at, entry_with_id, leg_of,
    lemma_filter_step, live_bid_views, quote_leg_from_live_order, retries, DuplicateLiveBidLeg, EntryView,
    LiveBid, LiveBidView, MarketOrder, OrderManager, OrdersView, PendingCancelRetry, PendingView,
    TrackedOrder, TrackedView,
};
use vstd::prelude::*;

pub mod laws;

verus! {

/// What a sync of all markets found.
#[derive(Debug)]
pub struct OpenOrderSyncResult {
    pub fetched: usize,
    pub live: usize,
    pub imported: usize,
    pub already_tracked: usize,
    pub updated: usize,
    pub duplicate_live_bid_legs: Vec<DuplicateLiveBidLeg>,
}

/// Whether orders that the exchange no longer reports are dropped.
#[derive(Clone, Copy, Debug, PartialEq, Eq, Structural)]
pub enum MarketOrderSyncMode {
    ObserveOnly,
    Reconcile,
}

/// What a sync of one market found.
#[derive(Debug)]
pub struct MarketOrderSyncResult {
    pub fetched: usize,
    pub live: usize,
    pub imported: usize,
    pub already_tracked: usize,
    pub updated: usize,
    pub pruned: usize,
    pub missing_order_ids: Vec<String>,
    pub duplicate_live_bid_legs: Vec<DuplicateLiveBidLeg>,
}

/// Open shares of an order.
pub open spec fn open_shares(o: LiveOrder) -> int {
    difference(o.original_size@, o.size_matched@)
}

/// The order rests on the exchange.
pub open spec fn rests(o: LiveOrder) -> bool {
    o.status == OrderStatus::Live && open_shares(o) > 0
}

/// What an order needs to be known of its market.
pub struct MarketTerms {
    pub neg_risk: bool,
    pub tick_size: Seq<char>,
    pub opposite_token_id: Seq<char>,
}

pub open spec fn opposite_token(asset_id: Seq<char>, market: CanonicalMarket) -> Seq<char> {
    if asset_id == market.yes_token_id@ {
        market.no_token_id@
    } else {
        market.yes_token_id@
    }
}

pub open spec fn terms_in(asset_id: Seq<char>, market: CanonicalMarket) -> MarketTerms {
    MarketTerms {
        neg_risk: market.neg_risk,
        tick_size: market.tick_size@,
        opposite_token_id: opposite_token(asset_id, market),
    }
}

/// Terms for an order, by the last of the known markets that it names; defaults where the market
/// is not known, so that capital accounting is always correct.
pub open spec fn terms_among(o: LiveOrder, markets: Seq<CanonicalMarket>) -> MarketTerms
    decreases markets.len(),
{
    if markets.len() == 0 {
        MarketTerms { neg_risk: false, tick_size: "0.01"@, opposite_token_id: Seq::empty() }
    } else if markets.last().condition_id@ == o.condition_id@ {
        terms_in(o.asset_id@, markets.last())
    } else {
        terms_among(o, markets.drop_last())
    }
}

/// An order that the exchange reports, as it is tracked from then on.
pub open spec fn import_of(o: LiveOrder, terms: MarketTerms, trace_id: Seq<char>) -> TrackedView {
    TrackedView {
        order_id: o.id@,
        trace_id,
        condition_id: o.condition_id@,
        created_at: o.created_at,
        leg: leg_of(o.outcome, o.side),
        token_id: o.asset_id@,
        opposite_token_id: terms.opposite_token_id,
        side: o.side,
        price: o.price@,
        size: open_shares(o),
        matched_size: o.size_matched@,
        neg_risk: terms.neg_risk,
        tick_size: terms.tick_size,
    }
}

/// How far a sync has come: the active orders, the live bids met, and the counts.
pub struct SyncState {
    pub orders: Seq<EntryView>,
    pub legs: Set<(Seq<char>, QuoteLeg)>,
    pub ids: Seq<Seq<char>>,
    pub bids: Seq<LiveBidView>,
    pub live: int,
    pub imported: int,
    pub already: int,
    pub updated: int,
}

pub open spec fn sync_start(orders: Seq<EntryView>) -> SyncState {
    SyncState {
        orders,
        legs: Set::empty(),
        ids: Seq::empty(),
        bids: Seq::empty(),
        live: 0,
        imported: 0,
        already: 0,
        updated: 0,
    }
}

/// One resting order taken up: the tracked order at `at` follows it, or it is filed under
/// `market` where there is none.
pub open spec fn sync_step(
    st: SyncState,
    o: LiveOrder,
    at: Option<int>,
    market: Seq<char>,
    order: TrackedView,
) -> SyncState {
    let met = SyncState {
        legs: st.legs.insert((market, order.leg)),
        ids: st.ids.push(o.id@),
        bids: if o.side == Side::Buy {
            st.bids.push(bid_of(o))
        } else {
            st.bids
        },
        live: st.live + 1,
        ..st
    };
    match at {
        Some(i) => {
            let e = st.orders[i];
            if e.order.size != order.size || e.order.matched_size != order.matched_size {
                SyncState {
                    orders: st.orders.update(
                        i,
                        EntryView {
                            order: TrackedView {
                                price: order.price,
                                size: order.size,
                                matched_size: order.matched_size,
                                ..e.order
                            },
                            ..e
                        },
                    ),
                    updated: met.updated + 1,
                    ..met
                }
            } else {
                SyncState { already: met.already + 1, ..met }
            }
        },
        None => SyncState {
            orders: st.orders.push(EntryView { market, order }),
            imported: met.imported + 1,
            ..met
        },
    }
}

/// The state after all of these orders, imported ones traced by `traces`.
pub open spec fn synced_all(
    orders: Seq<EntryView>,
    fetched: Seq<LiveOrder>,
    markets: Seq<CanonicalMarket>,
    traces: Seq<Seq<char>>,
) -> SyncState
    decreases fetched.len(),
{
    if fetched.len() == 0 {
        sync_start(orders)
    } else {
        let st = synced_all(orders, fetched.drop_last(), markets, traces);
        let o = fetched.last();
        if rests(o) {
            sync_step(
                st,
                o,
                find(st.orders, entry_with_id(o.id@)),
                o.condition_id@,
                import_of(o, terms_among(o, markets), traces[fetched.len() - 1]),
            )
        } else {
            st
        }
    }
}

/// The state after all of these orders were taken up for one market.
pub open spec fn synced_market(
    orders: Seq<EntryView>,
    fetched: Seq<LiveOrder>,
    market: Seq<char>,
    meta: CanonicalMarket,
    traces: Seq<Seq<char>>,
) -> SyncState
    decreases fetched.len(),
{
    if fetched.len() == 0 {
        sync_start(orders)
    } else {
        let st = synced_market(orders, fetched.drop_last(), market, meta, traces);
        let o = fetched.last();
        if rests(o) {
            sync_step(
                st,
                o,
                find(st.orders, entry_at(market, o.id@)),
                market,
                import_of(o, terms_in(o.asset_id@, meta), traces[fetched.len() - 1]),
            )
        } else {
            st
        }
    }
}

/// Sizes of the fetched orders can be subtracted.
pub open spec fn sizes_in_range(fetched: Seq<LiveOrder>) -> bool {
    forall|i: int|
        0 <= i < fetched.len() ==> -max_value() <= (#[trigger] fetched[i]).original_size@
            - fetched[i].size_matched@ <= max_value()
}

/// Token of the other outcome.
pub fn opposite_token_id_for_order(order: &LiveOrder, market_meta: &CanonicalMarket) -> (r: String)
    ensures
        r@ == opposite_token(order.asset_id@, *market_meta),
{
    if same_text(order.asset_id.as_str(), market_meta.yes_token_id.as_str()) {
        market_meta.no_token_id.clone()
    } else {
        market_meta.yes_token_id.clone()
    }
}

/// An order that the exchange reports, as it is tracked from then on.
pub fn tracked_order_from_live_order(
    order: &LiveOrder,
    leg: QuoteLeg,
    opposite_token_id: String,
    neg_risk: bool,
    tick_size: String,
    remaining_size: Decimal,
    trace_id: String,
) -> (r: TrackedOrder)
    ensures
        r@ == (TrackedView {
            order_id: order.id@,
            trace_id: trace_id@,
            condition_id: order.condition_id@,
            created_at: order.created_at,
            leg,
            token_id: order.asset_id@,
            opposite_token_id: opposite_token_id@,
            side: order.side,
            price: order.price@,
            size: remaining_size@,
            matched_size: order.size_matched@,
            neg_risk,
            tick_size: tick_size@,
        }),
{
    build_tracked_order(
        order.id.clone(),
        trace_id,
        order.created_at,
        order.condition_id.clone(),
        leg,
        order.asset_id.clone(),
        opposite_token_id,
        order.side,
        order.price,
        remaining_size,
        order.size_matched,
        neg_risk,
        tick_size,
    )
}

/// Every order that is taken up has a trace id.
pub open spec fn traces_orders(traces: Seq<Seq<char>>, fetched: Seq<LiveOrder>) -> bool {
    &&& traces.len() == fetched.len()
    &&& forall|i: int|
        0 <= i < traces.len() ==> is_uuid_text(#[trigger] traces[i]) || fetched[i].status
            != OrderStatus::Live || difference(
            fetched[i].original_size@,
            fetched[i].size_matched@,
        ) <= 0
}

/// A sync of all markets turned `before` into `after` and reports `r`.
pub open spec fn syncs_all(
    before: OrdersView,
    after: OrdersView,
    fetched: Seq<LiveOrder>,
    markets: Seq<CanonicalMarket>,
    traces: Seq<Seq<char>>,
    r: OpenOrderSyncResult,
) -> bool {
    let st = synced_all(before.orders, fetched, markets, traces);
    &&& traces_orders(traces, fetched)
    &&& after == (OrdersView { orders: st.orders, legs: before.legs.union(st.legs), ..before })
    &&& r.fetched == fetched.len()
    &&& r.live == st.live
    &&& r.imported == st.imported
    &&& r.already_tracked == st.already
    &&& r.updated == st.updated
    &&& all_duplicates(st.bids, r.duplicate_live_bid_legs@)
}

/// Entries filed under `market` that are not among the live ids.
pub open spec fn missing_from(market: Seq<char>, ids: Seq<Seq<char>>) -> spec_fn(EntryView) -> bool {
    |e: EntryView| e.market == market && !ids.contains(e.order.order_id)
}

pub open spec fn not_missing_from(market: Seq<char>, ids: Seq<Seq<char>>) -> spec_fn(
    EntryView,
) -> bool {
    |e: EntryView| !(e.market == market && !ids.contains(e.order.order_id))
}

pub open spec fn not_among(ids: Seq<Seq<char>>) -> spec_fn(PendingView) -> bool {
    |p: PendingView| !ids.contains(p.order.order_id)
}

pub open spec fn on_other_market(market: Seq<char>) -> spec_fn((Seq<char>, QuoteLeg)) -> bool {
    |p: (Seq<char>, QuoteLeg)| p.0 != market
}

pub open spec fn ids_of(s: Seq<EntryView>) -> Seq<Seq<char>> {
    s.map_values(|e: EntryView| e.order.order_id)
}

/// A sync of one market turned `before` into `after` and reports `r`.
pub open spec fn syncs_market(
    before: OrdersView,
    after: OrdersView,
    fetched: Seq<LiveOrder>,
    market: Seq<char>,
    meta: CanonicalMarket,
    mode: MarketOrderSyncMode,
    traces: Seq<Seq<char>>,
    r: MarketOrderSyncResult,
) -> bool {
    let st = synced_market(before.orders, fetched, market, meta, traces);
    let missing = ids_of(st.orders.filter(missing_from(market, st.ids)));
    let prune = mode == MarketOrderSyncMode::Reconcile;
    &&& traces_orders(traces, fetched)
    &&& after.orders == if prune {
        st.orders.filter(not_missing_from(market, st.ids))
    } else {
        st.orders
    }
    &&& after.pending == if prune {
        before.pending.filter(not_among(missing))
    } else {
        before.pending
    }
    &&& after.legs == before.legs.filter(on_other_market(market)).union(st.legs)
    &&& after.recent == before.recent
    &&& after.gross == before.gross
    &&& after.reserve == before.reserve
    &&& r.fetched == fetched.len()
    &&& r.live == st.live
    &&& r.imported == st.imported
    &&& r.already_tracked == st.already
    &&& r.updated == st.updated
    &&& r.pruned == if prune {
        missing.len()
    } else {
        0
    }
    &&& texts(r.missing_order_ids@) == missing
    &&& all_duplicates(st.bids, r.duplicate_live_bid_legs@)
}

proof fn lemma_traces_all(
    orders: Seq<EntryView>,
    fetched: Seq<LiveOrder>,
    markets: Seq<CanonicalMarket>,
    traces: Seq<Seq<char>>,
    more: Seq<char>,
)
    requires
        fetched.len() <= traces.len(),
    ensures
        synced_all(orders, fetched, markets, traces.push(more)) == synced_all(
            orders,
            fetched,
            markets,
            traces,
        ),
    decreases fetched.len(),
{
    if fetched.len() > 0 {
        lemma_traces_all(orders, fetched.drop_last(), markets, traces, more);
        assert(traces.push(more)[fetched.len() - 1] == traces[fetched.len() - 1]);
    }
}

proof fn lemma_traces_market(
    orders: Seq<EntryView>,
    fetched: Seq<LiveOrder>,
    market: Seq<char>,
    meta: CanonicalMarket,
    traces: Seq<Seq<char>>,
    more: Seq<char>,
)
    requires
        fetched.len() <= traces.len(),
    ensures
        synced_market(orders, fetched, market, meta, traces.push(more)) == synced_market(
            orders,
            fetched,
            market,
            meta,
            traces,
        ),
    decreases fetched.len(),
{
    if fetched.len() > 0 {
        lemma_traces_market(orders, fetched.drop_last(), market, meta, traces, more);
        assert(traces.push(more)[fetched.len() - 1] == traces[fetched.len() - 1]);
    }
}

spec fn spot_of(at: Option<usize>) -> Option<int> {
    match at {
        Some(i) => Some(i as int),
        None => None,
    }
}

/// What became of a resting order in a sync.
enum Absorbed {
    Imported,
    AlreadyTracked,
    Updated,
}

impl OrderManager {
    /// Lets the tracked order at `at` follow `order`, or files `order` where there is none.
    fn absorb(&mut self, o: &LiveOrder, at: Option<usize>, market: &str, order: TrackedOrder) -> (r:
        Absorbed)
        requires
            at is Some ==> at->0 < old(self)@.orders.len(),
            old(self)@.well_formed(),
            at is None ==> forall|i: int|
                0 <= i < old(self)@.orders.len() ==> !((#[trigger] old(self)@.orders[i]).market
                    == market@ && old(self)@.orders[i].order.order_id == order@.order_id),
        ensures
            ({
                let next = sync_step(
                    sync_start(old(self)@.orders),
                    *o,
                    spot_of(at),
                    market@,
                    order@,
                );
                &&& final(self)@ == (OrdersView { orders: next.orders, ..old(self)@ })
                &&& r is Imported == (next.imported == 1)
                &&& r is AlreadyTracked == (next.already == 1)
                &&& r is Updated == (next.updated == 1)
            }),
            final(self)@.well_formed(),
    {
        let ghost before = self@.orders;
        let ghost view = order@;
        match at {
            Some(i) => {
                assert(before[i as int] == self.orders@[i as int]@);
                if self.orders[i].order.size != order.size || self.orders[i].order.matched_size
                    != order.matched_size {
                    let mut existing = self.orders[i].order.clone();
                    let filed = self.orders[i].market.clone();
                    existing.price = order.price;
                    existing.size = order.size;
                    existing.matched_size = order.matched_size;
                    let entry = MarketOrder { market: filed, order: existing };
                    let ghost item = entry@;
                    self.orders.set(i, entry);
                    assert(self@.orders =~= before.update(i as int, item));
                    Absorbed::Updated
                } else {
                    Absorbed::AlreadyTracked
                }
            },
            None => {
                self.orders.push(MarketOrder { market: market.to_owned(), order });
                assert(self@.orders =~= before.push(EntryView { market: market@, order: view }));
                Absorbed::Imported
            },
        }
    }

    /// Terms for an order: neg risk flag, tick size and token of the other outcome.
    fn terms_for(order: &LiveOrder, markets: &Vec<CanonicalMarket>) -> (r: (bool, String, String))
        ensures
            terms_among(*order, markets@) == (MarketTerms {
                neg_risk: r.0,
                tick_size: r.1@,
                opposite_token_id: r.2@,
            }),
    {
        let ghost all = markets@;
        let mut i: usize = markets.len();
        assert(all.take(i as int) =~= all);
        while i > 0
            invariant
                i <= markets.len(),
                all == markets@,
                terms_among(*order, all) == terms_among(*order, all.take(i as int)),
            decreases i,
        {
            i = i - 1;
            assert(all.take(i + 1).drop_last() =~= all.take(i as int));
            assert(all.take(i + 1).last() == all[i as int]);
            let m = &markets[i];
            if same_text(m.condition_id.as_str(), order.condition_id.as_str()) {
                return (m.neg_risk, m.tick_size.clone(), opposite_token_id_for_order(order, m));
            }
        }
        let none = String::new();
        (false, "0.01".to_owned(), none)
    }

    /// Import existing open orders from the exchange into tracking.
    ///
    /// Called after discovery so the bot is aware of resting orders from prior sessions.
    /// Uses market metadata when available; falls back to defaults for unknown markets
    /// so that capital accounting is always correct.
    pub fn sync_open_orders(&mut self, fetched: &Vec<LiveOrder>, markets: &Vec<CanonicalMarket>) -> (r:
        OpenOrderSyncResult)
        requires
            old(self)@.well_formed(),
            sizes_in_range(fetched@),
        ensures
            exists|traces: Seq<Seq<char>>|
                syncs_all(old(self)@, final(self)@, fetched@, markets@, traces, r),
            final(self)@.well_formed(),
    {
        let ghost mut traces: Seq<Seq<char>> = Seq::empty();
        let ghost start = self@;
        let mut bids: Vec<LiveBid> = Vec::new();
        let mut live: usize = 0;
        let mut imported: usize = 0;
        let mut already_tracked: usize = 0;
        let mut updated: usize = 0;
        let mut i: usize = 0;
        assert(fetched@.take(0) =~= Seq::empty());
        assert(live_bid_views(bids@) =~= Seq::empty());
        assert(start.legs.union(Set::empty()) =~= start.legs);
        while i < fetched.len()
            invariant
                i <= fetched.len(),
                sizes_in_range(fetched@),
                traces_orders(traces, fetched@.take(i as int)),
                self@.well_formed(),
                start == old(self)@,
                ({
                    let st = synced_all(start.orders, fetched@.take(i as int), markets@, traces);
                    &&& self@ == (OrdersView {
                        orders: st.orders,
                        legs: start.legs.union(st.legs),
                        ..start
                    })
                    &&& live_bid_views(bids@) == st.bids
                    &&& live == st.live
                    &&& imported == st.imported
                    &&& already_tracked == st.already
                    &&& updated == st.updated
                }),
                live <= i,
                imported <= i,
                already_tracked <= i,
                updated <= i,
                forall|k: int| 0 <= k < bids@.len() ==> (#[trigger] bids@[k]).leg.bids(),
            decreases fetched.len() - i,
        {
            let o = &fetched[i];
            let ghost st = synced_all(start.orders, fetched@.take(i as int), markets@, traces);
            let ghost bids_before = live_bid_views(bids@);
            let remaining = o.remaining_size();
            let ghost trace_before = traces;
            proof {
                assert(fetched@.take(i + 1).drop_last() =~= fetched@.take(i as int));
                assert(fetched@.take(i + 1).last() == *o);
            }
            if o.status == OrderStatus::Live && remaining > Decimal::zero() {
                let leg = quote_leg_from_live_order(o);
                let (neg_risk, tick_size, opposite_token_id) = OrderManager::terms_for(o, markets);
                let trace_id = fresh_trace_id();
                proof {
                    traces = traces.push(trace_id@);
                    lemma_traces_all(
                        start.orders,
                        fetched@.take(i as int),
                        markets@,
                        trace_before,
                        trace_id@,
                    );
                }
                let order = tracked_order_from_live_order(
                    o,
                    leg,
                    opposite_token_id,
                    neg_risk,
                    tick_size,
                    remaining,
                    trace_id,
                );
                assert(order@ == import_of(*o, terms_among(*o, markets@), traces[i as int]));
                let at = self.find_active(o.id.as_str());
                proof {
                    lemma_find(self@.orders, entry_with_id(o.id@));
                }
                let ghost item = order@;
                let ghost spot = spot_of(at);
                let ghost next = sync_step(st, *o, spot, o.condition_id@, item);
                assert(spot == find(st.orders, entry_with_id(o.id@)));
                assert(next == synced_all(start.orders, fetched@.take(i + 1), markets@, traces));
                match self.absorb(o, at, o.condition_id.as_str(), order) {
                    Absorbed::Imported => {
                        imported = imported + 1;
                    },
                    Absorbed::AlreadyTracked => {
                        already_tracked = already_tracked + 1;
                    },
                    Absorbed::Updated => {
                        updated = updated + 1;
                    },
                }
                live = live + 1;
                self.remember_exchange_leg(o.condition_id.as_str(), leg);
                assert(self@.legs =~= start.legs.union(next.legs));
                if o.side == Side::Buy {
                    let bid = LiveBid {
                        condition_id: o.condition_id.clone(),
                        leg,
                        id: o.id.clone(),
                    };
                    bids.push(bid);
                    assert(live_bid_views(bids@) =~= bids_before.push(bid_of(*o)));
                }
            } else {
                proof {
                    traces = traces.push(Seq::empty());
                    lemma_traces_all(
                        start.orders,
                        fetched@.take(i as int),
                        markets@,
                        trace_before,
                        Seq::empty(),
                    );
                }
            }
            i = i + 1;
        }
        assert(fetched@.take(i as int) =~= fetched@);
        let duplicate_live_bid_legs = duplicate_legs(&bids);
        let r = OpenOrderSyncResult {
            fetched: fetched.len(),
            live,
            imported,
            already_tracked,
            updated,
            duplicate_live_bid_legs,
        };
        assert(syncs_all(start, self@, fetched@, markets@, traces, r));
        r
    }
}

proof fn lemma_filter_entries_unique(s: Seq<EntryView>, p: spec_fn(EntryView) -> bool)
    requires
        forall|i: int, j: int|
            0 <= i < j < s.len() ==> (#[trigger] s[i]).market != (#[trigger] s[j]).market
                || s[i].order.order_id != s[j].order.order_id,
    ensures
        forall|i: int, j: int|
            0 <= i < j < s.filter(p).len() ==> (#[trigger] s.filter(p)[i]).market != (
            #[trigger] s.filter(p)[j]).market || s.filter(p)[i].order.order_id != s.filter(
                p,
            )[j].order.order_id,
    decreases s.len(),
{
    reveal_with_fuel(Seq::filter, 2);
    if s.len() > 0 {
        let rest = s.drop_last();
        lemma_filter_entries_unique(rest, p);
        assert forall|i: int| 0 <= i < rest.filter(p).len() implies (
        #[trigger] rest.filter(p)[i]).market != s.last().market || rest.filter(p)[i].order.order_id
            != s.last().order.order_id by {
            assert(rest.filter(p).contains(rest.filter(p)[i]));
            rest.lemma_filter_contains_rev(p, rest.filter(p)[i]);
        }
    }
}

proof fn lemma_filter_pending_unique(s: Seq<PendingView>, p: spec_fn(PendingView) -> bool)
    requires
        forall|i: int, j: int|
            0 <= i < j < s.len() ==> (#[trigger] s[i]).order.order_id != (
            #[trigger] s[j]).order.order_id,
    ensures
        forall|i: int, j: int|
            0 <= i < j < s.filter(p).len() ==> (#[trigger] s.filter(p)[i]).order.order_id != (
            #[trigger] s.filter(p)[j]).order.order_id,
    decreases s.len(),
{
    reveal_with_fuel(Seq::filter, 2);
    if s.len() > 0 {
        let rest = s.drop_last();
        lemma_filter_pending_unique(rest, p);
        assert forall|i: int| 0 <= i < rest.filter(p).len() implies (
        #[trigger] rest.filter(p)[i]).order.order_id != s.last().order.order_id by {
            assert(rest.filter(p).contains(rest.filter(p)[i]));
            rest.lemma_filter_contains_rev(p, rest.filter(p)[i]);
        }
    }
}

impl OrderManager {
    /// Ids of the orders filed under a market that are not among the live ids.
    fn missing_ids(&self, market: &str, live_ids: &Vec<String>) -> (r: Vec<String>)
        ensures
            texts(r@) == ids_of(self@.orders.filter(missing_from(market@, texts(live_ids@)))),
    {
        let ghost all = self@.orders;
        let ghost p = missing_from(market@, texts(live_ids@));
        let mut r: Vec<String> = Vec::new();
        let mut i: usize = 0;
        assert(texts(r@) =~= ids_of(all.take(0).filter(p)));
        while i < self.orders.len()
            invariant
                i <= self.orders.len(),
                all == self@.orders,
                p == missing_from(market@, texts(live_ids@)),
                texts(r@) == ids_of(all.take(i as int).filter(p)),
            decreases self.orders.len() - i,
        {
            let ghost before = texts(r@);
            let ghost filtered = all.take(i as int).filter(p);
            assert(all[i as int] == self.orders@[i as int]@);
            proof {
                lemma_filter_step(all, i as int, p);
            }
            let e = &self.orders[i];
            if same_text(e.market.as_str(), market) && !contains_text(
                live_ids,
                e.order.order_id.as_str(),
            ) {
                r.push(e.order.order_id.clone());
                assert(texts(r@) =~= before.push(all[i as int].order.order_id));
                assert(ids_of(filtered.push(all[i as int])) =~= ids_of(filtered).push(
                    all[i as int].order.order_id,
                ));
            }
            i = i + 1;
        }
        assert(all.take(i as int) =~= all);
        r
    }

    fn drop_missing(&mut self, market: &str, live_ids: &Vec<String>)
        ensures
            final(self)@ == (OrdersView {
                orders: old(self)@.orders.filter(not_missing_from(market@, texts(live_ids@))),
                ..old(self)@
            }),
            old(self)@.well_formed() ==> final(self)@.well_formed(),
    {
        let ghost all = self@.orders;
        let ghost p = not_missing_from(market@, texts(live_ids@));
        let mut kept: Vec<MarketOrder> = Vec::new();
        let mut i: usize = 0;
        assert(entries(kept@) =~= all.take(0).filter(p));
        while i < self.orders.len()
            invariant
                i <= self.orders.len(),
                *self == *old(self),
                all == self@.orders,
                p == not_missing_from(market@, texts(live_ids@)),
                entries(kept@) == all.take(i as int).filter(p),
            decreases self.orders.len() - i,
        {
            let ghost before = entries(kept@);
            assert(all[i as int] == self.orders@[i as int]@);
            proof {
                lemma_filter_step(all, i as int, p);
            }
            let e = &self.orders[i];
            if !(same_text(e.market.as_str(), market) && !contains_text(
                live_ids,
                e.order.order_id.as_str(),
            )) {
                kept.push(MarketOrder { market: e.market.clone(), order: e.order.clone() });
                assert(entries(kept@) =~= before.push(all[i as int]));
            }
            i = i + 1;
        }
        assert(all.take(i as int) =~= all);
        self.orders = kept;
        proof {
            if old(self)@.well_formed() {
                lemma_filter_entries_unique(all, p);
            }
        }
    }

    fn drop_pending_among(&mut self, ids: &Vec<String>)
        ensures
            final(self)@ == (OrdersView {
                pending: old(self)@.pending.filter(not_among(texts(ids@))),
                ..old(self)@
            }),
            old(self)@.well_formed() ==> final(self)@.well_formed(),
    {
        let ghost all = self@.pending;
        let ghost p = not_among(texts(ids@));
        let mut kept: Vec<PendingCancelRetry> = Vec::new();
        let mut i: usize = 0;
        assert(retries(kept@) =~= all.take(0).filter(p));
        while i < self.pending_cancel_retries.len()
            invariant
                i <= self.pending_cancel_retries.len(),
                *self == *old(self),
                all == self@.pending,
                p == not_among(texts(ids@)),
                retries(kept@) == all.take(i as int).filter(p),
            decreases self.pending_cancel_retries.len() - i,
        {
            let ghost before = retries(kept@);
            assert(all[i as int] == self.pending_cancel_retries@[i as int]@);
            proof {
                lemma_filter_step(all, i as int, p);
            }
            let e = &self.pending_cancel_retries[i];
            if !contains_text(ids, e.order.order_id.as_str()) {
                kept.push(e.clone());
                assert(retries(kept@) =~= before.push(all[i as int]));
            }
            i = i + 1;
        }
        assert(all.take(i as int) =~= all);
        self.pending_cancel_retries = kept;
        proof {
            if old(self)@.well_formed() {
                lemma_filter_pending_unique(all, p);
            }
        }
    }

    /// Brings the tracked orders of one market in line with the open orders that the exchange
    /// reports for it. Only a reconciling sync drops the orders that are missing there.
    pub fn sync_market_open_orders(
        &mut self,
        fetched: &Vec<LiveOrder>,
        condition_id: &str,
        market_meta: &CanonicalMarket,
        mode: MarketOrderSyncMode,
    ) -> (r: MarketOrderSyncResult)
        requires
            old(self)@.well_formed(),
            sizes_in_range(fetched@),
        ensures
            exists|traces: Seq<Seq<char>>|
                syncs_market(
                    old(self)@,
                    final(self)@,
                    fetched@,
                    condition_id@,
                    *market_meta,
                    mode,
                    traces,
                    r,
                ),
            final(self)@.well_formed(),
    {
        let ghost mut traces: Seq<Seq<char>> = Seq::empty();
        let ghost start = self@;
        let ghost market = condition_id@;
        self.drop_exchange_legs(condition_id, None);
        let ghost other_legs = start.legs.filter(on_other_market(market));
        assert(self@.legs =~= other_legs);
        assert(other_legs.union(Set::empty()) =~= other_legs);
        let mut bids: Vec<LiveBid> = Vec::new();
        let mut live_ids: Vec<String> = Vec::new();
        let mut live: usize = 0;
        let mut imported: usize = 0;
        let mut already_tracked: usize = 0;
        let mut updated: usize = 0;
        let mut i: usize = 0;
        assert(fetched@.take(0) =~= Seq::empty());
        assert(live_bid_views(bids@) =~= Seq::empty());
        assert(texts(live_ids@) =~= Seq::empty());
        while i < fetched.len()
            invariant
                i <= fetched.len(),
                sizes_in_range(fetched@),
                traces_orders(traces, fetched@.take(i as int)),
                self@.well_formed(),
                start == old(self)@,
                market == condition_id@,
                ({
                    let st = synced_market(
                        start.orders,
                        fetched@.take(i as int),
                        market,
                        *market_meta,
                        traces,
                    );
                    &&& self@ == (OrdersView {
                        orders: st.orders,
                        legs: other_legs.union(st.legs),
                        ..start
                    })
                    &&& live_bid_views(bids@) == st.bids
                    &&& texts(live_ids@) == st.ids
                    &&& live == st.live
                    &&& imported == st.imported
                    &&& already_tracked == st.already
                    &&& updated == st.updated
                }),
                live <= i,
                imported <= i,
                already_tracked <= i,
                updated <= i,
                forall|k: int| 0 <= k < bids@.len() ==> (#[trigger] bids@[k]).leg.bids(),
            decreases fetched.len() - i,
        {
            let o = &fetched[i];
            let ghost st = synced_market(
                start.orders,
                fetched@.take(i as int),
                market,
                *market_meta,
                traces,
            );
            let ghost bids_before = live_bid_views(bids@);
            let ghost ids_before = texts(live_ids@);
            let remaining = o.remaining_size();
            let ghost trace_before = traces;
            proof {
                assert(fetched@.take(i + 1).drop_last() =~= fetched@.take(i as int));
                assert(fetched@.take(i + 1).last() == *o);
            }
            if o.status == OrderStatus::Live && remaining > Decimal::zero() {
                let leg = quote_leg_from_live_order(o);
                let trace_id = fresh_trace_id();
                proof {
                    traces = traces.push(trace_id@);
                    lemma_traces_market(
                        start.orders,
                        fetched@.take(i as int),
                        market,
                        *market_meta,
                        trace_before,
                        trace_id@,
                    );
                }
                let order = tracked_order_from_live_order(
                    o,
                    leg,
                    opposite_token_id_for_order(o, market_meta),
                    market_meta.neg_risk,
                    market_meta.tick_size.clone(),
                    remaining,
                    trace_id,
                );
                assert(order@ == import_of(*o, terms_in(o.asset_id@, *market_meta), traces[i as int]));
                let at = self.find_filed(condition_id, o.id.as_str());
                proof {
                    lemma_find(self@.orders, entry_at(market, o.id@));
                }
                let ghost item = order@;
                let ghost spot = spot_of(at);
                let ghost next = sync_step(st, *o, spot, market, item);
                assert(spot == find(st.orders, entry_at(market, o.id@)));
                assert(next == synced_market(
                    start.orders,
                    fetched@.take(i + 1),
                    market,
                    *market_meta,
                    traces,
                ));
                match self.absorb(o, at, condition_id, order) {
                    Absorbed::Imported => {
                        imported = imported + 1;
                    },
                    Absorbed::AlreadyTracked => {
                        already_tracked = already_tracked + 1;
                    },
                    Absorbed::Updated => {
                        updated = updated + 1;
                    },
                }
                live = live + 1;
                live_ids.push(o.id.clone());
                assert(texts(live_ids@) =~= ids_before.push(o.id@));
                self.remember_exchange_leg(condition_id, leg);
                assert(self@.legs =~= other_legs.union(next.legs));
                if o.side == Side::Buy {
                    let bid = LiveBid {
                        condition_id: o.condition_id.clone(),
                        leg,
                        id: o.id.clone(),
                    };
                    bids.push(bid);
                    assert(live_bid_views(bids@) =~= bids_before.push(bid_of(*o)));
                }
            } else {
                proof {
                    traces = traces.push(Seq::empty());
                    lemma_traces_market(
                        start.orders,
                        fetched@.take(i as int),
                        market,
                        *market_meta,
                        trace_before,
                        Seq::empty(),
                    );
                }
            }
            i = i + 1;
        }
        assert(fetched@.take(i as int) =~= fetched@);
        let missing_order_ids = self.missing_ids(condition_id, &live_ids);
        let mut pruned: usize = 0;
        if mode == MarketOrderSyncMode::Reconcile {
            self.drop_missing(condition_id, &live_ids);
            self.drop_pending_among(&missing_order_ids);
            pruned = missing_order_ids.len();
            assert(texts(missing_order_ids@).len() == missing_order_ids@.len());
        }
        let duplicate_live_bid_legs = duplicate_legs(&bids);
        let r = MarketOrderSyncResult {
            fetched: fetched.len(),
            live,
            imported,
            already_tracked,
            updated,
            pruned,
            missing_order_ids,
            duplicate_live_bid_legs,
        };
        assert(syncs_market(
            start,
            self@,
            fetched@,
            market,
            *market_meta,
            mode,
            traces,
            r,
        ));
        r
    }
}

} // verus!
