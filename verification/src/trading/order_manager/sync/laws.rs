//! What a sync leaves of the orders, and which live bids it finds doubled.

use crate::decimal::representable;
use crate::keyed::lemma_find;
use crate::models::{CanonicalMarket, LiveOrder, OrderStatus, QuoteLeg};
use crate::trading::order_manager::sync::{
    import_of, rests, synced_market, syncs_market, terms_in, MarketOrderSyncMode,
    MarketOrderSyncResult,
};
use crate::trading::order_manager::{
    all_duplicates, bid_on, entry_at, ids_on, leg_of, DuplicateLiveBidLeg, EntryView, LiveBidView,
    OrdersView,
};
use vstd::prelude::*;

verus! {

/// The order is live and some of it is not matched.
pub open spec fn is_open(o: LiveOrder) -> bool {
    o.status == OrderStatus::Live && o.size_matched@ < o.original_size@
}

/// How many of the orders are open.
pub open spec fn open_count(fetched: Seq<LiveOrder>) -> int
    decreases fetched.len(),
{
    if fetched.len() == 0 {
        0
    } else {
        open_count(fetched.drop_last()) + if is_open(fetched.last()) {
            1int
        } else {
            0
        }
    }
}

proof fn lemma_synced(
    orders: Seq<EntryView>,
    fetched: Seq<LiveOrder>,
    market: Seq<char>,
    meta: CanonicalMarket,
    traces: Seq<Seq<char>>,
)
    requires
        forall|k: int|
            0 <= k < fetched.len() ==> representable(
                (#[trigger] fetched[k]).original_size@ - fetched[k].size_matched@,
            ),
    ensures
        ({
            let st = synced_market(orders, fetched, market, meta, traces);
            &&& st.live == open_count(fetched)
            &&& st.imported + st.already + st.updated == st.live
            &&& st.orders.len() == orders.len() + st.imported
            &&& st.imported >= 0 && st.already >= 0 && st.updated >= 0
            &&& forall|m: Seq<char>, leg: QuoteLeg|
                #![trigger st.legs.contains((m, leg))]
                st.legs.contains((m, leg)) ==> m == market && exists|k: int|
                    0 <= k < fetched.len() && is_open(#[trigger] fetched[k]) && leg_of(
                        fetched[k].outcome,
                        fetched[k].side,
                    ) == leg
            &&& forall|k: int|
                0 <= k < fetched.len() && is_open(#[trigger] fetched[k]) ==> {
                    &&& st.legs.contains((market, leg_of(fetched[k].outcome, fetched[k].side)))
                    &&& st.ids.contains(fetched[k].id@)
                }
            &&& forall|x: Seq<char>| #[trigger]
                st.ids.contains(x) ==> exists|k: int|
                    0 <= k < fetched.len() && is_open(#[trigger] fetched[k]) && fetched[k].id@ == x
        }),
    decreases fetched.len(),
{
    if fetched.len() > 0 {
        let rest = fetched.drop_last();
        let o = fetched[fetched.len() - 1];
        assert(representable(o.original_size@ - o.size_matched@));
        assert forall|k: int| 0 <= k < rest.len() implies representable(
            (#[trigger] rest[k]).original_size@ - rest[k].size_matched@,
        ) by {
            assert(rest[k] == fetched[k]);
        }
        lemma_synced(orders, rest, market, meta, traces);
        let before = synced_market(orders, rest, market, meta, traces);
        let st = synced_market(orders, fetched, market, meta, traces);
        assert(rests(o) == is_open(o));
        lemma_find(before.orders, entry_at(market, o.id@));
        if is_open(o) {
            let leg = leg_of(o.outcome, o.side);
            assert(st.legs == before.legs.insert((market, leg)));
            assert(st.ids == before.ids.push(o.id@));
            assert(st.ids[before.ids.len() as int] == o.id@);
        }
        assert forall|m: Seq<char>, leg: QuoteLeg|
            #![trigger st.legs.contains((m, leg))]
            st.legs.contains((m, leg)) implies m == market && exists|k: int|
            0 <= k < fetched.len() && is_open(#[trigger] fetched[k]) && leg_of(
                fetched[k].outcome,
                fetched[k].side,
            ) == leg by {
            if before.legs.contains((m, leg)) {
                let k = choose|k: int|
                    0 <= k < rest.len() && is_open(#[trigger] rest[k]) && leg_of(
                        rest[k].outcome,
                        rest[k].side,
                    ) == leg;
                assert(fetched[k] == rest[k]);
            } else {
                assert(is_open(fetched[fetched.len() - 1]));
            }
        }
        assert forall|k: int| 0 <= k < fetched.len() && is_open(#[trigger] fetched[k]) implies {
            &&& st.legs.contains((market, leg_of(fetched[k].outcome, fetched[k].side)))
            &&& st.ids.contains(fetched[k].id@)
        } by {
            if k < rest.len() {
                assert(rest[k] == fetched[k]);
                assert(before.ids.contains(rest[k].id@));
                let n = choose|n: int| 0 <= n < before.ids.len() && before.ids[n] == rest[k].id@;
                assert(st.ids[n] == rest[k].id@);
            }
        }
        assert forall|x: Seq<char>| #[trigger] st.ids.contains(x) implies exists|k: int|
            0 <= k < fetched.len() && is_open(#[trigger] fetched[k]) && fetched[k].id@ == x by {
            let n = choose|n: int| 0 <= n < st.ids.len() && st.ids[n] == x;
            if n < before.ids.len() {
                assert(before.ids[n] == x);
                assert(before.ids.contains(x));
                let k = choose|k: int|
                    0 <= k < rest.len() && is_open(#[trigger] rest[k]) && rest[k].id@ == x;
                assert(fetched[k] == rest[k]);
            } else {
                assert(is_open(fetched[fetched.len() - 1]));
            }
        }
    }
}

/// A sync of a market counts the open orders, each as added, updated or unchanged. The legs of the
/// market that count as taken are those of the open orders, and those of other markets stay. A sync that
/// reconciles keeps of the market's orders only those that are open; one that observes keeps all.
pub proof fn law_market_sync_follows_the_open_orders(
    before: OrdersView,
    after: OrdersView,
    fetched: Seq<LiveOrder>,
    market: Seq<char>,
    meta: CanonicalMarket,
    mode: MarketOrderSyncMode,
    traces: Seq<Seq<char>>,
    r: MarketOrderSyncResult,
)
    requires
        syncs_market(before, after, fetched, market, meta, mode, traces, r),
        forall|k: int|
            0 <= k < fetched.len() ==> representable(
                (#[trigger] fetched[k]).original_size@ - fetched[k].size_matched@,
            ),
    ensures
        r.fetched == fetched.len(),
        r.live == open_count(fetched),
        r.imported + r.updated + r.already_tracked == r.live,
        forall|m: Seq<char>, leg: QuoteLeg|
            #![trigger after.legs.contains((m, leg))]
            m != market ==> after.legs.contains((m, leg)) == before.legs.contains((m, leg)),
        forall|leg: QuoteLeg|
            #![trigger after.legs.contains((market, leg))]
            after.legs.contains((market, leg)) ==> exists|k: int|
                0 <= k < fetched.len() && is_open(#[trigger] fetched[k]) && leg_of(
                    fetched[k].outcome,
                    fetched[k].side,
                ) == leg,
        forall|k: int|
            0 <= k < fetched.len() && is_open(#[trigger] fetched[k]) ==> after.legs.contains(
                (market, leg_of(fetched[k].outcome, fetched[k].side)),
            ),
        mode == MarketOrderSyncMode::Reconcile ==> forall|i: int|
            0 <= i < after.orders.len() && (#[trigger] after.orders[i]).market == market
                ==> exists|k: int|
                0 <= k < fetched.len() && is_open(#[trigger] fetched[k]) && fetched[k].id@
                    == after.orders[i].order.order_id,
        mode == MarketOrderSyncMode::ObserveOnly ==> after.orders.len() == before.orders.len()
            + r.imported && r.pruned == 0 && after.pending == before.pending,
        after.recent == before.recent && after.gross == before.gross && after.reserve
            == before.reserve,
{
    lemma_synced(before.orders, fetched, market, meta, traces);
    let st = synced_market(before.orders, fetched, market, meta, traces);
    if mode == MarketOrderSyncMode::Reconcile {
        let p = crate::trading::order_manager::sync::not_missing_from(market, st.ids);
        assert forall|i: int|
            0 <= i < after.orders.len() && (#[trigger] after.orders[i]).market
                == market implies exists|k: int|
            0 <= k < fetched.len() && is_open(#[trigger] fetched[k]) && fetched[k].id@
                == after.orders[i].order.order_id by {
            st.orders.lemma_filter_pred(p, i);
            assert(st.ids.contains(after.orders[i].order.order_id));
        }
    }
}

proof fn lemma_two_kept(s: Seq<LiveBidView>, p: spec_fn(LiveBidView) -> bool, i: int, j: int)
    requires
        0 <= i < j < s.len(),
        p(s[i]) && p(s[j]),
    ensures
        s.filter(p).len() >= 2,
    decreases s.len(),
{
    reveal(Seq::filter);
    let rest = s.drop_last();
    if j < s.len() - 1 {
        assert(rest[i] == s[i] && rest[j] == s[j]);
        lemma_two_kept(rest, p, i, j);
    } else {
        assert(rest[i] == s[i]);
        rest.lemma_filter_contains(p, i);
        assert(rest.filter(p).len() >= 1);
    }
}

/// Two live bids on one leg of a market are reported as doubled, and no leg is that has not more than
/// one.
pub proof fn law_doubled_bids_are_reported(
    bids: Seq<LiveBidView>,
    r: Seq<DuplicateLiveBidLeg>,
    i: int,
    j: int,
)
    requires
        all_duplicates(bids, r),
        0 <= i < j < bids.len(),
        bids[i].condition_id == bids[j].condition_id && bids[i].leg == bids[j].leg,
        bids[i].leg == QuoteLeg::YesBid || bids[i].leg == QuoteLeg::NoBid,
    ensures
        exists|k: int|
            0 <= k < r.len() && (#[trigger] r[k]).condition_id@ == bids[i].condition_id && r[k].leg
                == bids[i].leg,
        forall|k: int|
            0 <= k < r.len() ==> ids_on(bids, (#[trigger] r[k]).condition_id@, r[k].leg).len() > 1,
{
    let p = bid_on(bids[i].condition_id, bids[i].leg);
    lemma_two_kept(bids, p, i, j);
    assert(ids_on(bids, bids[i].condition_id, bids[i].leg).len() > 1);
    assert forall|k: int| 0 <= k < r.len() implies ids_on(
        bids,
        (#[trigger] r[k]).condition_id@,
        r[k].leg,
    ).len() > 1 by {
        assert(crate::trading::order_manager::lists_duplicates(bids, r[k]));
    }
}

/// An order that is taken up for a market knows the other token of that market and trades on the
/// market's terms.
pub proof fn law_taken_up_orders_know_their_market(
    o: LiveOrder,
    meta: CanonicalMarket,
    trace_id: Seq<char>,
)
    ensures
        ({
            let t = import_of(o, terms_in(o.asset_id@, meta), trace_id);
            &&& t.neg_risk == meta.neg_risk && t.tick_size == meta.tick_size@
            &&& o.asset_id@ == meta.yes_token_id@ ==> t.opposite_token_id == meta.no_token_id@
            &&& o.asset_id@ != meta.yes_token_id@ ==> t.opposite_token_id == meta.yes_token_id@
        }),
{
}

} // verus!
