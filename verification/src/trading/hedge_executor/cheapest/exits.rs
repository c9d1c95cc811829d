//! Which levels a plan uses, and the limit prices that reach them.

use crate::decimal::{
    cent, floor_value, is_rounding, lemma_whole, max_of, max_value, quotient, representable, sum,
    unit,
};
use crate::models::PriceLevel;
use crate::trading::hedge_executor::cheapest::{
    ask_rungs, bid_rungs, budget_is_spent, compared_exactly, in_use, lemma_reach_grows,
    lemma_taken_from_both, reach, sizes_counted, sorted_books, taken_from_both, used_up_to, Rung,
};
use crate::trading::hedge_executor::{
    conserved, cuttable, hedge_preferred, hedge_take, lemma_cents_exact, lemma_cents_moved,
    lemma_hedge_take, lemma_whole_cents_multiple, plan_after, plan_fits, plan_step, planned, route,
    step_fits, whole_cent_sizes, whole_cents, HedgeResolution, PlanInput, PlanState, Route,
};
use vstd::prelude::*;

verus! {

/// Sizes are cut to hundredths toward zero: the result is a whole number of them, no larger than the
/// size, less than a hundredth away from it and of the same sign.
pub proof fn law_sizes_are_cut_to_hundredths(v: int)
    ensures
        100 * whole_cents(v) % unit() == 0,
        v >= 0 ==> 0 <= whole_cents(v) <= v && 100 * (v - whole_cents(v)) < unit(),
        v <= 0 ==> v <= whole_cents(v) <= 0 && 100 * (whole_cents(v) - v) < unit(),
{
    lemma_whole_cents_multiple(v);
}

/// The last level that was touched.
spec fn last_used(levels: Seq<PriceLevel>, at: int, left: int) -> int {
    used_up_to(levels, at, left) - 1
}

/// The worst prices are those of the last levels touched.
spec fn worst_is_last(inp: PlanInput, st: PlanState) -> bool {
    let a = last_used(inp.asks, st.ask_at, st.ask_left);
    let b = last_used(inp.bids, st.bid_at, st.bid_left);
    &&& st.hedged > 0 ==> 0 <= a < inp.asks.len() && st.worst_ask == max_of(
        0,
        inp.asks[a].price@,
    )
    &&& st.sold > 0 ==> 0 <= b < inp.bids.len() && st.worst_bid == inp.bids[b].price@
}

proof fn lemma_worst_step(inp: PlanInput, st: PlanState)
    requires
        cuttable(inp.total),
        whole_cent_sizes(inp),
        sorted_books(inp),
        conserved(inp, st),
        taken_from_both(inp, st),
        worst_is_last(inp, st),
    ensures
        worst_is_last(inp, plan_step(inp, st)),
{
    lemma_whole_cents_multiple(inp.total);
    match route(inp, st) {
        Route::Stop => {},
        Route::Hedge(take) => {
            lemma_hedge_take(inp, st);
            lemma_cents_moved(st.hedged, st.remaining, take);
            lemma_cents_moved(0, st.ask_left, take);
            assert(inp.asks[st.ask_at].size@ > 0);
        },
        Route::Sell(take) => {
            lemma_cents_moved(st.sold, st.remaining, take);
            lemma_cents_moved(0, st.bid_left, take);
            assert(inp.bids[st.bid_at].size@ > 0);
        },
    }
}

proof fn lemma_worst_is_last(inp: PlanInput, n: nat)
    requires
        cuttable(inp.total),
        whole_cent_sizes(inp),
        sorted_books(inp),
    ensures
        conserved(inp, plan_after(inp, n)),
        taken_from_both(inp, plan_after(inp, n)),
        worst_is_last(inp, plan_after(inp, n)),
    decreases n,
{
    lemma_taken_from_both(inp, n);
    if n > 0 {
        lemma_worst_is_last(inp, (n - 1) as nat);
        lemma_worst_step(inp, plan_after(inp, (n - 1) as nat));
    }
}

/// The shares of the levels that a sale at `limit` or better reaches.
pub open spec fn bid_for(bids: Seq<PriceLevel>, limit: int) -> int
    decreases bids.len(),
{
    if bids.len() == 0 {
        0
    } else {
        bid_for(bids.drop_last(), limit) + if bids.last().price@ >= limit {
            bids.last().size@
        } else {
            0
        }
    }
}

/// The shares of the levels that a purchase at `limit` or better reaches.
pub open spec fn offered(asks: Seq<PriceLevel>, limit: int) -> int
    decreases asks.len(),
{
    if asks.len() == 0 {
        0
    } else {
        offered(asks.drop_last(), limit) + if asks.last().price@ <= limit {
            asks.last().size@
        } else {
            0
        }
    }
}

proof fn lemma_bid_for(bids: Seq<PriceLevel>, limit: int, k: int)
    requires
        0 <= k <= bids.len(),
        forall|i: int| 0 <= i < bids.len() ==> (#[trigger] bids[i]).size@ >= 0,
        forall|i: int| 0 <= i < k ==> (#[trigger] bids[i]).price@ >= limit,
    ensures
        bid_for(bids, limit) >= reach(bid_rungs(bids), k),
    decreases bids.len(),
{
    if bids.len() > 0 {
        let rest = bids.drop_last();
        let n = bids.len() - 1;
        assert(bids[n].size@ >= 0);
        assert(forall|i: int| 0 <= i < rest.len() ==> #[trigger] rest[i] == bids[i]);
        let j = if k > n {
            n
        } else {
            k
        };
        lemma_bid_for(rest, limit, j);
        lemma_same_reach(bid_rungs(rest), bid_rungs(bids), j);
        if k == n + 1 {
            assert(bids[n].price@ >= limit);
        }
    }
}

proof fn lemma_offered(asks: Seq<PriceLevel>, limit: int, k: int)
    requires
        0 <= k <= asks.len(),
        forall|i: int| 0 <= i < asks.len() ==> (#[trigger] asks[i]).size@ >= 0,
        forall|i: int| 0 <= i < k ==> (#[trigger] asks[i]).price@ <= limit,
    ensures
        offered(asks, limit) >= reach(ask_rungs(asks), k),
    decreases asks.len(),
{
    if asks.len() > 0 {
        let rest = asks.drop_last();
        let n = asks.len() - 1;
        assert(asks[n].size@ >= 0);
        assert(forall|i: int| 0 <= i < rest.len() ==> #[trigger] rest[i] == asks[i]);
        let j = if k > n {
            n
        } else {
            k
        };
        lemma_offered(rest, limit, j);
        lemma_same_reach(ask_rungs(rest), ask_rungs(asks), j);
        if k == n + 1 {
            assert(asks[n].price@ <= limit);
        }
    }
}

proof fn lemma_same_reach(a: Seq<Rung>, b: Seq<Rung>, k: int)
    requires
        0 <= k <= a.len() <= b.len(),
        forall|i: int| 0 <= i < k ==> #[trigger] a[i] == b[i],
    ensures
        reach(a, k) == reach(b, k),
    decreases k,
{
    if k > 0 {
        lemma_same_reach(a, b, k - 1);
        assert(a[k - 1] == b[k - 1]);
    }
}

/// A level that holds the last share is the only one.
proof fn lemma_last_level(rungs: Seq<Rung>, taken: int, i: int, j: int)
    requires
        sizes_counted(rungs),
        0 <= i < rungs.len(),
        0 <= j < rungs.len(),
        reach(rungs, i) < taken <= reach(rungs, i + 1),
        reach(rungs, j) < taken <= reach(rungs, j + 1),
    ensures
        i == j,
{
    if i < j {
        lemma_reach_grows(rungs, i + 1, j);
    } else if j < i {
        lemma_reach_grows(rungs, j + 1, i);
    }
}

proof fn lemma_counted(inp: PlanInput)
    requires
        sorted_books(inp),
    ensures
        sizes_counted(ask_rungs(inp.asks)),
        sizes_counted(bid_rungs(inp.bids)),
{
    assert forall|i: int| 0 <= i < ask_rungs(inp.asks).len() implies (#[trigger] ask_rungs(
        inp.asks,
    )[i]).size >= 0 by {
        assert(inp.asks[i].size@ > 0);
    }
    assert forall|i: int| 0 <= i < bid_rungs(inp.bids).len() implies (#[trigger] bid_rungs(
        inp.bids,
    )[i]).size >= 0 by {
        assert(inp.bids[i].size@ > 0);
    }
}

/// Over bids from the highest down, the limit price of the sale is the price of the bid that takes
/// the last of its shares, so that the bids at that price or better take all of them. Without a sale
/// it is zero.
pub proof fn law_sale_fills_at_its_limit(inp: PlanInput, n: nat, r: HedgeResolution)
    requires
        cuttable(inp.total),
        whole_cent_sizes(inp),
        sorted_books(inp),
        planned(inp, n, r),
    ensures
        r.sellback_shares@ == 0 ==> r.sellback_limit_price@ == 0,
        r.sellback_shares@ > 0 ==> {
            &&& bid_for(inp.bids, r.sellback_limit_price@) >= r.sellback_shares@
            &&& forall|j: int|
                0 <= j < inp.bids.len() && reach(bid_rungs(inp.bids), j) < r.sellback_shares@
                    <= reach(bid_rungs(inp.bids), j + 1) ==> r.sellback_limit_price@ == (
                #[trigger] inp.bids[j]).price@
            &&& exists|j: int|
                0 <= j < inp.bids.len() && reach(bid_rungs(inp.bids), j) < r.sellback_shares@
                    <= reach(bid_rungs(inp.bids), j + 1) && r.sellback_limit_price@ == (
                #[trigger] inp.bids[j]).price@
        },
{
    let st = plan_after(inp, n);
    lemma_worst_is_last(inp, n);
    lemma_counted(inp);
    lemma_whole_cents_multiple(st.sold);
    if st.sold > 0 {
        let b = last_used(inp.bids, st.bid_at, st.bid_left);
        let rungs = bid_rungs(inp.bids);
        assert(inp.bids[b].size@ > 0);
        assert(reach(rungs, b + 1) == reach(rungs, b) + rungs[b].size);
        assert(reach(rungs, b) < st.sold <= reach(rungs, b + 1));
        assert forall|i: int| 0 <= i < b + 1 implies (#[trigger] inp.bids[i]).price@
            >= inp.bids[b].price@ by {}
        assert forall|i: int| 0 <= i < inp.bids.len() implies (#[trigger] inp.bids[i]).size@
            >= 0 by {}
        lemma_bid_for(inp.bids, inp.bids[b].price@, b + 1);
        assert(r.sellback_limit_price@ == inp.bids[b].price@);
        assert forall|j: int|
            0 <= j < inp.bids.len() && reach(rungs, j) < r.sellback_shares@ <= reach(rungs, j + 1)
            implies r.sellback_limit_price@ == (#[trigger] inp.bids[j]).price@ by {
            lemma_last_level(rungs, st.sold, b, j);
        }
    }
}

/// Over asks from the lowest up, the limit price of the hedge is one tick above the ask that gives
/// the last of its shares, so that the asks at that price or better give all of them. Without a hedge
/// it is zero.
pub proof fn law_hedge_fills_at_its_limit(inp: PlanInput, n: nat, r: HedgeResolution)
    requires
        cuttable(inp.total),
        whole_cent_sizes(inp),
        sorted_books(inp),
        inp.tick >= 0,
        forall|i: int|
            0 <= i < inp.asks.len() ==> (#[trigger] inp.asks[i]).price@ >= 0 && representable(
                inp.asks[i].price@ + inp.tick,
            ),
        planned(inp, n, r),
    ensures
        r.hedge_shares@ == 0 ==> r.hedge_limit_price@ == 0,
        r.hedge_shares@ > 0 ==> {
            &&& offered(inp.asks, r.hedge_limit_price@) >= r.hedge_shares@
            &&& forall|j: int|
                0 <= j < inp.asks.len() && reach(ask_rungs(inp.asks), j) < r.hedge_shares@ <= reach(
                    ask_rungs(inp.asks),
                    j + 1,
                ) ==> r.hedge_limit_price@ == (#[trigger] inp.asks[j]).price@ + inp.tick
            &&& exists|j: int|
                0 <= j < inp.asks.len() && reach(ask_rungs(inp.asks), j) < r.hedge_shares@ <= reach(
                    ask_rungs(inp.asks),
                    j + 1,
                ) && r.hedge_limit_price@ == (#[trigger] inp.asks[j]).price@ + inp.tick
        },
{
    let st = plan_after(inp, n);
    lemma_worst_is_last(inp, n);
    lemma_counted(inp);
    lemma_whole_cents_multiple(st.hedged);
    if st.hedged > 0 {
        let a = last_used(inp.asks, st.ask_at, st.ask_left);
        let rungs = ask_rungs(inp.asks);
        assert(inp.asks[a].size@ > 0);
        assert(inp.asks[a].price@ >= 0);
        assert(reach(rungs, a + 1) == reach(rungs, a) + rungs[a].size);
        assert(reach(rungs, a) < st.hedged <= reach(rungs, a + 1));
        assert(r.hedge_limit_price@ == inp.asks[a].price@ + inp.tick);
        assert forall|i: int| 0 <= i < a + 1 implies (#[trigger] inp.asks[i]).price@
            <= inp.asks[a].price@ + inp.tick by {
            assert(inp.asks[i].price@ <= inp.asks[a].price@);
        }
        assert forall|i: int| 0 <= i < inp.asks.len() implies (#[trigger] inp.asks[i]).size@
            >= 0 by {}
        lemma_offered(inp.asks, inp.asks[a].price@ + inp.tick, a + 1);
        assert forall|j: int|
            0 <= j < inp.asks.len() && reach(rungs, j) < r.hedge_shares@ <= reach(rungs, j + 1)
            implies r.hedge_limit_price@ == (#[trigger] inp.asks[j]).price@ + inp.tick by {
            lemma_last_level(rungs, st.hedged, a, j);
        }
    }
}

/// Prices and tick are positive, limit prices need no rounding, and the division of the budget by
/// them is rounded as decimals are.
pub open spec fn priced_fairly(inp: PlanInput) -> bool {
    &&& inp.tick > 0
    &&& forall|i: int|
        0 <= i < inp.asks.len() ==> {
            let limit = (#[trigger] inp.asks[i]).price@ + inp.tick;
            &&& inp.asks[i].price@ >= 0
            &&& representable(limit)
            &&& 0 < inp.budget < max_value() ==> is_rounding(
                quotient(inp.budget, limit),
                inp.budget * unit(),
                limit,
            )
        }
}

/// One more share than the whole ones among `hedged` costs more than the budget at the limit price
/// that an ask of `price` leads to.
pub open spec fn no_further_share(inp: PlanInput, hedged: int, price: int) -> bool {
    &&& inp.budget < max_value()
    &&& (hedged / unit() + 1) * (price + inp.tick) > inp.budget
}

proof fn lemma_no_further_share(inp: PlanInput, hedged: int, i: int, j: int)
    requires
        priced_fairly(inp),
        sorted_books(inp),
        0 <= i <= j < inp.asks.len(),
        0 <= hedged,
        cuttable(hedged),
        inp.budget <= max_value(),
        budget_is_spent(inp, hedged, inp.asks[i].price@),
    ensures
        no_further_share(inp, hedged, inp.asks[j].price@),
{
    let u = unit();
    let w = hedged / u + 1;
    let p = inp.asks[i].price@;
    let limit = p + inp.tick;
    let far = inp.asks[j].price@ + inp.tick;
    assert(p <= inp.asks[j].price@);
    assert(p >= 0 && representable(limit));
    assert(w >= 1 && w * u > hedged);
    if inp.budget > 0 {
        let q = quotient(inp.budget, limit);
        lemma_whole(w);
        if w * limit <= inp.budget {
            assert((w * u) * limit == (w * limit) * u) by (nonlinear_arith);
            assert((w * u) * limit <= inp.budget * u) by (nonlinear_arith)
                requires
                    (w * u) * limit == (w * limit) * u,
                    w * limit <= inp.budget,
                    u > 0,
            ;
            assert(w * u <= q);
            assert(floor_value(q) >= w * u);
        }
    } else {
        assert(w * limit > 0) by (nonlinear_arith)
            requires
                w >= 1,
                limit > 0,
        ;
    }
    assert(w * limit <= w * far) by (nonlinear_arith)
        requires
            w >= 1,
            limit <= far,
    ;
}

/// Each share left by the cheaper exit of the time.
spec fn exits_kept(inp: PlanInput, st: PlanState) -> bool {
    &&& st.bid_at < inp.bids.len() ==> forall|k: int|
        #![trigger inp.asks[k]]
        in_use(inp.asks, st.ask_at, st.ask_left, k) ==> inp.asks[k].price@
            + inp.bids[st.bid_at].price@ < unit()
    &&& st.ask_at < inp.asks.len() ==> forall|k: int|
        #![trigger inp.bids[k]]
        in_use(inp.bids, st.bid_at, st.bid_left, k) ==> inp.asks[st.ask_at].price@
            + inp.bids[k].price@ >= unit() || budget_is_spent(
            inp,
            st.hedged,
            inp.asks[st.ask_at].price@,
        )
}

/// Nothing can be taken from the ask in use exactly where the budget is spent.
proof fn lemma_take_or_spent(inp: PlanInput, st: PlanState)
    requires
        priced_fairly(inp),
        inp.budget <= max_value(),
        whole_cent_sizes(inp),
        sorted_books(inp),
        cuttable(inp.total),
        conserved(inp, st),
        taken_from_both(inp, st),
        step_fits(inp, st),
        st.remaining > 0,
        st.ask_at < inp.asks.len(),
        hedge_preferred(inp, st),
    ensures
        hedge_take(inp, st) > 0 <==> !budget_is_spent(inp, st.hedged, inp.asks[st.ask_at].price@),
{
    let k = st.ask_at;
    let budget = max_of(inp.budget, 0);
    let limit = sum(max_of(0, inp.asks[k].price@), inp.tick);
    lemma_whole_cents_multiple(inp.total);
    assert(inp.asks[k].price@ >= 0 && representable(inp.asks[k].price@ + inp.tick));
    assert(max_of(st.worst_ask, inp.asks[k].price@) == inp.asks[k].price@);
    if budget != max_value() && budget > 0 && inp.budget < max_value() {
        let q = quotient(budget, limit);
        lemma_whole(0);
        assert((0 * unit()) * limit <= budget * unit());
        assert(q >= 0);
        let whole = floor_value(q);
        let most = whole_cents(whole);
        lemma_whole_cents_multiple(whole);
        assert(whole % cent() == 0);
        lemma_cents_exact(most - st.hedged);
        lemma_whole_cents_multiple(max_of(most - st.hedged, 0));
    }
}

proof fn lemma_exits_step(inp: PlanInput, st: PlanState)
    requires
        priced_fairly(inp),
        inp.budget <= max_value(),
        cuttable(inp.total),
        whole_cent_sizes(inp),
        sorted_books(inp),
        compared_exactly(inp),
        conserved(inp, st),
        taken_from_both(inp, st),
        step_fits(inp, st),
        exits_kept(inp, st),
    ensures
        exits_kept(inp, plan_step(inp, st)),
{
    lemma_whole_cents_multiple(inp.total);
    let next = plan_step(inp, st);
    match route(inp, st) {
        Route::Stop => {},
        Route::Hedge(take) => {
            lemma_hedge_take(inp, st);
            lemma_take_or_spent(inp, st);
            lemma_cents_moved(st.hedged, st.remaining, take);
            lemma_cents_moved(0, st.ask_left, take);
            assert(inp.asks[st.ask_at].size@ > 0);
            if next.ask_at < inp.asks.len() {
                assert(inp.asks[st.ask_at].price@ <= inp.asks[next.ask_at].price@);
                assert(inp.asks[next.ask_at].size@ > 0);
            }
            assert forall|k: int|
                #![trigger inp.asks[k]]
                next.bid_at < inp.bids.len() && in_use(
                    inp.asks,
                    next.ask_at,
                    next.ask_left,
                    k,
                ) implies inp.asks[k].price@ + inp.bids[next.bid_at].price@ < unit() by {
                if k == st.ask_at {
                    assert(representable(inp.fill + inp.asks[k].price@));
                    assert(representable(inp.fill - inp.bids[st.bid_at].price@));
                } else {
                    assert(in_use(inp.asks, st.ask_at, st.ask_left, k));
                }
            }
        },
        Route::Sell(take) => {
            lemma_cents_moved(st.sold, st.remaining, take);
            lemma_cents_moved(0, st.bid_left, take);
            assert(inp.bids[st.bid_at].size@ > 0);
            if next.bid_at < inp.bids.len() {
                assert(inp.bids[st.bid_at].price@ >= inp.bids[next.bid_at].price@);
                assert(inp.bids[next.bid_at].size@ > 0);
            }
            assert forall|k: int|
                #![trigger inp.bids[k]]
                next.ask_at < inp.asks.len() && in_use(
                    inp.bids,
                    next.bid_at,
                    next.bid_left,
                    k,
                ) implies inp.asks[next.ask_at].price@ + inp.bids[k].price@ >= unit()
                || budget_is_spent(inp, next.hedged, inp.asks[next.ask_at].price@) by {
                if k == st.bid_at {
                    assert(representable(inp.fill + inp.asks[st.ask_at].price@));
                    assert(representable(inp.fill - inp.bids[k].price@));
                    if hedge_preferred(inp, st) {
                        lemma_take_or_spent(inp, st);
                    }
                } else {
                    assert(in_use(inp.bids, st.bid_at, st.bid_left, k));
                }
            }
        },
    }
}

proof fn lemma_exits_kept(inp: PlanInput, n: nat)
    requires
        priced_fairly(inp),
        inp.budget <= max_value(),
        plan_fits(inp),
        whole_cent_sizes(inp),
        sorted_books(inp),
        compared_exactly(inp),
    ensures
        exits_kept(inp, plan_after(inp, n)),
    decreases n,
{
    if n > 0 {
        let before = plan_after(inp, (n - 1) as nat);
        lemma_exits_kept(inp, (n - 1) as nat);
        lemma_taken_from_both(inp, (n - 1) as nat);
        assert(step_fits(inp, before));
        lemma_exits_step(inp, before);
    }
}

/// The whole of a plan, for any ask `i` and any bid `j` of sorted books, whatever the budget. An ask
/// is used only if it and every bid that is left cost less than a dollar together: at a dollar the
/// shares are sold back. A bid is used only if it and every ask that is left cost a dollar or more,
/// or the budget pays for no further share at that ask. Shares stay unresolved only if no bid is
/// left, and no ask that the budget pays for. All shares are accounted for.
pub proof fn law_every_share_takes_the_cheaper_exit(
    inp: PlanInput,
    n: nat,
    r: HedgeResolution,
    i: int,
    j: int,
)
    requires
        priced_fairly(inp),
        inp.budget <= max_value(),
        plan_fits(inp),
        whole_cent_sizes(inp),
        sorted_books(inp),
        compared_exactly(inp),
        planned(inp, n, r),
        0 <= i < inp.asks.len(),
        0 <= j < inp.bids.len(),
    ensures
        ({
            let asks = ask_rungs(inp.asks);
            let bids = bid_rungs(inp.bids);
            let together = inp.asks[i].price@ + inp.bids[j].price@;
            let hedged = r.hedge_shares@;
            let sold = r.sellback_shares@;
            &&& reach(asks, i) < hedged && sold < reach(bids, j + 1) ==> together < unit()
            &&& reach(bids, j) < sold && hedged < reach(asks, i + 1) ==> together >= unit()
                || no_further_share(inp, hedged, inp.asks[i].price@)
            &&& r.unresolved_shares@ > 0 ==> sold >= reach(bids, j + 1)
            &&& r.unresolved_shares@ > 0 && hedged < reach(asks, i + 1) ==> no_further_share(
                inp,
                hedged,
                inp.asks[i].price@,
            )
            &&& hedged >= 0 && sold >= 0
            &&& inp.total >= 0 ==> r.unresolved_shares@ >= 0 && 0 <= inp.total - (hedged + sold
                + r.unresolved_shares@) && 100 * (inp.total - (hedged + sold
                + r.unresolved_shares@)) < unit()
        }),
{
    let st = plan_after(inp, n);
    let asks = ask_rungs(inp.asks);
    let bids = bid_rungs(inp.bids);
    lemma_exits_kept(inp, n);
    lemma_taken_from_both(inp, n);
    lemma_counted(inp);
    law_sizes_are_cut_to_hundredths(inp.total);
    lemma_whole_cents_multiple(inp.total);
    lemma_whole_cents_multiple(st.hedged);
    lemma_whole_cents_multiple(st.sold);
    lemma_whole_cents_multiple(st.remaining);
    assert(step_fits(inp, st));
    assert(inp.asks[i].size@ > 0 && inp.bids[j].size@ > 0);
    assert(reach(asks, i + 1) == reach(asks, i) + asks[i].size);
    assert(reach(bids, j + 1) == reach(bids, j) + bids[j].size);
    if st.ask_at < inp.asks.len() {
        assert(reach(asks, st.ask_at + 1) == reach(asks, st.ask_at) + asks[st.ask_at].size);
    }
    if st.bid_at < inp.bids.len() {
        assert(reach(bids, st.bid_at + 1) == reach(bids, st.bid_at) + bids[st.bid_at].size);
    }
    if reach(asks, i) < st.hedged {
        if i > st.ask_at {
            lemma_reach_grows(asks, st.ask_at + 1, i);
        }
        assert(in_use(inp.asks, st.ask_at, st.ask_left, i));
    }
    if st.hedged < reach(asks, i + 1) {
        if i < st.ask_at {
            lemma_reach_grows(asks, i + 1, st.ask_at);
        }
        assert(st.ask_at <= i);
        assert(inp.asks[st.ask_at].price@ <= inp.asks[i].price@);
    }
    if reach(bids, j) < st.sold {
        if j > st.bid_at {
            lemma_reach_grows(bids, st.bid_at + 1, j);
        }
        assert(in_use(inp.bids, st.bid_at, st.bid_left, j));
    }
    if st.sold < reach(bids, j + 1) {
        if j < st.bid_at {
            lemma_reach_grows(bids, j + 1, st.bid_at);
        }
        assert(st.bid_at <= j);
        assert(inp.bids[st.bid_at].price@ >= inp.bids[j].price@);
    }
    if reach(bids, j) < st.sold && st.hedged < reach(asks, i + 1) && inp.asks[i].price@
        + inp.bids[j].price@ < unit() {
        assert(inp.asks[st.ask_at].price@ + inp.bids[j].price@ < unit());
        lemma_no_further_share(inp, st.hedged, st.ask_at, i);
    }
    if st.remaining > 0 {
        assert(st.bid_at == inp.bids.len());
        lemma_reach_grows(bids, j + 1, inp.bids.len() as int);
        if st.hedged < reach(asks, i + 1) {
            assert(hedge_preferred(inp, st));
            lemma_take_or_spent(inp, st);
            lemma_no_further_share(inp, st.hedged, st.ask_at, i);
        }
    }
}

/// A plan never costs more than the budget at its limit price, but for a whole number of shares to
/// which the division was rounded up: one share less is always paid for.
pub proof fn law_hedge_keeps_to_the_budget(inp: PlanInput, r: HedgeResolution)
    requires
        crate::trading::hedge_executor::resolves(inp, r),
        whole_cent_sizes(inp),
        priced_fairly(inp),
        0 < inp.budget < max_value(),
        r.hedge_shares@ > 0,
        exists|k: int|
            0 <= k < inp.asks.len() && r.hedge_limit_price@ == (#[trigger] inp.asks[k]).price@
                + inp.tick,
    ensures
        (r.hedge_shares@ - unit()) * r.hedge_limit_price@ < inp.budget * unit(),
{
    let u = unit();
    let l = r.hedge_limit_price@;
    let h = r.hedge_shares@;
    let b = inp.budget;
    let k = choose|k: int|
        0 <= k < inp.asks.len() && r.hedge_limit_price@ == (#[trigger] inp.asks[k]).price@
            + inp.tick;
    assert(inp.asks[k].price@ >= 0);
    let q = quotient(b, l);
    if h * l <= b * u {
        assert((h - u) * l < b * u) by (nonlinear_arith)
            requires
                h * l <= b * u,
                l > 0,
                u > 0,
        ;
    } else {
        // The quotient is a whole number above the exact one; the whole number before it is not.
        assert(q % u == 0 && q * l > b * u);
        let w = q / u;
        crate::trading::hedge_executor::lemma_representable_bound(q);
        lemma_whole(w - 1);
        if ((w - 1) * u) * l >= b * u {
            assert(q <= (w - 1) * u);
        }
        assert((h - u) * l <= ((w - 1) * u) * l) by (nonlinear_arith)
            requires
                h <= w * u,
                l > 0,
        ;
    }
}

} // verus!
