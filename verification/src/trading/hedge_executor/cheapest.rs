//! No other split of the resolved shares between the two books costs less, and what is left over has
//! no exit.

use crate::decimal::{
    cent, difference, floor_value, max_of, max_value, min_of, quotient, representable, sum, unit,
};
use crate::models::PriceLevel;
use crate::trading::hedge_executor::{
    conserved, cuttable, hedge_preferred, hedge_take, lemma_cents_exact, lemma_cents_moved,
    lemma_conserved, lemma_hedge_take, lemma_whole_cents_multiple, plan_after, plan_fits, plan_step,
    planned, route, step_fits, whole_cent_sizes, whole_cents, HedgeResolution, PlanInput, PlanState,
    Route,
};
use vstd::prelude::*;

pub mod exits;

verus! {

/// What a share costs at a level, and how many shares there are.
pub struct Rung {
    pub price: int,
    pub size: int,
}

/// Asks as costs.
pub open spec fn ask_rungs(levels: Seq<PriceLevel>) -> Seq<Rung> {
    levels.map_values(|l: PriceLevel| Rung { price: l.price@, size: l.size@ })
}

/// Bids as costs: what is sold brings money in.
pub open spec fn bid_rungs(levels: Seq<PriceLevel>) -> Seq<Rung> {
    levels.map_values(|l: PriceLevel| Rung { price: -l.price@, size: l.size@ })
}

/// The shares of the first `n` rungs.
pub open spec fn reach(rungs: Seq<Rung>, n: int) -> int
    decreases n,
{
    if n <= 0 {
        0
    } else {
        reach(rungs, n - 1) + rungs[n - 1].size
    }
}

/// What `shares` cost when they are taken from the first rung on.
pub open spec fn paid(rungs: Seq<Rung>, shares: int) -> int
    decreases rungs.len(),
{
    if rungs.len() == 0 || shares <= 0 {
        0
    } else {
        let take = min_of(shares, rungs[0].size);
        take * rungs[0].price + paid(rungs.drop_first(), shares - take)
    }
}

/// What it costs to buy the opposite token for `hedged` shares, each pair of which pays out one,
/// and to sell `sold` shares back, all bought at the price of the fill.
pub open spec fn split_cost(inp: PlanInput, hedged: int, sold: int) -> int {
    inp.fill * (hedged + sold) + paid(ask_rungs(inp.asks), hedged) - hedged * unit() + paid(
        bid_rungs(inp.bids),
        sold,
    )
}

/// Every level holds shares, asks are listed from the lowest up and bids from the highest down.
pub open spec fn sorted_books(inp: PlanInput) -> bool {
    &&& forall|i: int| 0 <= i < inp.asks.len() ==> (#[trigger] inp.asks[i]).size@ > 0
    &&& forall|i: int| 0 <= i < inp.bids.len() ==> (#[trigger] inp.bids[i]).size@ > 0
    &&& forall|i: int, j: int|
        0 <= i <= j < inp.asks.len() ==> (#[trigger] inp.asks[i]).price@ <= (
        #[trigger] inp.asks[j]).price@
    &&& forall|i: int, j: int|
        0 <= i <= j < inp.bids.len() ==> (#[trigger] inp.bids[i]).price@ >= (
        #[trigger] inp.bids[j]).price@
}

/// The costs that are compared need no rounding.
pub open spec fn compared_exactly(inp: PlanInput) -> bool {
    &&& forall|i: int|
        0 <= i < inp.asks.len() ==> representable(inp.fill + (#[trigger] inp.asks[i]).price@)
            && representable(inp.fill + inp.asks[i].price@ - unit())
    &&& forall|i: int|
        0 <= i < inp.bids.len() ==> representable(inp.fill - (#[trigger] inp.bids[i]).price@)
}

spec fn sizes_counted(rungs: Seq<Rung>) -> bool {
    forall|i: int| 0 <= i < rungs.len() ==> (#[trigger] rungs[i]).size >= 0
}

proof fn lemma_rest_counted(rungs: Seq<Rung>)
    requires
        rungs.len() > 0,
        sizes_counted(rungs),
    ensures
        sizes_counted(rungs.drop_first()),
        forall|i: int| 0 <= i < rungs.len() - 1 ==> #[trigger] rungs.drop_first()[i] == rungs[i + 1],
{
    let rest = rungs.drop_first();
    assert forall|i: int| 0 <= i < rest.len() implies (#[trigger] rest[i]).size >= 0 by {
        assert(rest[i] == rungs[i + 1]);
    }
}

proof fn lemma_reach_split(rungs: Seq<Rung>, n: int)
    requires
        1 <= n <= rungs.len(),
    ensures
        reach(rungs, n) == rungs[0].size + reach(rungs.drop_first(), n - 1),
    decreases n,
{
    if n > 1 {
        lemma_reach_split(rungs, n - 1);
        assert(rungs.drop_first()[n - 2] == rungs[n - 1]);
    } else {
        assert(reach(rungs, 0) == 0);
    }
}

proof fn lemma_reach_grows(rungs: Seq<Rung>, i: int, j: int)
    requires
        0 <= i <= j <= rungs.len(),
        sizes_counted(rungs),
    ensures
        0 <= reach(rungs, i) <= reach(rungs, j),
    decreases j,
{
    if i < j {
        lemma_reach_grows(rungs, i, j - 1);
        assert(rungs[j - 1].size >= 0);
    } else if j > 0 {
        lemma_reach_grows(rungs, i - 1, j - 1);
        assert(rungs[j - 1].size >= 0);
    }
}

/// Once the first rung is used up, the rest is taken from the others.
proof fn lemma_paid_split(rungs: Seq<Rung>, shares: int)
    requires
        rungs.len() > 0,
        0 <= rungs[0].size <= shares,
    ensures
        paid(rungs, shares) == rungs[0].size * rungs[0].price + paid(
            rungs.drop_first(),
            shares - rungs[0].size,
        ),
{
    if shares == 0 {
        assert(rungs[0].size * rungs[0].price == 0) by (nonlinear_arith)
            requires
                rungs[0].size == 0,
        ;
    }
}

/// Within the first rung each share costs its price.
proof fn lemma_paid_first(rungs: Seq<Rung>, shares: int)
    requires
        rungs.len() > 0,
        0 <= shares <= rungs[0].size,
    ensures
        paid(rungs, shares) == shares * rungs[0].price,
{
    if shares == 0 {
        assert(shares * rungs[0].price == 0) by (nonlinear_arith)
            requires
                shares == 0,
        ;
    } else {
        assert(paid(rungs.drop_first(), 0) == 0);
    }
}

proof fn lemma_scale(n: int, a: int, b: int)
    requires
        0 <= n,
        a <= b,
    ensures
        n * a <= n * b,
{
    assert(n * a <= n * b) by (nonlinear_arith)
        requires
            0 <= n,
            a <= b,
    ;
}

proof fn lemma_together(m: int, n: int, c: int)
    ensures
        m * c + n * c == (m + n) * c,
{
    assert(m * c + n * c == (m + n) * c) by (nonlinear_arith);
}

/// Further shares cost at least what the next rung asks.
proof fn lemma_up(rungs: Seq<Rung>, x: int, y: int, i: int, c: int)
    requires
        sizes_counted(rungs),
        0 <= x <= y <= reach(rungs, rungs.len() as int),
        0 <= i <= rungs.len(),
        reach(rungs, i) <= x,
        forall|k: int| i <= k < rungs.len() ==> (#[trigger] rungs[k]).price >= c,
    ensures
        paid(rungs, y) - paid(rungs, x) >= (y - x) * c,
    decreases rungs.len(),
{
    if rungs.len() == 0 {
        assert(x == 0 && y == 0);
        assert((y - x) * c == 0) by (nonlinear_arith)
            requires
                x == y,
        ;
    } else {
        let first = rungs[0];
        let rest = rungs.drop_first();
        let n = rungs.len() as int;
        lemma_rest_counted(rungs);
        lemma_reach_split(rungs, n);
        assert(first.size >= 0);
        if i > 0 {
            lemma_reach_split(rungs, i);
            lemma_reach_grows(rest, 0, i - 1);
        }
        let j = if i > 0 {
            i - 1
        } else {
            0
        };
        assert forall|k: int| j <= k < rest.len() implies (#[trigger] rest[k]).price >= c by {
            assert(rest[k] == rungs[k + 1]);
        }
        if x >= first.size {
            lemma_paid_split(rungs, x);
            lemma_paid_split(rungs, y);
            lemma_up(rest, x - first.size, y - first.size, j, c);
        } else {
            assert(i == 0);
            assert(rungs[0].price >= c);
            lemma_paid_first(rungs, x);
            if y <= first.size {
                lemma_paid_first(rungs, y);
                lemma_together(y - x, x, first.price);
                lemma_scale(y - x, c, first.price);
            } else {
                lemma_paid_split(rungs, y);
                lemma_up(rest, 0, y - first.size, 0, c);
                lemma_together(first.size - x, x, first.price);
                lemma_scale(first.size - x, c, first.price);
                lemma_together(first.size - x, y - first.size, c);
            }
        }
    }
}

/// The last shares cost at most what the dearest rung in use asks.
proof fn lemma_down(rungs: Seq<Rung>, x: int, y: int, j: int, c: int)
    requires
        sizes_counted(rungs),
        0 <= x <= y <= reach(rungs, j),
        0 <= j <= rungs.len(),
        forall|k: int| 0 <= k < j ==> (#[trigger] rungs[k]).price <= c,
    ensures
        paid(rungs, y) - paid(rungs, x) <= (y - x) * c,
    decreases rungs.len(),
{
    if j == 0 {
        assert((y - x) * c == 0) by (nonlinear_arith)
            requires
                x == y,
        ;
    } else {
        let first = rungs[0];
        let rest = rungs.drop_first();
        lemma_rest_counted(rungs);
        lemma_reach_split(rungs, j);
        assert(first.size >= 0);
        assert(first.price <= c);
        assert forall|k: int| 0 <= k < j - 1 implies (#[trigger] rest[k]).price <= c by {
            assert(rest[k] == rungs[k + 1]);
        }
        if x >= first.size {
            lemma_paid_split(rungs, x);
            lemma_paid_split(rungs, y);
            lemma_down(rest, x - first.size, y - first.size, j - 1, c);
        } else {
            lemma_paid_first(rungs, x);
            if y <= first.size {
                lemma_paid_first(rungs, y);
                lemma_together(y - x, x, first.price);
                lemma_scale(y - x, first.price, c);
            } else {
                lemma_paid_split(rungs, y);
                lemma_down(rest, 0, y - first.size, j - 1, c);
                lemma_together(first.size - x, x, first.price);
                lemma_scale(first.size - x, first.price, c);
                lemma_together(first.size - x, y - first.size, c);
            }
        }
    }
}

/// Some of the level was taken.
spec fn in_use(levels: Seq<PriceLevel>, at: int, left: int, k: int) -> bool {
    0 <= k < levels.len() && (k < at || k == at && left < levels[k].size@)
}

/// The shares taken are those of the levels passed, and what is missing from the level in use.
spec fn taken_in_order(
    levels: Seq<PriceLevel>,
    rungs: Seq<Rung>,
    at: int,
    left: int,
    taken: int,
) -> bool {
    &&& 0 <= at <= levels.len()
    &&& at < levels.len() ==> 0 < left <= levels[at].size@ && taken == reach(rungs, at)
        + levels[at].size@ - left
    &&& at == levels.len() ==> taken == reach(rungs, at)
}

/// Shares were taken in order, and each by the cheaper exit of the time.
spec fn cheaply_placed(inp: PlanInput, st: PlanState) -> bool {
    &&& taken_in_order(inp.asks, ask_rungs(inp.asks), st.ask_at, st.ask_left, st.hedged)
    &&& taken_in_order(inp.bids, bid_rungs(inp.bids), st.bid_at, st.bid_left, st.sold)
    &&& st.ask_at < inp.asks.len() ==> forall|k: int|
        #![trigger inp.bids[k]]
        in_use(inp.bids, st.bid_at, st.bid_left, k) ==> inp.asks[st.ask_at].price@
            + inp.bids[k].price@ >= unit()
    &&& st.bid_at < inp.bids.len() ==> forall|k: int|
        #![trigger inp.asks[k]]
        in_use(inp.asks, st.ask_at, st.ask_left, k) ==> inp.asks[k].price@
            + inp.bids[st.bid_at].price@ <= unit()
}

spec fn ordinary_books(inp: PlanInput) -> bool {
    &&& cuttable(inp.total)
    &&& whole_cent_sizes(inp)
    &&& sorted_books(inp)
    &&& compared_exactly(inp)
    &&& inp.budget == max_value()
}

proof fn lemma_placed_step(inp: PlanInput, st: PlanState)
    requires
        ordinary_books(inp),
        conserved(inp, st),
        cheaply_placed(inp, st),
    ensures
        cheaply_placed(inp, plan_step(inp, st)),
{
    lemma_whole_cents_multiple(inp.total);
    let next = plan_step(inp, st);
    match route(inp, st) {
        Route::Stop => {},
        Route::Hedge(take) => {
            lemma_hedge_take(inp, st);
            lemma_cents_moved(st.hedged, st.remaining, take);
            lemma_cents_moved(0, st.ask_left, take);
            assert(inp.asks[st.ask_at].size@ > 0);
            assert(difference(st.ask_left, take) == st.ask_left - take);
            if st.ask_left == take {
                assert(reach(ask_rungs(inp.asks), st.ask_at + 1) == reach(
                    ask_rungs(inp.asks),
                    st.ask_at,
                ) + inp.asks[st.ask_at].size@);
                if st.ask_at + 1 < inp.asks.len() {
                    assert(inp.asks[st.ask_at + 1].size@ > 0);
                }
            }
            if next.ask_at < inp.asks.len() {
                assert(inp.asks[st.ask_at].price@ <= inp.asks[next.ask_at].price@);
            }
            assert forall|k: int|
                #![trigger inp.asks[k]]
                next.bid_at < inp.bids.len() && in_use(
                    inp.asks,
                    next.ask_at,
                    next.ask_left,
                    k,
                ) implies inp.asks[k].price@ + inp.bids[next.bid_at].price@ <= unit() by {
                if k == st.ask_at {
                    assert(representable(inp.fill + inp.asks[k].price@));
                    assert(representable(inp.fill - inp.bids[st.bid_at].price@));
                } else {
                    assert(in_use(inp.asks, st.ask_at, st.ask_left, k));
                }
            }
        },
        Route::Sell(take) => {
            lemma_cents_moved(st.sold, st.remaining, take);
            lemma_cents_moved(0, st.bid_left, take);
            assert(inp.bids[st.bid_at].size@ > 0);
            if st.bid_left == take {
                assert(reach(bid_rungs(inp.bids), st.bid_at + 1) == reach(
                    bid_rungs(inp.bids),
                    st.bid_at,
                ) + inp.bids[st.bid_at].size@);
                if st.bid_at + 1 < inp.bids.len() {
                    assert(inp.bids[st.bid_at + 1].size@ > 0);
                }
            }
            if next.bid_at < inp.bids.len() {
                assert(inp.bids[st.bid_at].price@ >= inp.bids[next.bid_at].price@);
            }
            assert(st.ask_at < inp.asks.len() ==> !hedge_preferred(inp, st)) by {
                if st.ask_at < inp.asks.len() {
                    assert(hedge_take(inp, st) == min_of(st.remaining, st.ask_left));
                }
            }
            assert forall|k: int|
                #![trigger inp.bids[k]]
                next.ask_at < inp.asks.len() && in_use(
                    inp.bids,
                    next.bid_at,
                    next.bid_left,
                    k,
                ) implies inp.asks[next.ask_at].price@ + inp.bids[k].price@ >= unit() by {
                if k == st.bid_at {
                    assert(representable(inp.fill + inp.asks[st.ask_at].price@));
                    assert(representable(inp.fill - inp.bids[k].price@));
                } else {
                    assert(in_use(inp.bids, st.bid_at, st.bid_left, k));
                }
            }
        },
    }
}

proof fn lemma_placed(inp: PlanInput, n: nat)
    requires
        ordinary_books(inp),
    ensures
        conserved(inp, plan_after(inp, n)),
        cheaply_placed(inp, plan_after(inp, n)),
    decreases n,
{
    lemma_conserved(inp, n);
    if n > 0 {
        lemma_placed(inp, (n - 1) as nat);
        lemma_placed_step(inp, plan_after(inp, (n - 1) as nat));
    } else {
        assert(reach(ask_rungs(inp.asks), 0) == 0 && reach(bid_rungs(inp.bids), 0) == 0);
        if inp.asks.len() > 0 {
            assert(inp.asks[0].size@ > 0);
        }
        if inp.bids.len() > 0 {
            assert(inp.bids[0].size@ > 0);
        }
    }
}

/// Without a budget, over sorted books whose levels hold whole hundredths and are compared without
/// rounding, no other split of the same shares between hedging and selling back costs less.
pub proof fn law_no_split_is_cheaper(
    inp: PlanInput,
    n: nat,
    r: HedgeResolution,
    hedged: int,
    sold: int,
)
    requires
        cuttable(inp.total),
        whole_cent_sizes(inp),
        sorted_books(inp),
        compared_exactly(inp),
        inp.budget == max_value(),
        planned(inp, n, r),
        0 <= hedged <= reach(ask_rungs(inp.asks), inp.asks.len() as int),
        0 <= sold <= reach(bid_rungs(inp.bids), inp.bids.len() as int),
        hedged + sold == r.hedge_shares@ + r.sellback_shares@,
    ensures
        split_cost(inp, r.hedge_shares@, r.sellback_shares@) <= split_cost(inp, hedged, sold),
{
    let st = plan_after(inp, n);
    lemma_placed(inp, n);
    lemma_whole_cents_multiple(st.hedged);
    lemma_whole_cents_multiple(st.sold);
    let asks = ask_rungs(inp.asks);
    let bids = bid_rungs(inp.bids);
    assert(sizes_counted(asks)) by {
        assert forall|i: int| 0 <= i < asks.len() implies (#[trigger] asks[i]).size >= 0 by {
            assert(inp.asks[i].size@ > 0);
        }
    }
    assert(sizes_counted(bids)) by {
        assert forall|i: int| 0 <= i < bids.len() implies (#[trigger] bids[i]).size >= 0 by {
            assert(inp.bids[i].size@ > 0);
        }
    }
    let (h, s) = (st.hedged, st.sold);
    if hedged > h {
        let d = hedged - h;
        let c = inp.asks[st.ask_at].price@;
        assert(st.ask_at < inp.asks.len());
        assert forall|k: int| st.ask_at <= k < asks.len() implies (#[trigger] asks[k]).price
            >= c by {
            assert(inp.asks[st.ask_at].price@ <= inp.asks[k].price@);
        }
        lemma_up(asks, h, hedged, st.ask_at, c);
        let j = used_up_to(inp.bids, st.bid_at, st.bid_left);
        assert(reach(bids, st.bid_at + 1) == reach(bids, st.bid_at) + bids[st.bid_at].size);
        assert forall|k: int| 0 <= k < j implies (#[trigger] bids[k]).price <= c - unit() by {
            assert(in_use(inp.bids, st.bid_at, st.bid_left, k));
            assert(inp.asks[st.ask_at].price@ + inp.bids[k].price@ >= unit());
        }
        lemma_down(bids, sold, s, j, c - unit());
        assert(d * c - d * unit() == d * (c - unit())) by (nonlinear_arith);
        assert(hedged * unit() == h * unit() + d * unit()) by (nonlinear_arith)
            requires
                hedged == h + d,
        ;
    } else if hedged < h {
        let d = h - hedged;
        let c = inp.bids[st.bid_at].price@;
        assert(st.bid_at < inp.bids.len());
        assert forall|k: int| st.bid_at <= k < bids.len() implies (#[trigger] bids[k]).price
            >= -c by {
            assert(inp.bids[st.bid_at].price@ >= inp.bids[k].price@);
        }
        lemma_up(bids, s, sold, st.bid_at, -c);
        let j = used_up_to(inp.asks, st.ask_at, st.ask_left);
        assert(reach(asks, st.ask_at + 1) == reach(asks, st.ask_at) + asks[st.ask_at].size);
        assert forall|k: int| 0 <= k < j implies (#[trigger] asks[k]).price <= unit() - c by {
            assert(in_use(inp.asks, st.ask_at, st.ask_left, k));
            assert(inp.asks[k].price@ + inp.bids[st.bid_at].price@ <= unit());
        }
        lemma_down(asks, hedged, h, j, unit() - c);
        assert(d * unit() + d * (-c) == d * (unit() - c)) by (nonlinear_arith);
        assert(h * unit() == hedged * unit() + d * unit()) by (nonlinear_arith)
            requires
                h == hedged + d,
        ;
    }
}

/// How many levels were touched.
spec fn used_up_to(levels: Seq<PriceLevel>, at: int, left: int) -> int {
    if at < levels.len() && left < levels[at].size@ {
        at + 1
    } else {
        at
    }
}

/// Every level holds shares, and asks are listed from the lowest up.
pub open spec fn usable_books(inp: PlanInput) -> bool {
    &&& forall|i: int| 0 <= i < inp.asks.len() ==> (#[trigger] inp.asks[i]).size@ > 0
    &&& forall|i: int| 0 <= i < inp.bids.len() ==> (#[trigger] inp.bids[i]).size@ > 0
    &&& forall|i: int, j: int|
        0 <= i <= j < inp.asks.len() ==> (#[trigger] inp.asks[i]).price@ <= (
        #[trigger] inp.asks[j]).price@
}

/// The budget pays for no more than `hedged` shares at the limit price that an ask of `price` leads
/// to.
pub open spec fn budget_is_spent(inp: PlanInput, hedged: int, price: int) -> bool {
    let budget = max_of(inp.budget, 0);
    let limit = sum(max_of(0, price), inp.tick);
    &&& budget != max_value()
    &&& limit <= 0 || budget <= 0 || floor_value(quotient(budget, limit)) <= hedged
}

/// Shares were taken in order, and the worst ask is no worse than the one in use.
spec fn taken_from_both(inp: PlanInput, st: PlanState) -> bool {
    &&& taken_in_order(inp.asks, ask_rungs(inp.asks), st.ask_at, st.ask_left, st.hedged)
    &&& taken_in_order(inp.bids, bid_rungs(inp.bids), st.bid_at, st.bid_left, st.sold)
    &&& st.ask_at < inp.asks.len() ==> st.worst_ask <= max_of(0, inp.asks[st.ask_at].price@)
    &&& st.worst_ask >= 0
}

proof fn lemma_taken_step(inp: PlanInput, st: PlanState)
    requires
        cuttable(inp.total),
        whole_cent_sizes(inp),
        usable_books(inp),
        conserved(inp, st),
        taken_from_both(inp, st),
    ensures
        taken_from_both(inp, plan_step(inp, st)),
{
    lemma_whole_cents_multiple(inp.total);
    let next = plan_step(inp, st);
    match route(inp, st) {
        Route::Stop => {},
        Route::Hedge(take) => {
            lemma_hedge_take(inp, st);
            lemma_cents_moved(st.hedged, st.remaining, take);
            lemma_cents_moved(0, st.ask_left, take);
            assert(inp.asks[st.ask_at].size@ > 0);
            if st.ask_left == take {
                assert(reach(ask_rungs(inp.asks), st.ask_at + 1) == reach(
                    ask_rungs(inp.asks),
                    st.ask_at,
                ) + inp.asks[st.ask_at].size@);
                if st.ask_at + 1 < inp.asks.len() {
                    assert(inp.asks[st.ask_at + 1].size@ > 0);
                }
            }
            if next.ask_at < inp.asks.len() {
                assert(inp.asks[st.ask_at].price@ <= inp.asks[next.ask_at].price@);
            }
        },
        Route::Sell(take) => {
            lemma_cents_moved(st.sold, st.remaining, take);
            lemma_cents_moved(0, st.bid_left, take);
            assert(inp.bids[st.bid_at].size@ > 0);
            if st.bid_left == take {
                assert(reach(bid_rungs(inp.bids), st.bid_at + 1) == reach(
                    bid_rungs(inp.bids),
                    st.bid_at,
                ) + inp.bids[st.bid_at].size@);
                if st.bid_at + 1 < inp.bids.len() {
                    assert(inp.bids[st.bid_at + 1].size@ > 0);
                }
            }
        },
    }
}

proof fn lemma_taken_from_both(inp: PlanInput, n: nat)
    requires
        cuttable(inp.total),
        whole_cent_sizes(inp),
        usable_books(inp),
    ensures
        conserved(inp, plan_after(inp, n)),
        taken_from_both(inp, plan_after(inp, n)),
    decreases n,
{
    lemma_conserved(inp, n);
    if n > 0 {
        lemma_taken_from_both(inp, (n - 1) as nat);
        lemma_taken_step(inp, plan_after(inp, (n - 1) as nat));
    } else {
        assert(reach(ask_rungs(inp.asks), 0) == 0 && reach(bid_rungs(inp.bids), 0) == 0);
        if inp.asks.len() > 0 {
            assert(inp.asks[0].size@ > 0);
        }
        if inp.bids.len() > 0 {
            assert(inp.bids[0].size@ > 0);
        }
    }
}

/// Shares that would be cheaper to hedge, but that the budget does not pay for, are sold back while
/// bids last.
pub proof fn law_unaffordable_shares_go_to_the_bids(inp: PlanInput, st: PlanState)
    requires
        st.remaining > 0,
        hedge_preferred(inp, st),
        hedge_take(inp, st) <= 0,
        0 <= st.bid_at < inp.bids.len(),
        st.bid_left > 0,
    ensures
        route(inp, st) == Route::Sell(min_of(st.remaining, st.bid_left)),
{
}

/// Whatever the budget, shares stay unresolved only once every bid is used up, and the asks are too
/// or the budget does not pay for a further share at the ask that comes next.
pub proof fn law_unresolved_shares_have_no_exit(inp: PlanInput, n: nat, r: HedgeResolution)
    requires
        plan_fits(inp),
        whole_cent_sizes(inp),
        usable_books(inp),
        planned(inp, n, r),
        r.unresolved_shares@ > 0,
    ensures
        r.sellback_shares@ == reach(bid_rungs(inp.bids), inp.bids.len() as int),
        r.hedge_shares@ == reach(ask_rungs(inp.asks), inp.asks.len() as int) || exists|k: int|
            0 <= k < inp.asks.len() && reach(ask_rungs(inp.asks), k) <= r.hedge_shares@ < reach(
                ask_rungs(inp.asks),
                k + 1,
            ) && budget_is_spent(inp, r.hedge_shares@, (#[trigger] inp.asks[k]).price@),
{
    let st = plan_after(inp, n);
    lemma_taken_from_both(inp, n);
    lemma_whole_cents_multiple(inp.total);
    lemma_whole_cents_multiple(st.hedged);
    lemma_whole_cents_multiple(st.sold);
    lemma_whole_cents_multiple(st.remaining);
    assert(step_fits(inp, st));
    assert(st.bid_at == inp.bids.len());
    if st.ask_at < inp.asks.len() {
        let k = st.ask_at;
        let asks = ask_rungs(inp.asks);
        assert(reach(asks, k + 1) == reach(asks, k) + asks[k].size);
        assert(hedge_preferred(inp, st));
        let budget = max_of(inp.budget, 0);
        let limit = sum(max_of(0, inp.asks[k].price@), inp.tick);
        assert(max_of(st.worst_ask, inp.asks[k].price@) == max_of(0, inp.asks[k].price@));
        if budget != max_value() && limit > 0 && budget > 0 {
            let whole = floor_value(quotient(budget, limit));
            let most = whole_cents(whole);
            lemma_whole_cents_multiple(whole);
            assert(whole % cent() == 0);
            if most > st.hedged {
                lemma_cents_exact(most - st.hedged);
                lemma_whole_cents_multiple(most - st.hedged);
            }
        }
        assert(budget_is_spent(inp, r.hedge_shares@, inp.asks[k].price@));
    }
}

/// Without a budget limit, shares stay unresolved only once both books are used up.
pub proof fn law_only_empty_books_leave_shares(inp: PlanInput, n: nat, r: HedgeResolution)
    requires
        cuttable(inp.total),
        whole_cent_sizes(inp),
        sorted_books(inp),
        compared_exactly(inp),
        inp.budget == max_value(),
        planned(inp, n, r),
        r.unresolved_shares@ > 0,
    ensures
        r.hedge_shares@ == reach(ask_rungs(inp.asks), inp.asks.len() as int),
        r.sellback_shares@ == reach(bid_rungs(inp.bids), inp.bids.len() as int),
{
    let st = plan_after(inp, n);
    lemma_placed(inp, n);
    lemma_whole_cents_multiple(st.hedged);
    lemma_whole_cents_multiple(st.sold);
    lemma_whole_cents_multiple(st.remaining);
    if st.ask_at < inp.asks.len() {
        assert(hedge_take(inp, st) == min_of(st.remaining, st.ask_left));
    }
}

} // verus!
