//! What the figures of a market's viability must satisfy.

use crate::decimal::{
    is_rounding, lemma_cents_add_up, lemma_exact_product, lemma_exact_product_fits,
    lemma_ratio_rounding_error, lemma_representable_bound, mantissa_bound, pow10, representable,
    unit,
};
use crate::models::{QuoteCandidate, QuoteLeg, QuoteStatus};
use crate::strategy::hedgeability::HedgeabilityReport;
use crate::strategy::quote_engine::four_places;
use crate::strategy::viability::{
    bid_shares, committed_shares, cost_fits, hedge_cost, pairs, shares_fit, viability,
    viability_fits, viability_rounds, ViabilityView,
};
use vstd::prelude::*;

verus! {

/// Reward and hedge cost make up the edge: what is earned is spent on the hedges or left over.
pub proof fn law_edge_and_cost_make_up_the_reward(
    daily_reward: int,
    share: int,
    discount: int,
    candidates: Seq<QuoteCandidate>,
    reports: Seq<HedgeabilityReport>,
    quote_size: int,
)
    requires
        ({
            let v = viability(daily_reward, share, discount, candidates, reports, quote_size);
            representable(v.reward - v.hedge_cost)
        }),
    ensures
        ({
            let v = viability(daily_reward, share, discount, candidates, reports, quote_size);
            v.edge + v.hedge_cost == v.reward
        }),
{
}

/// Where no rounding is needed the reward is the pool times our share times the discount.
pub proof fn law_reward_is_a_part_of_the_pool(
    daily_reward: int,
    share: int,
    discount: int,
    candidates: Seq<QuoteCandidate>,
    reports: Seq<HedgeabilityReport>,
    quote_size: int,
    pool: int,
    reward: int,
)
    requires
        pool * unit() == daily_reward * share,
        reward * unit() == pool * discount,
        representable(pool),
        representable(reward),
    ensures
        viability(daily_reward, share, discount, candidates, reports, quote_size).reward == reward,
        viability(daily_reward, share, discount, candidates, reports, quote_size).share == share,
        cost_fits(candidates, reports, pairs(candidates, reports)) && shares_fit(candidates)
            && representable(
            reward - viability(
                daily_reward,
                share,
                discount,
                candidates,
                reports,
                quote_size,
            ).hedge_cost,
        ) ==> viability_fits(daily_reward, share, discount, candidates, reports),
{
    let cost = viability(
        daily_reward,
        share,
        discount,
        candidates,
        reports,
        quote_size,
    ).hedge_cost;
    if representable(reward - cost) {
        lemma_representable_bound(reward - cost);
    }
    lemma_exact_product_fits(daily_reward, share, pool);
    lemma_exact_product_fits(pool, discount, reward);
    lemma_exact_product(daily_reward, share, pool);
    lemma_exact_product(pool, discount, reward);
}

/// A further approved bid with an approved hedge costs what its pair costs beyond the payout of one,
/// for each share; any other quote costs nothing.
pub proof fn law_a_pair_costs_what_exceeds_its_payout(
    daily_reward: int,
    share: int,
    discount: int,
    candidates: Seq<QuoteCandidate>,
    reports: Seq<HedgeabilityReport>,
    quote_size: int,
    c: QuoteCandidate,
    r: HedgeabilityReport,
    cost: int,
)
    requires
        candidates.len() == reports.len(),
        cost * unit() == (c.price@ + r.weighted_avg_hedge_price@ - unit()) * r.candidate_size@,
        representable(c.price@ + r.weighted_avg_hedge_price@),
        representable(c.price@ + r.weighted_avg_hedge_price@ - unit()),
        representable(cost),
        representable(
            viability(daily_reward, share, discount, candidates, reports, quote_size).hedge_cost
                + cost,
        ),
    ensures
        ({
            let before = viability(daily_reward, share, discount, candidates, reports, quote_size);
            let after = viability(
                daily_reward,
                share,
                discount,
                candidates.push(c),
                reports.push(r),
                quote_size,
            );
            &&& after.reward == before.reward
            &&& if c.status == QuoteStatus::Approved && r.is_approved && (c.leg == QuoteLeg::YesBid
                || c.leg == QuoteLeg::NoBid) {
                after.hedge_cost == before.hedge_cost + cost
            } else {
                after.hedge_cost == before.hedge_cost
            }
        }),
        cost_fits(candidates, reports, candidates.len()) ==> cost_fits(
            candidates.push(c),
            reports.push(r),
            candidates.len() + 1,
        ),
{
    let n = candidates.len();
    lemma_representable_bound(c.price@ + r.weighted_avg_hedge_price@);
    lemma_representable_bound(c.price@ + r.weighted_avg_hedge_price@ - unit());
    lemma_representable_bound(
        viability(daily_reward, share, discount, candidates, reports, quote_size).hedge_cost + cost,
    );
    lemma_exact_product_fits(
        c.price@ + r.weighted_avg_hedge_price@ - unit(),
        r.candidate_size@,
        cost,
    );
    lemma_exact_product(
        c.price@ + r.weighted_avg_hedge_price@ - unit(),
        r.candidate_size@,
        cost,
    );
    lemma_cost_of_the_first(candidates, reports, c, r, n);
    assert(pairs(candidates.push(c), reports.push(r)) == n + 1);
}

proof fn lemma_cost_of_the_first(
    candidates: Seq<QuoteCandidate>,
    reports: Seq<HedgeabilityReport>,
    c: QuoteCandidate,
    r: HedgeabilityReport,
    n: nat,
)
    requires
        n <= candidates.len(),
        candidates.len() == reports.len(),
    ensures
        hedge_cost(candidates.push(c), reports.push(r), n) == hedge_cost(candidates, reports, n),
        cost_fits(candidates.push(c), reports.push(r), n) == cost_fits(candidates, reports, n),
    decreases n,
{
    if n > 0 {
        lemma_cost_of_the_first(candidates, reports, c, r, (n - 1) as nat);
        assert(candidates.push(c)[n - 1] == candidates[n - 1]);
        assert(reports.push(r)[n - 1] == reports[n - 1]);
    }
}

/// Without quotes there is no hedge cost.
pub proof fn law_no_quotes_no_cost(
    daily_reward: int,
    share: int,
    discount: int,
    reports: Seq<HedgeabilityReport>,
    quote_size: int,
)
    ensures
        viability(
            daily_reward,
            share,
            discount,
            Seq::empty(),
            reports,
            quote_size,
        ).hedge_cost == 0,
{
}

/// The return is the edge for each share committed: where a decimal equals that, it is the return.
pub proof fn law_return_is_edge_per_share(
    v: ViabilityView,
    daily_reward: int,
    share: int,
    discount: int,
    shares: int,
    exact: int,
)
    requires
        viability_rounds(v, daily_reward, share, discount, shares),
        representable(exact),
        exact * shares == v.edge * unit(),
    ensures
        v.per_share == exact,
        v.per_share * shares == v.edge * unit(),
{
    reveal(viability_rounds);
    assert(v.edge * unit() <= exact * shares && exact * shares <= v.edge * unit());
}

/// With the same reward over the same shares, a market whose hedges cost more returns less, rounding
/// and all: for rewards and costs of at most four places, and figures and shares up to a billion.
#[verifier::spinoff_prover]
#[verifier::rlimit(60)]
pub proof fn law_dearer_hedges_return_less(
    a: ViabilityView,
    b: ViabilityView,
    daily_reward: int,
    share: int,
    discount: int,
    shares: int,
)
    requires
        viability_rounds(a, daily_reward, share, discount, shares),
        viability_rounds(b, daily_reward, share, discount, shares),
        a.reward == b.reward,
        a.hedge_cost < b.hedge_cost,
        four_places(a.reward) && four_places(a.hedge_cost) && four_places(b.hedge_cost),
        -500_000_000 * unit() <= a.reward <= 500_000_000 * unit(),
        -500_000_000 * unit() <= a.hedge_cost,
        b.hedge_cost <= 500_000_000 * unit(),
        shares <= 1_000_000_000 * unit(),
    ensures
        a.per_share > b.per_share,
{
    reveal(viability_rounds);
    lemma_four_place_edge(a.edge, a.reward, a.hedge_cost);
    lemma_four_place_edge(b.edge, b.reward, b.hedge_cost);
    lemma_return_near(a.per_share, a.edge, shares);
    lemma_return_near(b.per_share, b.edge, shares);
    assert(a.edge - b.edge >= 1_000_000_000_000_000_000_000_000) by {
        let g = 1_000_000_000_000_000_000_000_000int;
        let k = (b.hedge_cost - a.hedge_cost) / g;
        assert(b.hedge_cost - a.hedge_cost == k * g);
    }
    assert(b.per_share < a.per_share) by (nonlinear_arith)
        requires
            b.per_share * shares < a.per_share * shares,
            shares > 0,
    ;
}

/// A return is within a billionth of a billionth of the exact one.
proof fn lemma_return_near(per_share: int, edge: int, shares: int)
    requires
        is_rounding(per_share, edge * unit(), shares),
        -1_000_000_000 * unit() <= edge <= 1_000_000_000 * unit(),
        shares >= unit(),
    ensures
        edge * unit() - 1_000_000_000 * shares < per_share * shares < edge * unit() + 1_000_000_000
            * shares,
{
    let u = unit();
    reveal_with_fuel(pow10, 10);
    let t = pow10(9);
    assert(t == 1_000_000_000);
    let m = mantissa_bound() - 1;
    let mt = m * t;
    assert(mt > 1_000_000_000 * u);
    assert(1_000_000_000 * u * u < mt * shares) by (nonlinear_arith)
        requires
            mt > 1_000_000_000 * u,
            shares >= u,
            u > 0,
    ;
    assert(-mt * shares == -(mt * shares)) by (nonlinear_arith);
    assert(-m * t == -mt);
    assert(-(1_000_000_000 * u * u) <= edge * u <= 1_000_000_000 * u * u) by (nonlinear_arith)
        requires
            -1_000_000_000 * u <= edge <= 1_000_000_000 * u,
            u > 0,
    ;
    lemma_ratio_rounding_error(per_share, edge * u, shares, 9);
}

proof fn lemma_four_place_edge(edge: int, reward: int, cost: int)
    requires
        is_rounding(edge, reward - cost, 1),
        four_places(reward) && four_places(cost),
        -1_000_000_000 * unit() <= reward - cost <= 1_000_000_000 * unit(),
    ensures
        edge == reward - cost,
{
    reveal_with_fuel(pow10, 29);
    assert(pow10(24) == 1_000_000_000_000_000_000_000_000);
    let n = (reward - cost) / pow10(24);
    crate::decimal::lemma_grid_point(n, 24);
    assert(reward - cost == n * pow10(24));
}

/// The sizes of the approved bids, added up.
pub open spec fn promised(candidates: Seq<QuoteCandidate>) -> int
    decreases candidates.len(),
{
    if candidates.len() == 0 {
        0
    } else {
        let c = candidates.last();
        promised(candidates.drop_last()) + if c.status == QuoteStatus::Approved && (c.leg
            == QuoteLeg::YesBid || c.leg == QuoteLeg::NoBid) {
            c.size@
        } else {
            0
        }
    }
}

/// Over sizes of whole hundredths, the shares committed are exactly those of the approved bids, but
/// at least one; without any they are those of the quote size.
pub proof fn law_committed_shares_are_those_of_the_bids(
    candidates: Seq<QuoteCandidate>,
    quote_size: int,
)
    requires
        forall|i: int|
            0 <= i < candidates.len() ==> (#[trigger] candidates[i]).size@ >= 0
                && candidates[i].size@ % 100_000_000_000_000_000_000_000_000 == 0,
        promised(candidates) < mantissa_bound() * 100_000_000_000_000_000_000_000_000,
    ensures
        ({
            let shares = promised(candidates);
            let r = committed_shares(candidates, quote_size);
            &&& shares >= unit() ==> r == shares
            &&& 0 < shares < unit() ==> r == unit()
            &&& shares == 0 && quote_size >= unit() ==> r == quote_size
            &&& shares == 0 && quote_size < unit() ==> r == unit()
        }),
        shares_fit(candidates),
{
    lemma_promised(candidates);
}

proof fn lemma_promised(candidates: Seq<QuoteCandidate>)
    requires
        forall|i: int|
            0 <= i < candidates.len() ==> (#[trigger] candidates[i]).size@ >= 0
                && candidates[i].size@ % 100_000_000_000_000_000_000_000_000 == 0,
        promised(candidates) < mantissa_bound() * 100_000_000_000_000_000_000_000_000,
    ensures
        bid_shares(candidates) == promised(candidates),
        shares_fit(candidates),
        promised(candidates) % 100_000_000_000_000_000_000_000_000 == 0,
        0 <= promised(candidates),
    decreases candidates.len(),
{
    if candidates.len() > 0 {
        let rest = candidates.drop_last();
        let last = candidates[candidates.len() - 1];
        assert(last.size@ >= 0);
        assert forall|i: int| 0 <= i < rest.len() implies (#[trigger] rest[i]).size@ >= 0
            && rest[i].size@ % 100_000_000_000_000_000_000_000_000 == 0 by {
            assert(rest[i] == candidates[i]);
        }
        lemma_promised(rest);
        if last.status == QuoteStatus::Approved && (last.leg == QuoteLeg::YesBid || last.leg
            == QuoteLeg::NoBid) {
            lemma_cents_add_up(promised(rest), last.size@);
        }
    }
}

} // verus!
