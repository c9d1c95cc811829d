//! What the quotes of a market are expected to earn.

use crate::config::StrategyConfig;
use crate::decimal::{
    difference, difference_fits, is_rounding, lemma_ratio_rounding_error, mantissa_bound, max_of,
    pow10, product, product_fits, quotient, representable, sum, sum_fits, unit, Decimal,
};
use crate::models::{CanonicalMarket, QuoteCandidate, QuoteSet, QuoteStatus};
use crate::strategy::hedgeability::HedgeabilityReport;
use crate::strategy::quote_engine::four_places;
use crate::strategy::score_proxy::ScoreProxyResult;
use vstd::pervasive::unreached;
use vstd::prelude::*;

pub mod laws;

verus! {

/// What a market is expected to earn.
#[derive(Clone, Copy, Debug)]
pub struct RewardViability {
    pub estimated_reward: Decimal,
    pub estimated_hedge_cost: Decimal,
    pub estimated_edge: Decimal,
    pub score_share_approx: Decimal,
    pub return_per_share: Decimal,
}

/// The shares of the approved bids, added up from the first.
pub open spec fn bid_shares(candidates: Seq<QuoteCandidate>) -> int
    decreases candidates.len(),
{
    if candidates.len() == 0 {
        0
    } else {
        let c = candidates.last();
        if c.status == QuoteStatus::Approved && c.leg.bids() {
            sum(bid_shares(candidates.drop_last()), c.size@)
        } else {
            bid_shares(candidates.drop_last())
        }
    }
}

/// The shares that the quotes commit: those of the approved bids, or the quote size where there are
/// none; at least one.
pub open spec fn committed_shares(candidates: Seq<QuoteCandidate>, quote_size: int) -> int {
    let shares = bid_shares(candidates);
    max_of(
        if shares > 0 {
            shares
        } else {
            quote_size
        },
        unit(),
    )
}

/// The shares of the approved bids are not too many for a decimal.
pub open spec fn shares_fit(candidates: Seq<QuoteCandidate>) -> bool
    decreases candidates.len(),
{
    candidates.len() == 0 || {
        let c = candidates.last();
        &&& shares_fit(candidates.drop_last())
        &&& c.status == QuoteStatus::Approved && c.leg.bids() ==> sum_fits(
            bid_shares(candidates.drop_last()),
            c.size@,
        )
    }
}

/// Shares that fit also fit as far as they were added up.
proof fn lemma_shares_fit_so_far(candidates: Seq<QuoteCandidate>, i: int)
    requires
        0 <= i <= candidates.len(),
        shares_fit(candidates),
    ensures
        shares_fit(candidates.take(i)),
    decreases candidates.len(),
{
    if i < candidates.len() {
        lemma_shares_fit_so_far(candidates.drop_last(), i);
        assert(candidates.drop_last().take(i) =~= candidates.take(i));
    } else {
        assert(candidates.take(i) =~= candidates);
    }
}

/// Shares committed by the quotes (hedge-aware: one USDC for each), unless they are too many.
pub fn committed_shares_for_quotes(quote_set: &QuoteSet, effective_quote_size: Decimal) -> (r:
    Option<Decimal>)
    ensures
        r is Some == shares_fit(quote_set.candidates@),
        r matches Some(shares) ==> {
            &&& shares@ == committed_shares(quote_set.candidates@, effective_quote_size@)
            &&& shares@ >= unit()
        },
{
    let candidates = &quote_set.candidates;
    let mut shares = Decimal::zero();
    let mut i: usize = 0;
    assert(candidates@.take(0).len() == 0);
    while i < candidates.len()
        invariant
            i <= candidates.len(),
            candidates@ == quote_set.candidates@,
            shares@ == bid_shares(candidates@.take(i as int)),
            shares_fit(candidates@.take(i as int)),
        decreases candidates.len() - i,
    {
        proof {
            assert(candidates@.take(i + 1).drop_last() =~= candidates@.take(i as int));
            assert(candidates@.take(i + 1).last() == candidates@[i as int]);
            if shares_fit(candidates@) {
                lemma_shares_fit_so_far(candidates@, i + 1);
            }
        }
        let c = &candidates[i];
        if c.status == QuoteStatus::Approved && c.leg.is_bid() {
            shares = shares.checked_plus(c.size)?;
        }
        i = i + 1;
    }
    assert(candidates@.take(i as int) =~= candidates@);
    let committed = if shares > Decimal::zero() {
        shares
    } else {
        effective_quote_size
    };
    Some(committed.max(Decimal::one()))
}

fn checked_ranking_metric(
    quote_set: &QuoteSet,
    estimated_reward: Decimal,
    effective_quote_size: Decimal,
) -> (r: Option<Decimal>)
    ensures
        r is Some == shares_fit(quote_set.candidates@),
        r matches Some(metric) ==> {
            &&& metric@ == quotient(
                estimated_reward@,
                committed_shares(quote_set.candidates@, effective_quote_size@),
            )
            &&& is_rounding(
                metric@,
                estimated_reward@ * unit(),
                committed_shares(quote_set.candidates@, effective_quote_size@),
            )
        },
{
    let shares = committed_shares_for_quotes(quote_set, effective_quote_size)?;
    Some(estimated_reward.over_whole(shares))
}

/// Ranking-only metric: discounted reward per hedge-aware share.
/// Unlike `return_per_share`, this intentionally excludes hedge economics
/// from the numerator so favorable pair pricing does not boost ordering.
pub fn compute_reward_per_share_ranking_metric(
    quote_set: &QuoteSet,
    estimated_reward: Decimal,
    effective_quote_size: Decimal,
) -> (r: Decimal)
    requires
        shares_fit(quote_set.candidates@),
    ensures
        r@ == quotient(
            estimated_reward@,
            committed_shares(quote_set.candidates@, effective_quote_size@),
        ),
        is_rounding(
            r@,
            estimated_reward@ * unit(),
            committed_shares(quote_set.candidates@, effective_quote_size@),
        ),
{
    match checked_ranking_metric(quote_set, estimated_reward, effective_quote_size) {
        Some(metric) => metric,
        None => unreached(),
    }
}

/// The ranking metric, unless the shares are too many.
pub fn try_compute_reward_per_share_ranking_metric(
    quote_set: &QuoteSet,
    estimated_reward: Decimal,
    effective_quote_size: Decimal,
) -> (r: Option<Decimal>)
    ensures
        r is Some == shares_fit(quote_set.candidates@),
        r matches Some(metric) ==> metric@ == quotient(
            estimated_reward@,
            committed_shares(quote_set.candidates@, effective_quote_size@),
        ),
{
    if checked_ranking_metric(quote_set, estimated_reward, effective_quote_size).is_some() {
        Some(
            compute_reward_per_share_ranking_metric(
                quote_set,
                estimated_reward,
                effective_quote_size,
            ),
        )
    } else {
        None
    }
}

/// The leg costs to hold: an approved bid whose hedge is approved.
pub open spec fn costs(c: QuoteCandidate, r: HedgeabilityReport) -> bool {
    c.status == QuoteStatus::Approved && r.is_approved && c.leg.bids()
}

/// What the hedged pair of a leg costs beyond its payout of one.
pub open spec fn pair_cost(c: QuoteCandidate, r: HedgeabilityReport) -> int {
    product(
        difference(sum(c.price@, r.weighted_avg_hedge_price@), unit()),
        r.candidate_size@,
    )
}

/// The cost of the first `n` pairs of a candidate and its report, added up.
pub open spec fn hedge_cost(
    candidates: Seq<QuoteCandidate>,
    reports: Seq<HedgeabilityReport>,
    n: nat,
) -> int
    decreases n,
{
    if n == 0 {
        0
    } else {
        let before = hedge_cost(candidates, reports, (n - 1) as nat);
        if costs(candidates[n - 1], reports[n - 1]) {
            sum(before, pair_cost(candidates[n - 1], reports[n - 1]))
        } else {
            before
        }
    }
}

pub open spec fn pairs(
    candidates: Seq<QuoteCandidate>,
    reports: Seq<HedgeabilityReport>,
) -> nat {
    if candidates.len() < reports.len() {
        candidates.len()
    } else {
        reports.len()
    }
}

/// Nothing in the cost of the first `n` pairs is too large for a decimal.
pub open spec fn cost_fits(
    candidates: Seq<QuoteCandidate>,
    reports: Seq<HedgeabilityReport>,
    n: nat,
) -> bool
    decreases n,
{
    n == 0 || {
        let c = candidates[n - 1];
        let r = reports[n - 1];
        let pair = sum(c.price@, r.weighted_avg_hedge_price@);
        &&& cost_fits(candidates, reports, (n - 1) as nat)
        &&& costs(c, r) ==> {
            &&& sum_fits(c.price@, r.weighted_avg_hedge_price@)
            &&& difference_fits(pair, unit())
            &&& product_fits(difference(pair, unit()), r.candidate_size@)
            &&& sum_fits(hedge_cost(candidates, reports, (n - 1) as nat), pair_cost(c, r))
        }
    }
}

/// A cost that fits also fits as far as it was added up.
proof fn lemma_cost_fits_so_far(
    candidates: Seq<QuoteCandidate>,
    reports: Seq<HedgeabilityReport>,
    i: nat,
    n: nat,
)
    requires
        i <= n,
        cost_fits(candidates, reports, n),
    ensures
        cost_fits(candidates, reports, i),
    decreases n,
{
    if i < n {
        lemma_cost_fits_so_far(candidates, reports, i, (n - 1) as nat);
    }
}

fn checked_hedge_cost(candidates: &Vec<QuoteCandidate>, reports: &Vec<HedgeabilityReport>) -> (r:
    Option<Decimal>)
    ensures
        r is Some == cost_fits(candidates@, reports@, pairs(candidates@, reports@)),
        r matches Some(cost) ==> cost@ == hedge_cost(
            candidates@,
            reports@,
            pairs(candidates@, reports@),
        ),
{
    let n: usize = if candidates.len() < reports.len() {
        candidates.len()
    } else {
        reports.len()
    };
    let mut total = Decimal::zero();
    let mut i: usize = 0;
    while i < n
        invariant
            i <= n,
            n == pairs(candidates@, reports@),
            total@ == hedge_cost(candidates@, reports@, i as nat),
            cost_fits(candidates@, reports@, i as nat),
        decreases n - i,
    {
        proof {
            if cost_fits(candidates@, reports@, n as nat) {
                lemma_cost_fits_so_far(candidates@, reports@, (i + 1) as nat, n as nat);
            }
        }
        let c = &candidates[i];
        let r = &reports[i];
        if c.status == QuoteStatus::Approved && r.is_approved && c.leg.is_bid() {
            let pair = c.price.checked_plus(r.weighted_avg_hedge_price)?;
            let over_par = pair.checked_minus(Decimal::one())?;
            let cost = over_par.checked_times(r.candidate_size)?;
            total = total.checked_plus(cost)?;
        }
        i = i + 1;
    }
    Some(total)
}

/// The reward to be expected: our share of the pool, discounted.
pub open spec fn expected_reward(daily_reward: int, share: int, discount: int) -> int {
    product(product(daily_reward, share), discount)
}

pub struct ViabilityView {
    pub reward: int,
    pub hedge_cost: int,
    pub edge: int,
    pub share: int,
    pub per_share: int,
}

impl View for RewardViability {
    type V = ViabilityView;

    open spec fn view(&self) -> ViabilityView {
        ViabilityView {
            reward: self.estimated_reward@,
            hedge_cost: self.estimated_hedge_cost@,
            edge: self.estimated_edge@,
            share: self.score_share_approx@,
            per_share: self.return_per_share@,
        }
    }
}

/// The estimate: reward less hedge cost, for each share committed.
pub open spec fn viability(
    daily_reward: int,
    share: int,
    discount: int,
    candidates: Seq<QuoteCandidate>,
    reports: Seq<HedgeabilityReport>,
    quote_size: int,
) -> ViabilityView {
    let reward = expected_reward(daily_reward, share, discount);
    let cost = hedge_cost(candidates, reports, pairs(candidates, reports));
    let edge = difference(reward, cost);
    ViabilityView {
        reward,
        hedge_cost: cost,
        edge,
        share,
        per_share: quotient(edge, committed_shares(candidates, quote_size)),
    }
}

/// Nothing in the estimate is too large for a decimal.
pub open spec fn viability_fits(
    daily_reward: int,
    share: int,
    discount: int,
    candidates: Seq<QuoteCandidate>,
    reports: Seq<HedgeabilityReport>,
) -> bool {
    let n = pairs(candidates, reports);
    &&& product_fits(daily_reward, share)
    &&& product_fits(product(daily_reward, share), discount)
    &&& cost_fits(candidates, reports, n)
    &&& difference_fits(
        expected_reward(daily_reward, share, discount),
        hedge_cost(candidates, reports, n),
    )
    &&& shares_fit(candidates)
}

/// Each figure is what the ones before it make, or a decimal next to that: reward, edge and return.
#[verifier::opaque]
pub open spec fn viability_rounds(
    v: ViabilityView,
    daily_reward: int,
    share: int,
    discount: int,
    shares: int,
) -> bool {
    &&& exists|pool: int| #[trigger]
        is_rounding(pool, daily_reward * share, unit()) && is_rounding(
            v.reward,
            pool * discount,
            unit(),
        )
    &&& is_rounding(v.edge, v.reward - v.hedge_cost, 1)
    &&& shares >= unit()
    &&& is_rounding(v.per_share, v.edge * unit(), shares)
}

fn checked_viability(
    market: &CanonicalMarket,
    quote_set: &QuoteSet,
    hedge_reports: &Vec<HedgeabilityReport>,
    config: &StrategyConfig,
    score_proxy: &ScoreProxyResult,
    effective_quote_size: Decimal,
) -> (r: Option<(RewardViability, bool)>)
    ensures
        r is Some == viability_fits(
            market.reward_config.daily_reward_total@,
            score_proxy.estimated_share@,
            config.reward_discount_factor@,
            quote_set.candidates@,
            hedge_reports@,
        ),
        r matches Some(v) ==> {
            &&& v.0@ == viability(
                market.reward_config.daily_reward_total@,
                score_proxy.estimated_share@,
                config.reward_discount_factor@,
                quote_set.candidates@,
                hedge_reports@,
                effective_quote_size@,
            )
            &&& v.1 == (v.0@.per_share >= config.min_return_pct@)
            &&& viability_rounds(
                v.0@,
                market.reward_config.daily_reward_total@,
                score_proxy.estimated_share@,
                config.reward_discount_factor@,
                committed_shares(quote_set.candidates@, effective_quote_size@),
            )
        },
{
    let score_share = score_proxy.estimated_share;
    let shared = market.reward_config.daily_reward_total.checked_times(score_share)?;
    let estimated_reward = shared.checked_times(config.reward_discount_factor)?;
    assert(is_rounding(
        shared@,
        market.reward_config.daily_reward_total@ * score_share@,
        unit(),
    ));
    let estimated_hedge_cost = checked_hedge_cost(&quote_set.candidates, hedge_reports)?;
    let estimated_edge = estimated_reward.checked_minus(estimated_hedge_cost)?;
    let capital = committed_shares_for_quotes(quote_set, effective_quote_size)?;
    let return_pct = estimated_edge.over_whole(capital);
    let is_viable = return_pct >= config.min_return_pct;
    reveal(viability_rounds);
    Some(
        (
            RewardViability {
                estimated_reward,
                estimated_hedge_cost,
                estimated_edge,
                score_share_approx: score_share,
                return_per_share: return_pct,
            },
            is_viable,
        ),
    )
}

/// Estimate reward viability for a market's quote set.
///
/// Model:
/// - estimated_reward = daily_reward_total * score_proxy.estimated_share * discount_factor
/// - estimated_hedge_cost = sum of (price + hedge_price - 1) * size across approved bid legs
/// - estimated_edge = estimated_reward - estimated_hedge_cost
/// - return_per_share = estimated_edge / shares_committed  (hedge-aware: $1/share)
///
/// Asks sell existing inventory and add no position cost.
pub fn compute_viability(
    market: &CanonicalMarket,
    quote_set: &QuoteSet,
    hedge_reports: &Vec<HedgeabilityReport>,
    config: &StrategyConfig,
    score_proxy: &ScoreProxyResult,
    effective_quote_size: Decimal,
) -> (r: (RewardViability, bool))
    requires
        viability_fits(
            market.reward_config.daily_reward_total@,
            score_proxy.estimated_share@,
            config.reward_discount_factor@,
            quote_set.candidates@,
            hedge_reports@,
        ),
    ensures
        r.0@ == viability(
            market.reward_config.daily_reward_total@,
            score_proxy.estimated_share@,
            config.reward_discount_factor@,
            quote_set.candidates@,
            hedge_reports@,
            effective_quote_size@,
        ),
        r.1 == (r.0@.per_share >= config.min_return_pct@),
        viability_rounds(
            r.0@,
            market.reward_config.daily_reward_total@,
            score_proxy.estimated_share@,
            config.reward_discount_factor@,
            committed_shares(quote_set.candidates@, effective_quote_size@),
        ),
{
    match checked_viability(
        market,
        quote_set,
        hedge_reports,
        config,
        score_proxy,
        effective_quote_size,
    ) {
        Some(v) => v,
        None => unreached(),
    }
}

/// The viability of a market's quote set, unless some number in it is too large.
pub fn try_compute_viability(
    market: &CanonicalMarket,
    quote_set: &QuoteSet,
    hedge_reports: &Vec<HedgeabilityReport>,
    config: &StrategyConfig,
    score_proxy: &ScoreProxyResult,
    effective_quote_size: Decimal,
) -> (r: Option<(RewardViability, bool)>)
    ensures
        r is Some == viability_fits(
            market.reward_config.daily_reward_total@,
            score_proxy.estimated_share@,
            config.reward_discount_factor@,
            quote_set.candidates@,
            hedge_reports@,
        ),
        r matches Some(v) ==> {
            &&& v.0@ == viability(
                market.reward_config.daily_reward_total@,
                score_proxy.estimated_share@,
                config.reward_discount_factor@,
                quote_set.candidates@,
                hedge_reports@,
                effective_quote_size@,
            )
            &&& v.1 == (v.0@.per_share >= config.min_return_pct@)
            &&& viability_rounds(
                v.0@,
                market.reward_config.daily_reward_total@,
                score_proxy.estimated_share@,
                config.reward_discount_factor@,
                committed_shares(quote_set.candidates@, effective_quote_size@),
            )
        },
{
    if checked_viability(
        market,
        quote_set,
        hedge_reports,
        config,
        score_proxy,
        effective_quote_size,
    ).is_some() {
        Some(
            compute_viability(
                market,
                quote_set,
                hedge_reports,
                config,
                score_proxy,
                effective_quote_size,
            ),
        )
    } else {
        None
    }
}

/// The ranking metric depends on reward and committed shares alone: what the hedges cost makes no
/// difference to it, but it does to the return.
pub proof fn law_ranking_ignores_hedge_cost(
    daily_reward: int,
    share: int,
    discount: int,
    candidates: Seq<QuoteCandidate>,
    reports: Seq<HedgeabilityReport>,
    other_reports: Seq<HedgeabilityReport>,
    quote_size: int,
)
    ensures
        ({
            let a = viability(daily_reward, share, discount, candidates, reports, quote_size);
            let b = viability(
                daily_reward,
                share,
                discount,
                candidates,
                other_reports,
                quote_size,
            );
            &&& a.reward == b.reward
            &&& quotient(a.reward, committed_shares(candidates, quote_size)) == quotient(
                b.reward,
                committed_shares(candidates, quote_size),
            )
            &&& a.hedge_cost == b.hedge_cost ==> a.per_share == b.per_share
        }),
{
}

/// Of two rewards over the same shares the larger one ranks no lower, and higher where rounding
/// leaves room: `between` is a decimal between the exact quotients, and so is `above`.
pub proof fn law_larger_reward_ranks_higher(
    reward: int,
    larger: int,
    shares: int,
    metric: int,
    larger_metric: int,
    between: int,
    above: int,
)
    requires
        shares > 0,
        is_rounding(metric, reward * unit(), shares),
        is_rounding(larger_metric, larger * unit(), shares),
        representable(between),
        representable(above),
        reward * unit() <= between * shares,
        between <= above,
        above * shares <= larger * unit(),
    ensures
        metric <= between <= above <= larger_metric,
        between < above ==> metric < larger_metric,
{
}

/// Of two rewards over the same shares the larger one ranks strictly higher, rounding and all: for
/// rewards of at most four places, and rewards and shares up to a billion.
pub proof fn law_larger_reward_ranks_strictly_higher(
    reward: int,
    larger: int,
    shares: int,
    metric: int,
    larger_metric: int,
)
    requires
        four_places(reward) && four_places(larger),
        -1_000_000_000 * unit() <= reward < larger <= 1_000_000_000 * unit(),
        unit() <= shares <= 1_000_000_000 * unit(),
        is_rounding(metric, reward * unit(), shares),
        is_rounding(larger_metric, larger * unit(), shares),
    ensures
        metric < larger_metric,
{
    let u = unit();
    reveal_with_fuel(pow10, 10);
    let t = pow10(9);
    assert(t == 1_000_000_000);
    let m = mantissa_bound() - 1;
    assert(1_000_000_000 * u * u < m * t * shares && -m * t * shares < -1_000_000_000 * u * u)
        by (nonlinear_arith)
        requires
            t == 1_000_000_000,
            m == 79_228_162_514_264_337_593_543_950_335,
            u == 10_000_000_000_000_000_000_000_000_000,
            shares >= u,
    ;
    lemma_ratio_rounding_error(metric, reward * u, shares, 9);
    lemma_ratio_rounding_error(larger_metric, larger * u, shares, 9);
    assert(larger - reward >= 1_000_000_000_000_000_000_000_000);
    assert(metric < larger_metric) by (nonlinear_arith)
        requires
            metric * shares < larger_metric * shares,
            shares > 0,
    ;
}

/// Only approved bids count for the shares, and so for the ranking: prices, asks and quotes that
/// are not approved make no difference.
pub proof fn law_only_approved_bids_are_committed(
    a: Seq<QuoteCandidate>,
    b: Seq<QuoteCandidate>,
    quote_size: int,
)
    requires
        a.len() == b.len(),
        forall|i: int|
            0 <= i < a.len() ==> (#[trigger] a[i]).leg == b[i].leg && a[i].status == b[i].status && (
            a[i].status == QuoteStatus::Approved && a[i].leg.bids() ==> a[i].size@ == b[i].size@),
    ensures
        committed_shares(a, quote_size) == committed_shares(b, quote_size),
{
    lemma_bid_shares_agree(a, b);
}

proof fn lemma_bid_shares_agree(a: Seq<QuoteCandidate>, b: Seq<QuoteCandidate>)
    requires
        a.len() == b.len(),
        forall|i: int|
            0 <= i < a.len() ==> (#[trigger] a[i]).leg == b[i].leg && a[i].status == b[i].status && (
            a[i].status == QuoteStatus::Approved && a[i].leg.bids() ==> a[i].size@ == b[i].size@),
    ensures
        bid_shares(a) == bid_shares(b),
    decreases a.len(),
{
    if a.len() > 0 {
        let n = a.len() - 1;
        assert(a[n].leg == b[n].leg);
        lemma_bid_shares_agree(a.drop_last(), b.drop_last());
    }
}

/// At least one share is always committed.
pub proof fn law_a_share_is_committed(candidates: Seq<QuoteCandidate>, quote_size: int)
    ensures
        committed_shares(candidates, quote_size) >= unit(),
{
}

} // verus!
