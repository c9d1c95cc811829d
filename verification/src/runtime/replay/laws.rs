//! What a replay says of a decision.

use crate::config::StrategyConfig;
use crate::decimal::{
    abs_value, difference, lemma_exact_product, lemma_exact_quotient, product, representable, sum,
    unit, value_of,
};
use crate::models::{QuoteCandidate, QuoteStatus};
use crate::runtime::replay::{
    changes, has_approved, replayed_decision, replayed_edge, share_sum, summarizes,
    synthetic_score, synthetic_share, DecisionReport, ReplayDetail, ReplaySummary,
};
use crate::strategy::score_proxy::laws::law_score_is_the_square_of_the_room;
use crate::strategy::score_proxy::{order_score, scored_exactly};
use vstd::prelude::*;

verus! {

/// A quote adds to the replayed score as one of its size does at its distance from one half, above or
/// below, whatever its status: by the square of the room that is left within the largest spread,
/// and nothing beyond it.
pub proof fn law_replayed_quotes_score_from_one_half(
    candidates: Seq<QuoteCandidate>,
    c: QuoteCandidate,
    max_spread: int,
    away: int,
)
    requires
        max_spread > 0,
        2 * away == if 2 * c.price@ >= unit() {
            2 * c.price@ - unit()
        } else {
            unit() - 2 * c.price@
        },
        representable(c.price@ - 50 * crate::decimal::cent()),
        representable(synthetic_score(candidates, max_spread)),
        away < max_spread ==> scored_exactly(max_spread, away, c.size@) && representable(
            synthetic_score(candidates, max_spread) + order_score(max_spread, away, c.size@),
        ),
    ensures
        ({
            let more = synthetic_score(candidates.push(c), max_spread) - synthetic_score(
                candidates,
                max_spread,
            );
            &&& away >= max_spread ==> more == 0
            &&& away < max_spread ==> more * max_spread * max_spread == (max_spread - away) * (
            max_spread - away) * c.size@
            &&& away == 0 ==> more == c.size@
        }),
{
    assert(candidates.push(c).drop_last() =~= candidates);
    assert(candidates.push(c).last() == c);
    if away < max_spread {
        law_score_is_the_square_of_the_room(max_spread, away, c.size@);
    }
}

/// Competition is a multiple of our own score: whatever that is, as long as it is above zero, the
/// share is one in one more than the multiple, kept between its bounds. Without a score, or a
/// spread that is rewarded, it is the least.
pub proof fn law_replayed_share_follows_the_multiple(
    report: DecisionReport,
    config: StrategyConfig,
    others: int,
    part: int,
)
    requires
        ({
            let own = synthetic_score(report.candidate_quotes@, report.max_spread@);
            let multiple = config.score_proxy.competition_multiplier@;
            &&& multiple >= 0
            &&& own >= 0
            &&& others * unit() == own * multiple && representable(others)
            &&& representable(own + others)
            &&& part * (unit() + multiple) == unit() * unit() && representable(part)
            &&& representable(0)
        }),
        config.score_proxy.min_score_share@ <= config.score_proxy.max_score_share@,
    ensures
        ({
            let own = synthetic_score(report.candidate_quotes@, report.max_spread@);
            let least = config.score_proxy.min_score_share@;
            let most = config.score_proxy.max_score_share@;
            let share = synthetic_share(report, config);
            &&& report.max_spread@ <= 0 || own == 0 ==> share == least
            &&& report.max_spread@ > 0 && own > 0 ==> {
                &&& part < least ==> share == least
                &&& part > most ==> share == most
                &&& least <= part <= most ==> share == part
            }
        }),
{
    let own = synthetic_score(report.candidate_quotes@, report.max_spread@);
    let multiple = config.score_proxy.competition_multiplier@;
    let u = unit();
    lemma_exact_product(own, multiple, others);
    assert(others >= 0) by (nonlinear_arith)
        requires
            others * u == own * multiple,
            own >= 0,
            multiple >= 0,
            u > 0,
    ;
    if own > 0 {
        assert(own * u == part * (own + others)) by (nonlinear_arith)
            requires
                others * u == own * multiple,
                part * (u + multiple) == u * u,
                u > 0,
        ;
        lemma_exact_quotient(own, own + others, part);
    } else {
        assert(others == 0) by (nonlinear_arith)
            requires
                others * u == own * multiple,
                own == 0,
                u > 0,
        ;
    }
}

/// The replayed edge and the stored hedge cost make up the reward that the share earns. The market
/// is traded exactly where that edge reaches the threshold and some quote was approved.
pub proof fn law_replayed_edge_decides(
    report: DecisionReport,
    config: StrategyConfig,
    reward: int,
    cost: int,
)
    requires
        reward * unit() == report.daily_reward_total@ * synthetic_share(report, config),
        representable(reward),
        representable(reward - cost),
        match report.reward_viability {
            Some(v) => cost == v.estimated_hedge_cost@,
            None => cost == 0,
        },
    ensures
        replayed_edge(report, config) + cost == reward,
        replayed_decision(report, config) ==> reward - cost >= config.min_edge_threshold@
            && exists|i: int|
            0 <= i < report.candidate_quotes@.len() && (
            #[trigger] report.candidate_quotes@[i]).status == QuoteStatus::Approved,
        forall|i: int|
            0 <= i < report.candidate_quotes@.len() && (
            #[trigger] report.candidate_quotes@[i]).status == QuoteStatus::Approved && reward - cost
                >= config.min_edge_threshold@ ==> replayed_decision(report, config),
{
    lemma_exact_product(
        report.daily_reward_total@,
        synthetic_share(report, config),
        reward,
    );
}

/// How many of the details tell of a decision that came out the other way.
pub open spec fn turned(details: Seq<ReplayDetail>) -> nat
    decreases details.len(),
{
    if details.len() == 0 {
        0
    } else {
        turned(details.drop_last()) + if details.last().original_would_trade
            != details.last().replayed_would_trade {
            1nat
        } else {
            0nat
        }
    }
}

/// The shares in the details, added up.
pub open spec fn credited(details: Seq<ReplayDetail>) -> int
    decreases details.len(),
{
    if details.len() == 0 {
        0
    } else {
        credited(details.drop_last()) + details.last().score_proxy->0@
    }
}

proof fn lemma_turned(
    r: ReplaySummary,
    session_path: String,
    reports: Seq<DecisionReport>,
    config: StrategyConfig,
    n: nat,
)
    requires
        summarizes(r, session_path, reports, config),
        n <= reports.len(),
    ensures
        changes(reports, config, n) == turned(r.details@.take(n as int)),
        (forall|k: int|
            #![trigger r.details@.take(k)]
            0 <= k <= n ==> representable(credited(r.details@.take(k)))) ==> share_sum(
            reports,
            config,
            n,
        ) == credited(r.details@.take(n as int)),
    decreases n,
{
    let all = r.details@;
    if n > 0 {
        lemma_turned(r, session_path, reports, config, (n - 1) as nat);
        assert(all.take(n as int).drop_last() =~= all.take(n - 1));
        assert(all.take(n as int).last() == all[n - 1]);
        assert(crate::runtime::replay::details_report(all[n - 1], reports[n - 1], config));
    }
}

/// A summary counts the details whose decision came out the other way, and averages the shares in
/// them; there is one for each report.
pub proof fn law_summary_counts_its_details(
    r: ReplaySummary,
    session_path: String,
    reports: Seq<DecisionReport>,
    config: StrategyConfig,
    average: int,
)
    requires
        summarizes(r, session_path, reports, config),
        forall|k: int|
            #![trigger r.details@.take(k)]
            0 <= k <= r.details@.len() ==> representable(credited(r.details@.take(k))),
        average * reports.len() == credited(r.details@),
        representable(average),
    ensures
        r.total_markets == r.details@.len() && r.total_markets == reports.len(),
        r.decision_changes == turned(r.details@),
        reports.len() == 0 ==> r.avg_score_proxy is None,
        reports.len() > 0 ==> value_of(r.avg_score_proxy) == Some(average),
{
    let n = reports.len();
    lemma_turned(r, session_path, reports, config, n);
    assert(r.details@.take(n as int) =~= r.details@);
    if n > 0 {
        let total = credited(r.details@);
        assert(total * unit() == average * (n * unit())) by (nonlinear_arith)
            requires
                average * n == total,
        ;
        lemma_exact_quotient(total, n * unit(), average);
    }
}

} // verus!
