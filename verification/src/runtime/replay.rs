//! Replay of archived decisions with other parameters.

use crate::config::StrategyConfig;
use crate::decimal::{
    abs_value, cent, difference, difference_fits, lemma_pow10_28, product, product_fits, quotient,
    sum, sum_fits, unit, value_of, Decimal,
};
use crate::models::{QuoteCandidate, QuoteStatus};
use crate::strategy::score_proxy::{
    checked_order_score, clamped, order_score, score_fits, share_fits,
};
use crate::strategy::viability::RewardViability;
use vstd::pervasive::unreached;
use vstd::prelude::*;

pub mod laws;

verus! {

/// An archived decision on a market.
#[derive(Debug)]
pub struct DecisionReport {
    pub condition_id: String,
    pub market_slug: String,
    pub would_trade: bool,
    pub candidate_quotes: Vec<QuoteCandidate>,
    pub reward_viability: Option<RewardViability>,
    pub daily_reward_total: Decimal,
    pub max_spread: Decimal,
}

/// Summary of a single replayed session.
#[derive(Debug)]
pub struct ReplaySummary {
    pub session_path: String,
    pub total_markets: usize,
    pub decision_changes: usize,
    pub avg_score_proxy: Option<Decimal>,
    pub details: Vec<ReplayDetail>,
}

/// What became of one decision.
#[derive(Debug)]
pub struct ReplayDetail {
    pub condition_id: String,
    pub market_slug: String,
    pub original_would_trade: bool,
    pub replayed_would_trade: bool,
    pub original_edge: Option<Decimal>,
    pub replayed_edge: Option<Decimal>,
    pub score_proxy: Option<Decimal>,
}

/// Replays archived sessions with current (or overridden) parameters.
///
/// An archive holds no books: viability is evaluated again with a synthetic score proxy based on
/// the stored largest spread and quote prices. This is approximate but still
/// useful for parameter sensitivity analysis.
#[derive(Debug)]
pub struct ReplayEngine {
    pub config: StrategyConfig,
}

/// Simplified per-order score for replay: no mid is known.
pub fn synthetic_order_score(max_spread: Decimal, spread_to_mid: Decimal, size: Decimal) -> (r:
    Option<Decimal>)
    ensures
        r is Some == score_fits(max_spread@, spread_to_mid@, size@),
        r matches Some(score) ==> score@ == order_score(max_spread@, spread_to_mid@, size@),
{
    checked_order_score(max_spread, spread_to_mid, size)
}

/// The score of the stored quotes, their distance taken from a mid of one half.
pub open spec fn synthetic_score(candidates: Seq<QuoteCandidate>, max_spread: int) -> int
    decreases candidates.len(),
{
    if candidates.len() == 0 {
        0
    } else {
        let c = candidates.last();
        sum(
            synthetic_score(candidates.drop_last(), max_spread),
            order_score(max_spread, abs_value(difference(c.price@, 50 * cent())), c.size@),
        )
    }
}

/// Nothing in the score of the stored quotes is too large for a decimal.
pub open spec fn synthetic_fits(candidates: Seq<QuoteCandidate>, max_spread: int) -> bool
    decreases candidates.len(),
{
    candidates.len() == 0 || {
        let c = candidates.last();
        let spread = abs_value(difference(c.price@, 50 * cent()));
        &&& synthetic_fits(candidates.drop_last(), max_spread)
        &&& difference_fits(c.price@, 50 * cent())
        &&& score_fits(max_spread, spread, c.size@)
        &&& sum_fits(
            synthetic_score(candidates.drop_last(), max_spread),
            order_score(max_spread, spread, c.size@),
        )
    }
}

/// Quotes that fit also fit as far as they were added up.
proof fn lemma_synthetic_fits_so_far(candidates: Seq<QuoteCandidate>, max_spread: int, i: int)
    requires
        0 <= i <= candidates.len(),
        synthetic_fits(candidates, max_spread),
    ensures
        synthetic_fits(candidates.take(i), max_spread),
    decreases candidates.len(),
{
    if i < candidates.len() {
        lemma_synthetic_fits_so_far(candidates.drop_last(), max_spread, i);
        assert(candidates.drop_last().take(i) =~= candidates.take(i));
    } else {
        assert(candidates.take(i) =~= candidates);
    }
}

fn synthetic_total(candidates: &Vec<QuoteCandidate>, max_spread: Decimal) -> (r: Option<Decimal>)
    ensures
        r is Some == synthetic_fits(candidates@, max_spread@),
        r matches Some(score) ==> score@ == synthetic_score(candidates@, max_spread@),
{
    let mid = half();
    let mut total = Decimal::zero();
    let mut i: usize = 0;
    assert(candidates@.take(0).len() == 0);
    while i < candidates.len()
        invariant
            i <= candidates.len(),
            mid@ == 50 * cent(),
            total@ == synthetic_score(candidates@.take(i as int), max_spread@),
            synthetic_fits(candidates@.take(i as int), max_spread@),
        decreases candidates.len() - i,
    {
        proof {
            assert(candidates@.take(i + 1).drop_last() =~= candidates@.take(i as int));
            assert(candidates@.take(i + 1).last() == candidates@[i as int]);
            if synthetic_fits(candidates@, max_spread@) {
                lemma_synthetic_fits_so_far(candidates@, max_spread@, i + 1);
            }
        }
        let c = &candidates[i];
        let away = c.price.checked_minus(mid)?;
        let score = synthetic_order_score(max_spread, away.abs(), c.size)?;
        total = total.checked_plus(score)?;
        i = i + 1;
    }
    assert(candidates@.take(i as int) =~= candidates@);
    Some(total)
}

fn half() -> (r: Decimal)
    ensures
        r@ == 50 * cent(),
{
    proof {
        lemma_pow10_28();
    }
    Decimal::new(50, 2)
}

/// The share that stored quotes are credited with: the competition is taken as a multiple of our
/// own score. Without a largest spread there is only the least share.
pub open spec fn synthetic_share(report: DecisionReport, config: StrategyConfig) -> int {
    let proxy = config.score_proxy;
    if report.max_spread@ > 0 {
        let own = synthetic_score(report.candidate_quotes@, report.max_spread@);
        let others = product(own, proxy.competition_multiplier@);
        if sum(own, others) > 0 {
            clamped(
                quotient(own, sum(own, others)),
                proxy.min_score_share@,
                proxy.max_score_share@,
            )
        } else {
            proxy.min_score_share@
        }
    } else {
        proxy.min_score_share@
    }
}

/// The edge with that share: the stored hedge cost is used again.
pub open spec fn replayed_edge(report: DecisionReport, config: StrategyConfig) -> int {
    difference(
        product(report.daily_reward_total@, synthetic_share(report, config)),
        match report.reward_viability {
            Some(v) => v.estimated_hedge_cost@,
            None => 0,
        },
    )
}

/// Some quote was approved.
pub open spec fn has_approved(candidates: Seq<QuoteCandidate>) -> bool {
    exists|i: int|
        0 <= i < candidates.len() && (#[trigger] candidates[i]).status == QuoteStatus::Approved
}

/// The decision with the new edge: hedgeability is kept as it was decided.
pub open spec fn replayed_decision(report: DecisionReport, config: StrategyConfig) -> bool {
    replayed_edge(report, config) >= config.min_edge_threshold@ && has_approved(
        report.candidate_quotes@,
    )
}

/// Nothing in the share of the stored quotes is too large for a decimal.
pub open spec fn synthetic_share_fits(report: DecisionReport, config: StrategyConfig) -> bool {
    let own = synthetic_score(report.candidate_quotes@, report.max_spread@);
    let multiplier = config.score_proxy.competition_multiplier@;
    report.max_spread@ <= 0 || {
        &&& synthetic_fits(report.candidate_quotes@, report.max_spread@)
        &&& product_fits(own, multiplier)
        &&& share_fits(own, product(own, multiplier))
    }
}

/// Nothing in the replay of a report is too large for a decimal.
pub open spec fn report_fits(report: DecisionReport, config: StrategyConfig) -> bool {
    let share = synthetic_share(report, config);
    &&& synthetic_share_fits(report, config)
    &&& product_fits(report.daily_reward_total@, share)
    &&& difference_fits(
        product(report.daily_reward_total@, share),
        match report.reward_viability {
            Some(v) => v.estimated_hedge_cost@,
            None => 0,
        },
    )
}

/// Nothing in the replay of the first `n` reports is too large for a decimal.
pub open spec fn session_fits(reports: Seq<DecisionReport>, config: StrategyConfig, n: nat) -> bool
    decreases n,
{
    n == 0 || {
        &&& session_fits(reports, config, (n - 1) as nat)
        &&& report_fits(reports[n - 1], config)
        &&& sum_fits(
            share_sum(reports, config, (n - 1) as nat),
            synthetic_share(reports[n - 1], config),
        )
    }
}

/// A session that fits also fits as far as it was replayed.
proof fn lemma_session_fits_so_far(
    reports: Seq<DecisionReport>,
    config: StrategyConfig,
    i: nat,
    n: nat,
)
    requires
        i <= n,
        session_fits(reports, config, n),
    ensures
        session_fits(reports, config, i),
    decreases n,
{
    if i < n {
        lemma_session_fits_so_far(reports, config, i, (n - 1) as nat);
    }
}

/// The summary of a replayed session.
pub open spec fn summarizes(
    r: ReplaySummary,
    session_path: String,
    reports: Seq<DecisionReport>,
    config: StrategyConfig,
) -> bool {
    &&& r.session_path == session_path
    &&& r.total_markets == reports.len()
    &&& r.decision_changes == changes(reports, config, reports.len())
    &&& r.details@.len() == reports.len()
    &&& forall|i: int|
        0 <= i < reports.len() ==> details_report(#[trigger] r.details@[i], reports[i], config)
    &&& value_of(r.avg_score_proxy) == if reports.len() > 0 {
        Some(quotient(share_sum(reports, config, reports.len()), reports.len() * unit()))
    } else {
        None
    }
}

/// The detail of one replayed report.
pub open spec fn details_report(
    d: ReplayDetail,
    report: DecisionReport,
    config: StrategyConfig,
) -> bool {
    &&& d.condition_id@ == report.condition_id@
    &&& d.market_slug@ == report.market_slug@
    &&& d.original_would_trade == report.would_trade
    &&& d.replayed_would_trade == replayed_decision(report, config)
    &&& value_of(d.original_edge) == (match report.reward_viability {
        Some(v) => Some(v.estimated_edge@),
        None => None,
    })
    &&& value_of(d.replayed_edge) == Some(replayed_edge(report, config))
    &&& value_of(d.score_proxy) == Some(synthetic_share(report, config))
}

/// How many of the first `n` decisions change.
pub open spec fn changes(reports: Seq<DecisionReport>, config: StrategyConfig, n: nat) -> nat
    decreases n,
{
    if n == 0 {
        0
    } else {
        changes(reports, config, (n - 1) as nat) + if reports[n - 1].would_trade
            != replayed_decision(reports[n - 1], config) {
            1nat
        } else {
            0nat
        }
    }
}

/// The shares of the first `n` reports, added up.
pub open spec fn share_sum(reports: Seq<DecisionReport>, config: StrategyConfig, n: nat) -> int
    decreases n,
{
    if n == 0 {
        0
    } else {
        sum(share_sum(reports, config, (n - 1) as nat), synthetic_share(reports[n - 1], config))
    }
}

impl ReplayEngine {
    pub fn new(config: StrategyConfig) -> (r: ReplayEngine)
        ensures
            r.config == config,
    {
        ReplayEngine { config }
    }

    /// Override the competition multiplier for this replay run.
    pub fn with_competition_multiplier(self, multiplier: Decimal) -> (r: ReplayEngine)
        ensures
            r.config.score_proxy.competition_multiplier == multiplier,
            r.config == (StrategyConfig {
                score_proxy: (crate::config::ScoreProxyConfig {
                    competition_multiplier: multiplier,
                    ..self.config.score_proxy
                }),
                ..self.config
            }),
    {
        let mut config = self.config;
        config.score_proxy.competition_multiplier = multiplier;
        ReplayEngine { config }
    }

    fn checked_session(&self, session_path: String, reports: &Vec<DecisionReport>) -> (r: Option<
        ReplaySummary,
    >)
        ensures
            r is Some == session_fits(reports@, self.config, reports@.len()),
            r matches Some(summary) ==> summarizes(
                summary,
                session_path,
                reports@,
                self.config,
            ),
    {
        let mut details: Vec<ReplayDetail> = Vec::new();
        let mut total_score_proxy = Decimal::zero();
        let mut decision_changes: usize = 0;
        let mut i: usize = 0;
        while i < reports.len()
            invariant
                i <= reports@.len(),
                session_fits(reports@, self.config, i as nat),
                details@.len() == i,
                decision_changes == changes(reports@, self.config, i as nat),
                decision_changes <= i,
                total_score_proxy@ == share_sum(reports@, self.config, i as nat),
                forall|j: int|
                    0 <= j < i ==> details_report(
                        #[trigger] details@[j],
                        reports@[j],
                        self.config,
                    ),
            decreases reports@.len() - i,
        {
            proof {
                if session_fits(reports@, self.config, reports@.len()) {
                    lemma_session_fits_so_far(
                        reports@,
                        self.config,
                        (i + 1) as nat,
                        reports@.len(),
                    );
                }
            }
            let report = &reports[i];
            let (viable, edge, share) = self.re_evaluate_report(report)?;
            let replayed_would_trade = viable && any_approved(&report.candidate_quotes);
            if report.would_trade != replayed_would_trade {
                decision_changes = decision_changes + 1;
            }
            total_score_proxy = total_score_proxy.checked_plus(share)?;
            details.push(
                ReplayDetail {
                    condition_id: report.condition_id.clone(),
                    market_slug: report.market_slug.clone(),
                    original_would_trade: report.would_trade,
                    replayed_would_trade,
                    original_edge: match &report.reward_viability {
                        Some(v) => Some(v.estimated_edge),
                        None => None,
                    },
                    replayed_edge: Some(edge),
                    score_proxy: Some(share),
                },
            );
            i = i + 1;
        }
        let avg_score_proxy = if reports.len() > 0 {
            let count = Decimal::from_u64(reports.len() as u64);
            Some(total_score_proxy.over_whole(count))
        } else {
            None
        };
        Some(
            ReplaySummary {
                session_path,
                total_markets: reports.len(),
                decision_changes,
                avg_score_proxy,
                details,
            },
        )
    }

    /// Replay the reports of a session.
    pub fn replay_session(&self, session_path: String, reports: &Vec<DecisionReport>) -> (r:
        ReplaySummary)
        requires
            session_fits(reports@, self.config, reports@.len()),
        ensures
            summarizes(r, session_path, reports@, self.config),
    {
        match self.checked_session(session_path, reports) {
            Some(summary) => summary,
            None => unreached(),
        }
    }

    /// Replay the reports of a session, unless some number in them is too large.
    pub fn try_replay_session(&self, session_path: String, reports: &Vec<DecisionReport>) -> (r:
        Option<ReplaySummary>)
        ensures
            r is Some == session_fits(reports@, self.config, reports@.len()),
            r matches Some(summary) ==> summarizes(
                summary,
                session_path,
                reports@,
                self.config,
            ),
    {
        if self.checked_session(String::new(), reports).is_some() {
            Some(self.replay_session(session_path, reports))
        } else {
            None
        }
    }

    /// Re-evaluate a report with current parameters: whether it is viable, its edge, and the share
    /// that it is credited with.
    pub fn re_evaluate_report(&self, report: &DecisionReport) -> (r: Option<
        (bool, Decimal, Decimal),
    >)
        ensures
            r is Some == report_fits(*report, self.config),
            r matches Some(v) ==> {
                &&& v.0 == (replayed_edge(*report, self.config)
                    >= self.config.min_edge_threshold@)
                &&& v.1@ == replayed_edge(*report, self.config)
                &&& v.2@ == synthetic_share(*report, self.config)
            },
    {
        let proxy = &self.config.score_proxy;
        let max_spread = report.max_spread;
        let score_share = if max_spread > Decimal::zero() {
            let our_score = synthetic_total(&report.candidate_quotes, max_spread)?;
            let comp = our_score.checked_times(proxy.competition_multiplier)?;
            let total = our_score.checked_plus(comp)?;
            if total > Decimal::zero() {
                our_score.checked_over(total)?.max(proxy.min_score_share).min(
                    proxy.max_score_share,
                )
            } else {
                proxy.min_score_share
            }
        } else {
            proxy.min_score_share
        };
        let estimated_reward = report.daily_reward_total.checked_times(score_share)?;
        let estimated_hedge_cost = match &report.reward_viability {
            Some(v) => v.estimated_hedge_cost,
            None => Decimal::zero(),
        };
        let estimated_edge = estimated_reward.checked_minus(estimated_hedge_cost)?;
        let is_viable = estimated_edge >= self.config.min_edge_threshold;
        Some((is_viable, estimated_edge, score_share))
    }
}

fn any_approved(candidates: &Vec<QuoteCandidate>) -> (r: bool)
    ensures
        r == has_approved(candidates@),
{
    let mut i: usize = 0;
    while i < candidates.len()
        invariant
            i <= candidates.len(),
            forall|j: int|
                0 <= j < i ==> (#[trigger] candidates@[j]).status != QuoteStatus::Approved,
        decreases candidates.len() - i,
    {
        if candidates[i].status == QuoteStatus::Approved {
            return true;
        }
        i = i + 1;
    }
    false
}

/// A replay changes no decision against trading where no quote was approved.
pub proof fn law_replay_needs_approved_quotes(
    reports: Seq<DecisionReport>,
    config: StrategyConfig,
    n: nat,
)
    requires
        n <= reports.len(),
        forall|i: int|
            0 <= i < n ==> !(#[trigger] reports[i]).would_trade && !has_approved(
                reports[i].candidate_quotes@,
            ),
    ensures
        changes(reports, config, n) == 0,
    decreases n,
{
    if n > 0 {
        law_replay_needs_approved_quotes(reports, config, (n - 1) as nat);
        assert(!reports[n - 1].would_trade);
    }
}

} // verus!
