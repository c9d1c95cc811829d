//! Parameters of the strategy.

use crate::decimal::Decimal;
use vstd::prelude::*;

verus! {

/// How our share of the rewards is estimated.
#[derive(Clone, Copy, Debug)]
pub struct ScoreProxyConfig {
    pub competition_multiplier: Decimal,
    pub max_score_share: Decimal,
    pub min_score_share: Decimal,
    pub target_score_share: Decimal,
    pub calibration_sample_size: usize,
}

/// Where quotes are placed, and which are worth placing.
#[derive(Clone, Copy, Debug)]
pub struct StrategyConfig {
    pub max_hedge_cost_bps: Decimal,
    pub max_slippage_bps: Decimal,
    pub default_quote_size: Decimal,
    pub min_edge_threshold: Decimal,
    pub quote_drift_bps: Decimal,
    pub bid_depth_pct: Decimal,
    pub ask_depth_pct: Decimal,
    pub quote_refresh_secs: u64,
    pub min_est_daily: Decimal,
    pub min_return_pct: Decimal,
    pub min_outcome_price: Decimal,
    pub reward_discount_factor: Decimal,
    pub min_frontier_improvement: Decimal,
    pub frontier_handoff_window_secs: u64,
    pub score_proxy: ScoreProxyConfig,
}

} // verus!
