use spreadeater::config::{ScoreProxyConfig, StrategyConfig};
use spreadeater::decimal::Decimal;
use spreadeater::json::canonical::canonicalize_json_value;
use spreadeater::json::Json;
use spreadeater::models::book::{mid_price, Walk};
use spreadeater::models::{
    CanonicalMarket, MarketStatus, OrderBookSnapshot, PriceLevel, QuoteCandidate, QuoteLeg,
    QuoteSet, QuoteStatus, RewardConfig,
};
use spreadeater::runtime::orchestrator::{evaluate_market, OutOfRange};
use spreadeater::runtime::replay::{DecisionReport, ReplayEngine};
use spreadeater::runtime::run_metadata::config_hash;
use spreadeater::strategy::calibration::CalibrationTracker;
use spreadeater::strategy::hedgeability::{
    apply_hedgeability_gate, try_compute_hedgeability, HedgeabilityReport,
};
use spreadeater::strategy::quote_engine::{
    compute_ask_leg, compute_bid_leg, round_down_to_tick, try_compute_quote_set,
};
use spreadeater::strategy::score_proxy::{
    compute_score_proxy, per_order_score, score_book_side, try_compute_dynamic_size,
    try_per_order_score, try_score_book_side, ScoreProxyResult,
};
use spreadeater::strategy::viability::{
    committed_shares_for_quotes, compute_reward_per_share_ranking_metric, compute_viability,
    try_compute_reward_per_share_ranking_metric,
};
use spreadeater::time::Timestamp;

const LARGEST: &str = "79228162514264337593543950335";

fn dec(text: &str) -> Decimal {
    Decimal::parse(text).expect("a decimal")
}

fn level(price: &str, size: &str) -> PriceLevel {
    PriceLevel {
        price: dec(price),
        size: dec(size),
    }
}

fn test_book(bid: Decimal, ask: Decimal) -> OrderBookSnapshot {
    OrderBookSnapshot {
        token_id: "token".to_string(),
        bids: vec![PriceLevel {
            price: bid,
            size: dec("100"),
        }],
        asks: vec![PriceLevel {
            price: ask,
            size: dec("100"),
        }],
    }
}

fn sample_book(token_id: &str) -> OrderBookSnapshot {
    OrderBookSnapshot {
        token_id: token_id.to_string(),
        bids: vec![level("0.45", "100")],
        asks: vec![level("0.55", "100")],
    }
}

fn sample_reward_config() -> RewardConfig {
    RewardConfig {
        condition_id: "market".to_string(),
        daily_reward_rates: vec![dec("5")],
        daily_reward_total: dec("10"),
        min_size: dec("20"),
        max_spread: dec("0.10"),
    }
}

fn sample_proxy_config() -> ScoreProxyConfig {
    ScoreProxyConfig {
        competition_multiplier: dec("1.5"),
        max_score_share: dec("0.25"),
        min_score_share: dec("0.0001"),
        target_score_share: dec("0.03"),
        calibration_sample_size: 10,
    }
}

fn test_market(daily_reward: Decimal) -> CanonicalMarket {
    CanonicalMarket {
        condition_id: "test-cid".to_string(),
        market_slug: "test-slug".to_string(),
        question: "test?".to_string(),
        yes_token_id: "yes-tok".to_string(),
        no_token_id: "no-tok".to_string(),
        reward_config: RewardConfig {
            condition_id: "test-cid".to_string(),
            daily_reward_rates: vec![daily_reward],
            daily_reward_total: daily_reward,
            min_size: dec("5"),
            max_spread: dec("0.10"),
        },
        neg_risk: false,
        tick_size: "0.01".to_string(),
        end_date: None,
        admitted_at: Timestamp {
            secs: 1_774_742_400,
            nanos: 0,
        },
        status: MarketStatus::Admitted,
    }
}

fn test_strategy_config() -> StrategyConfig {
    StrategyConfig {
        max_hedge_cost_bps: dec("80"),
        max_slippage_bps: dec("80"),
        default_quote_size: dec("5"),
        min_edge_threshold: dec("0.50"),
        quote_drift_bps: dec("30"),
        bid_depth_pct: dec("0.50"),
        ask_depth_pct: dec("0.20"),
        quote_refresh_secs: 5,
        min_est_daily: dec("0.25"),
        min_return_pct: dec("0.0025"),
        min_outcome_price: dec("0.20"),
        reward_discount_factor: dec("0.70"),
        min_frontier_improvement: dec("0.05"),
        frontier_handoff_window_secs: 5,
        score_proxy: sample_proxy_config(),
    }
}

fn test_score_proxy(share: Decimal) -> ScoreProxyResult {
    ScoreProxyResult {
        estimated_share: share,
        our_total_score: dec("100"),
        competitor_total_approx: dec("900"),
        is_extreme_market: false,
    }
}

fn bid_candidate(price: Decimal, size: Decimal) -> QuoteCandidate {
    QuoteCandidate {
        condition_id: "test-cid".to_string(),
        leg: QuoteLeg::YesBid,
        price,
        size,
        status: QuoteStatus::Approved,
        reason: None,
    }
}

fn quote_set_of(candidates: Vec<QuoteCandidate>) -> QuoteSet {
    QuoteSet {
        condition_id: "test-cid".to_string(),
        candidates,
    }
}

/// `hedge_cost` is `(candidate.price + hedge_price - 1) * candidate.size`.
fn hedge_report_for(
    candidate: &QuoteCandidate,
    hedge_price: Decimal,
    hedge_cost: Decimal,
) -> HedgeabilityReport {
    HedgeabilityReport {
        condition_id: candidate.condition_id.clone(),
        trigger_leg: candidate.leg,
        candidate_size: candidate.size,
        opposite_token_id: "no-tok".to_string(),
        opposite_depth_available: candidate.size,
        max_hedgeable_size: candidate.size,
        weighted_avg_hedge_price: hedge_price,
        estimated_hedge_cost: hedge_cost,
        slippage_bps: dec("10"),
        is_approved: true,
        rejection_reason: None,
    }
}

#[test]
fn bid_leg_can_price_below_floor_when_mid_still_meets_min_outcome_price() {
    let book = test_book(dec("0.18"), dec("0.22"));

    let candidate = compute_bid_leg(
        "market",
        QuoteLeg::YesBid,
        &book,
        dec("50"),
        dec("0.03"),
        dec("0.50"),
        dec("0.01"),
        dec("0.20"),
    )
    .expect("in range");

    assert_eq!(candidate.status, QuoteStatus::Approved);
    assert_eq!(candidate.price, dec("0.19"));
    assert!(candidate.reason.is_none());
}

#[test]
fn compute_score_proxy_ignores_non_approved_candidates() {
    let yes_book = sample_book("yes");
    let no_book = sample_book("no");
    let reward_config = sample_reward_config();
    let proxy_config = sample_proxy_config();

    let approved_only = QuoteSet {
        condition_id: "market".to_string(),
        candidates: vec![QuoteCandidate {
            condition_id: "market".to_string(),
            leg: QuoteLeg::YesBid,
            price: dec("0.45"),
            size: dec("20"),
            status: QuoteStatus::Approved,
            reason: None,
        }],
    };

    let mixed_statuses = QuoteSet {
        condition_id: "market".to_string(),
        candidates: vec![
            approved_only.candidates[0].clone(),
            QuoteCandidate {
                condition_id: "market".to_string(),
                leg: QuoteLeg::NoBid,
                price: dec("0.45"),
                size: dec("200"),
                status: QuoteStatus::Rejected,
                reason: Some("not placeable".to_string()),
            },
            QuoteCandidate {
                condition_id: "market".to_string(),
                leg: QuoteLeg::YesAsk,
                price: dec("0.55"),
                size: dec("200"),
                status: QuoteStatus::Suppressed,
                reason: Some("no inventory".to_string()),
            },
        ],
    };

    let approved_score = compute_score_proxy(
        &approved_only,
        &yes_book,
        &no_book,
        &reward_config,
        &proxy_config,
    );
    let mixed_score = compute_score_proxy(
        &mixed_statuses,
        &yes_book,
        &no_book,
        &reward_config,
        &proxy_config,
    );

    assert_eq!(mixed_score.our_total_score, approved_score.our_total_score);
    assert_eq!(mixed_score.estimated_share, approved_score.estimated_share);
}

/// Same share size, different bid prices: the same return per share, since the denominator is
/// the shares committed and the hedge costs net to the same amount.
#[test]
fn same_size_same_hedge_cost_yields_same_per_share_return() {
    let market = test_market(dec("100")); // $100/day pool
    let config = test_strategy_config();
    let proxy = test_score_proxy(dec("0.10")); // 10% share: $7 discounted

    // Market at $0.50 bid, hedge at $0.51: hedge cost = (0.50+0.51-1)*50 = $0.50
    let cheap_bid = bid_candidate(dec("0.50"), dec("50"));
    let cheap_qs = quote_set_of(vec![cheap_bid.clone()]);
    let cheap_hr = vec![hedge_report_for(&cheap_bid, dec("0.51"), dec("0.50"))];
    let (cheap_v, _) = compute_viability(&market, &cheap_qs, &cheap_hr, &config, &proxy, dec("50"));

    // Market at $0.80 bid, hedge at $0.21: hedge cost = (0.80+0.21-1)*50 = $0.50
    let expensive_bid = bid_candidate(dec("0.80"), dec("50"));
    let expensive_qs = quote_set_of(vec![expensive_bid.clone()]);
    let expensive_hr = vec![hedge_report_for(&expensive_bid, dec("0.21"), dec("0.50"))];
    let (expensive_v, _) = compute_viability(
        &market,
        &expensive_qs,
        &expensive_hr,
        &config,
        &proxy,
        dec("50"),
    );

    assert_eq!(
        cheap_v.return_per_share, expensive_v.return_per_share,
        "same size + same hedge cost should yield equal per-share return"
    );
}

/// More shares for the same reward: a lower return per share.
#[test]
fn larger_size_yields_lower_per_share_return() {
    let config = test_strategy_config();

    // Market A: $200/day pool, 5% share: $7 discounted. Size 200 shares.
    let market_a = test_market(dec("200"));
    let proxy_a = test_score_proxy(dec("0.05"));
    let bid_a = bid_candidate(dec("0.50"), dec("200"));
    let qs_a = quote_set_of(vec![bid_a.clone()]);
    let hr_a = vec![hedge_report_for(&bid_a, dec("0.51"), dec("2.00"))];
    let (v_a, _) = compute_viability(&market_a, &qs_a, &hr_a, &config, &proxy_a, dec("200"));

    // Market B: $100/day pool, 10% share: $7 discounted. Size 50 shares.
    let market_b = test_market(dec("100"));
    let proxy_b = test_score_proxy(dec("0.10"));
    let bid_b = bid_candidate(dec("0.50"), dec("50"));
    let qs_b = quote_set_of(vec![bid_b.clone()]);
    let hr_b = vec![hedge_report_for(&bid_b, dec("0.51"), dec("0.50"))];
    let (v_b, _) = compute_viability(&market_b, &qs_b, &hr_b, &config, &proxy_b, dec("50"));

    assert_eq!(
        v_a.estimated_reward, v_b.estimated_reward,
        "same absolute reward"
    );
    assert!(
        v_b.return_per_share > v_a.return_per_share,
        "Market B (50 shares) should rank higher than Market A (200 shares)"
    );
}

#[test]
fn estimated_reward_includes_discount_factor() {
    let market = test_market(dec("100"));
    let config = test_strategy_config(); // discount = 0.70
    let proxy = test_score_proxy(dec("0.10")); // 10% share

    let bid = bid_candidate(dec("0.50"), dec("50"));
    let qs = quote_set_of(vec![bid.clone()]);
    let hr = vec![hedge_report_for(&bid, dec("0.51"), dec("0.50"))];
    let (v, _) = compute_viability(&market, &qs, &hr, &config, &proxy, dec("50"));

    // 100 * 0.10 * 0.70 = 7.00
    assert_eq!(
        v.estimated_reward,
        dec("7.00"),
        "reward should be daily * share * discount"
    );
}

#[test]
fn reward_per_share_ranking_ignores_hedge_economics_when_reward_and_size_match() {
    let quote_set = quote_set_of(vec![bid_candidate(dec("0.50"), dec("50"))]);

    let favorable = compute_reward_per_share_ranking_metric(&quote_set, dec("7.00"), dec("50"));
    let unfavorable = compute_reward_per_share_ranking_metric(&quote_set, dec("7.00"), dec("50"));

    assert_eq!(favorable, unfavorable);
}

#[test]
fn higher_reward_market_outranks_more_favorable_pair_when_size_matches() {
    let quote_set = quote_set_of(vec![bid_candidate(dec("0.50"), dec("373"))]);

    let gavin_like = compute_reward_per_share_ranking_metric(&quote_set, dec("0.0166"), dec("373"));
    let fed_like = compute_reward_per_share_ranking_metric(&quote_set, dec("0.8432"), dec("373"));

    assert!(fed_like > gavin_like);
}

#[test]
fn config_hash_is_stable_for_equivalent_configs() {
    let number = |n: &str| Json::Number(n.to_string());
    let config = Json::Object(vec![
        ("b".to_string(), Json::String("x\"y".to_string())),
        ("a".to_string(), Json::Array(vec![number("1"), Json::Bool(true)])),
    ]);
    let reordered = Json::Object(vec![
        ("a".to_string(), Json::Array(vec![number("1"), Json::Bool(true)])),
        ("b".to_string(), Json::String("x\"y".to_string())),
    ]);

    let first = config_hash(&config);
    let second = config_hash(&config);

    assert_eq!(first, second);
    assert_eq!(first.len(), 64);
    assert_eq!(first, config_hash(&reordered));
    // The SHA-256 digest of {"a":[1,true],"b":"x\"y"}.
    assert_eq!(
        first,
        "d7aab0026ef48bec36182efaf921ac34ce12775e21412e7d5d6977d17f73df43"
    );
}

#[test]
fn canonical_text_names_fields_in_order() {
    let value = Json::Object(vec![
        ("z".to_string(), Json::Null),
        ("a".to_string(), Json::String("tab\t".to_string())),
    ]);
    let canonical = canonicalize_json_value(&value);
    assert_eq!(canonical.to_text(), "{\"a\":\"tab\\t\",\"z\":null}");
    let odd: String = (0u32..0x300).filter_map(char::from_u32).collect();
    assert_eq!(
        Json::String(odd.clone()).to_text(),
        serde_json::to_string(&odd).expect("a text")
    );
    assert_eq!(
        canonicalize_json_value(&canonical).to_text(),
        canonical.to_text()
    );
}

#[test]
fn prices_round_down_to_the_tick() {
    assert_eq!(round_down_to_tick(dec("0.129"), dec("0.01")), Some(dec("0.12")));
    assert_eq!(round_down_to_tick(dec("0.12"), dec("0.01")), Some(dec("0.12")));
    assert_eq!(round_down_to_tick(dec("0.1299"), dec("0.001")), Some(dec("0.129")));
    assert_eq!(round_down_to_tick(dec("0.5"), dec("0")), None);
    assert_eq!(round_down_to_tick(dec("1000000000000000000"), dec("0.00000000001")), None);
}

#[test]
fn bids_lie_between_mid_and_floor_for_any_tick() {
    for (bid, ask, tick) in [
        ("0.40", "0.47", "0.03"),
        ("0.333333", "0.37", "0.007"),
        ("3", "3.1", "0.01"),
    ] {
        let quote = compute_bid_leg(
            "market",
            QuoteLeg::YesBid,
            &test_book(dec(bid), dec(ask)),
            dec("50"),
            dec("0.06"),
            dec("0.50"),
            dec(tick),
            dec("0.20"),
        )
        .expect("in range");
        let number = |d: Decimal| d.to_text().parse::<rust_decimal::Decimal>().expect("a number");
        let mid = number(mid_price(dec(bid), dec(ask)).expect("in range"));
        let floor = number(dec(ask)) - number(dec("0.06"));
        assert!(number(quote.price) <= mid);
        assert!(number(quote.price) > floor - number(dec(tick)));
    }
}

#[test]
fn bids_without_a_book_or_below_the_floor_are_rejected() {
    let empty = OrderBookSnapshot {
        token_id: "token".to_string(),
        bids: Vec::new(),
        asks: Vec::new(),
    };
    let bid = |book: &OrderBookSnapshot| {
        compute_bid_leg(
            "market",
            QuoteLeg::YesBid,
            book,
            dec("50"),
            dec("0.03"),
            dec("0.50"),
            dec("0.01"),
            dec("0.20"),
        )
        .expect("in range")
    };
    assert_eq!(bid(&empty).status, QuoteStatus::Rejected);
    assert!(bid(&empty).reason.is_some());
    let low = bid(&test_book(dec("0.08"), dec("0.12")));
    assert_eq!(low.status, QuoteStatus::Rejected);
}

#[test]
fn asks_are_only_simulated_in_shadow_mode() {
    let book = test_book(dec("0.45"), dec("0.55"));
    let ask = |shadow| {
        compute_ask_leg(
            "market",
            QuoteLeg::YesAsk,
            &book,
            dec("50"),
            dec("0.10"),
            dec("0.01"),
            shadow,
        )
        .expect("in range")
    };
    assert_eq!(ask(true).status, QuoteStatus::SimulatedOnly);
    assert_eq!(ask(false).status, QuoteStatus::Approved);
}

#[test]
fn a_quote_set_has_the_four_legs() {
    let market = test_market(dec("100"));
    let yes = sample_book("yes");
    let no = sample_book("no");
    let config = test_strategy_config();
    let quotes = try_compute_quote_set(&market, &yes, &no, &config, true, None).expect("a tick");
    assert_eq!(quotes.candidates.len(), 4);
    // Half of the way from the mid of 0.50 down to the floor of 0.45, rounded down.
    assert_eq!(quotes.candidates[0].price, dec("0.47"));
    assert_eq!(quotes.candidates[0].size, dec("5"));
    let sized =
        try_compute_quote_set(&market, &yes, &no, &config, true, Some(dec("40"))).expect("a tick");
    assert_eq!(sized.candidates[0].size, dec("40"));
}

#[test]
fn a_walk_through_the_book_pays_each_level() {
    let levels = vec![level("0.50", "10"), level("0.52", "30")];
    let walk = Walk::through(&levels, dec("20")).expect("in range");
    assert_eq!(walk.filled, dec("20"));
    assert_eq!(walk.cost, dec("10.2"));
    assert_eq!(walk.remaining, dec("0"));
    let result = walk.result().expect("in range");
    assert_eq!(result.weighted_avg_price, dec("0.51"));
    assert!(result.fully_filled);
    let short = Walk::through(&levels, dec("50")).expect("in range");
    assert_eq!(short.filled, dec("40"));
    assert_eq!(short.remaining, dec("10"));
    assert_eq!(mid_price(dec("0.45"), dec("0.60")), Some(dec("0.525")));
    let dear = vec![level(LARGEST, "10")];
    assert!(Walk::through(&dear, dec("2")).is_none());
    assert!(Walk::through(&dear, dec("1")).is_some());
    assert_eq!(mid_price(dec(LARGEST), dec("1")), None);
}

#[test]
fn quotes_that_cannot_be_hedged_are_rejected() {
    let config = test_strategy_config();
    let yes = sample_book("yes");
    let deep = sample_book("no");
    let mut candidate = bid_candidate(dec("0.45"), dec("50"));
    let report = try_compute_hedgeability(&candidate, &yes, &deep, &config).expect("an average");
    assert!(report.is_approved);
    assert_eq!(report.weighted_avg_hedge_price, dec("0.55"));
    assert_eq!(report.slippage_bps, dec("0"));
    apply_hedgeability_gate(&mut candidate, &report);
    assert_eq!(candidate.status, QuoteStatus::Approved);

    let thin = OrderBookSnapshot {
        token_id: "no".to_string(),
        bids: Vec::new(),
        asks: vec![level("0.55", "10")],
    };
    let report = try_compute_hedgeability(&candidate, &yes, &thin, &config).expect("an average");
    assert!(!report.is_approved);
    assert_eq!(report.max_hedgeable_size, dec("10"));
    apply_hedgeability_gate(&mut candidate, &report);
    assert_eq!(candidate.status, QuoteStatus::Rejected);
    assert_eq!(candidate.reason, report.rejection_reason);
}

#[test]
fn closer_orders_score_higher() {
    // ((0.10 - 0.05) / 0.10)^2 * 20 = 5
    assert_eq!(per_order_score(dec("0.10"), dec("0.05"), dec("20")), dec("5"));
    assert!(
        per_order_score(dec("0.10"), dec("0.02"), dec("20"))
            > per_order_score(dec("0.10"), dec("0.05"), dec("20"))
    );
    assert_eq!(per_order_score(dec("0.10"), dec("0.11"), dec("20")), dec("0"));
    assert_eq!(try_per_order_score(dec("0.10"), dec("0.05"), dec("20")), Some(dec("5")));
    // Thirds are rounded, and keep their order.
    assert!(
        per_order_score(dec("0.03"), dec("0.0100"), dec("7.77"))
            > per_order_score(dec("0.03"), dec("0.0101"), dec("7.77"))
    );
    // A spread below zero: the ratio is two, the square four.
    assert_eq!(try_per_order_score(dec("0.1"), dec("-0.1"), dec("20")), Some(dec("80")));
    assert_eq!(try_per_order_score(dec("0.1"), dec("-0.1"), dec(LARGEST)), None);
}

#[test]
fn shares_of_the_reward_keep_to_their_bounds() {
    let proxy = compute_score_proxy(
        &quote_set_of(vec![bid_candidate(dec("0.49"), dec("100000"))]),
        &sample_book("yes"),
        &sample_book("no"),
        &sample_reward_config(),
        &sample_proxy_config(),
    );
    assert!(proxy.estimated_share <= dec("0.25"));
    assert!(proxy.estimated_share >= dec("0.0001"));
}

#[test]
fn dynamic_sizes_are_whole_and_bounded() {
    let size = |min: &str, max: &str| {
        try_compute_dynamic_size(
            &sample_book("yes"),
            &sample_book("no"),
            &sample_reward_config(),
            &sample_proxy_config(),
            dec(min),
            dec(max),
        )
        .expect("in range")
    };
    let free = size("1", "100000");
    assert_eq!(Some(free), round_down_to_tick(free, dec("1")));
    assert_eq!(size("500", "100000"), dec("500"));
    assert_eq!(size("1", "2"), dec("2"));
}

#[test]
fn rounding_does_not_leave_the_bounds() {
    let size = |min: &str, max: &str| {
        try_compute_dynamic_size(
            &sample_book("yes"),
            &sample_book("no"),
            &sample_reward_config(),
            &sample_proxy_config(),
            dec(min),
            dec(max),
        )
        .expect("in range")
    };
    let free = size("0", "100000");
    assert!(free > dec("8.6"));
    assert_eq!(size("0", "8.6"), dec("8.6"));
    assert_eq!(size("0", "8.4"), dec("8"));
    assert_eq!(size("500.4", "100000"), dec("500.4"));
}

#[test]
fn at_least_one_share_is_committed() {
    let none = quote_set_of(Vec::new());
    assert_eq!(committed_shares_for_quotes(&none, dec("0")), Some(dec("1")));
    let two = quote_set_of(vec![
        bid_candidate(dec("0.45"), dec("20")),
        bid_candidate(dec("0.40"), dec("30")),
    ]);
    assert_eq!(committed_shares_for_quotes(&two, dec("20")), Some(dec("50")));
    let many = quote_set_of(vec![
        bid_candidate(dec("0.45"), dec(LARGEST)),
        bid_candidate(dec("0.40"), dec("30")),
    ]);
    assert_eq!(committed_shares_for_quotes(&many, dec("20")), None);
    assert_eq!(
        try_compute_reward_per_share_ranking_metric(&many, dec("1"), dec("20")),
        None
    );
    assert_eq!(
        try_compute_reward_per_share_ranking_metric(&two, dec("1"), dec("20")),
        Some(dec("0.02"))
    );
    // Sevenths are rounded, and the larger reward still ranks higher.
    let seven = quote_set_of(vec![bid_candidate(dec("0.45"), dec("7"))]);
    let metric = |reward| compute_reward_per_share_ranking_metric(&seven, reward, dec("20"));
    assert!(metric(dec("1.0001")) > metric(dec("1")));
}

#[test]
fn the_multiplier_follows_the_samples_within_bounds() {
    let mut tracker = CalibrationTracker::new(dec("1.5"), 2);
    assert_eq!(tracker.current_multiplier(), dec("1.5"));
    let mut adjusted = 0;
    for i in 0..40 {
        let adjustment = tracker.record_sample(
            "market".to_string(),
            format!("order-{i}"),
            true,
            false,
            dec("0.03"),
        );
        if let Some(adjustment) = adjustment {
            assert!(adjustment.new_multiplier >= adjustment.old_multiplier);
            adjusted += 1;
        }
    }
    assert!(adjusted > 0);
    assert!(tracker.current_multiplier() > dec("1.5"));
    // A vast multiplier is only clamped where the samples ask for no more of it.
    let mut vast = CalibrationTracker::new(dec("60000000000000000000000000000"), 1);
    let down = vast.record_sample(
        "market".to_string(),
        "order".to_string(),
        false,
        true,
        dec("0.03"),
    );
    assert_eq!(down.expect("an adjustment").new_multiplier, dec("5"));
}

#[test]
fn evaluations_approve_only_what_can_be_hedged() {
    let market = test_market(dec("100"));
    let config = test_strategy_config();
    let evaluation =
        evaluate_market(&market, &sample_book("yes"), &sample_book("no"), &config).expect("in range");
    assert_eq!(evaluation.quote_set.candidates.len(), 4);
    for (i, candidate) in evaluation.quote_set.candidates.iter().enumerate() {
        if candidate.status == QuoteStatus::Approved {
            assert!(evaluation.hedge_reports[i].is_approved);
        }
    }
    // Far away from any price, but no number is too large.
    let wild = OrderBookSnapshot {
        token_id: "yes".to_string(),
        bids: vec![level("100000000", "1")],
        asks: Vec::new(),
    };
    assert!(evaluate_market(&market, &wild, &sample_book("no"), &config).is_ok());
}

#[test]
fn evaluations_fail_only_where_a_number_is_too_large() {
    let yes = sample_book("yes");
    let no = sample_book("no");
    let why = |market: &CanonicalMarket, yes: &OrderBookSnapshot, no: &OrderBookSnapshot,
               config: &StrategyConfig| {
        evaluate_market(market, yes, no, config).err()
    };
    let market = test_market(dec("100"));
    let config = test_strategy_config();
    assert_eq!(why(&market, &yes, &no, &config), None);

    let dear = |token: &str, bid: &str| OrderBookSnapshot {
        token_id: token.to_string(),
        bids: vec![level(bid, "1")],
        asks: vec![level(LARGEST, "100")],
    };
    assert_eq!(
        why(&market, &dear("yes", "1"), &no, &config),
        Some(OutOfRange::Size)
    );

    let mut no_tick = test_market(dec("100"));
    no_tick.tick_size = "0".to_string();
    assert_eq!(why(&no_tick, &yes, &no, &config), Some(OutOfRange::Quotes));

    // Five shares at that price cost too much to reckon.
    let mut coarse = test_market(dec("100"));
    coarse.tick_size = "1".to_string();
    assert_eq!(
        why(&coarse, &yes, &dear("no", "0"), &config),
        Some(OutOfRange::Quote(0))
    );

    // The competition alone fills the range, and our own score comes on top.
    let mut crowded = test_strategy_config();
    crowded.score_proxy.target_score_share = dec("0");
    crowded.score_proxy.competition_multiplier = dec("1");
    let even = |token: &str| OrderBookSnapshot {
        token_id: token.to_string(),
        bids: vec![level("0.45", "15")],
        asks: vec![level("0.55", "15")],
    };
    let fair = evaluate_market(&market, &even("yes"), &even("no"), &crowded).expect("in range");
    assert_eq!(fair.score_proxy.competitor_total_approx, dec("15"));
    // A fifteenth of the largest number
    crowded.score_proxy.competition_multiplier = dec("5281877500950955839569596689");
    assert_eq!(
        why(&market, &even("yes"), &even("no"), &crowded),
        Some(OutOfRange::Score)
    );
    crowded.score_proxy.competition_multiplier = dec("5281877500950955839569596690");
    assert_eq!(
        why(&market, &even("yes"), &even("no"), &crowded),
        Some(OutOfRange::Size)
    );

    let mut rich = test_market(dec(LARGEST));
    rich.reward_config.daily_reward_total = dec(LARGEST);
    let mut generous = test_strategy_config();
    generous.reward_discount_factor = dec("1000000");
    assert_eq!(why(&rich, &yes, &no, &generous), Some(OutOfRange::Viability));
}

#[test]
fn books_are_scored_side_by_side() {
    let levels = vec![level("0.45", "20"), level("0.48", "100")];
    // ((0.10 - 0.05) / 0.10)^2 * 20 + ((0.10 - 0.02) / 0.10)^2 * 100
    assert_eq!(
        try_score_book_side(&levels, dec("0.50"), dec("0.10"), true),
        Some(dec("69"))
    );
    assert_eq!(score_book_side(&levels, dec("0.40"), dec("0.10"), false), dec("9"));
    let heavy = vec![level("0.50", LARGEST), level("0.50", "1")];
    assert_eq!(try_score_book_side(&heavy, dec("0.50"), dec("0.10"), true), None);
}

#[test]
fn a_replay_without_approved_quotes_does_not_trade() {
    let engine = ReplayEngine::new(test_strategy_config());
    let report = DecisionReport {
        condition_id: "test-cid".to_string(),
        market_slug: "test-slug".to_string(),
        would_trade: true,
        candidate_quotes: Vec::new(),
        reward_viability: None,
        daily_reward_total: dec("100"),
        max_spread: dec("0.10"),
    };
    let reports = vec![report];
    let summary = engine.replay_session("session.jsonl".to_string(), &reports);
    let tried = engine
        .try_replay_session("session.jsonl".to_string(), &reports)
        .expect("in range");
    assert_eq!(tried.decision_changes, summary.decision_changes);
    assert_eq!(summary.total_markets, 1);
    assert_eq!(summary.decision_changes, 1);
    assert!(!summary.details[0].replayed_would_trade);
}
