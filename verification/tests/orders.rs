use spreadeater::decimal::Decimal;
use spreadeater::models::{
    CancelReasonCode, CanonicalMarket, LiveOrder, MarketStatus, OrderStatus, OrderType, Outcome,
    Position, QuoteCandidate, QuoteLeg, QuoteSet, QuoteStatus, RewardConfig, Side,
};
use spreadeater::time::Timestamp;
use spreadeater::trading::client::CancelOrderOutcome;
use spreadeater::trading::order_manager::placement::{cap_buy_size_to_budget, order_role};
use spreadeater::trading::order_manager::sync::{
    tracked_order_from_live_order, MarketOrderSyncMode,
};
use spreadeater::trading::order_manager::{
    detect_duplicate_live_bid_legs, prune_recently_cancelled_entries, CancelledOrder, OrderManager,
    TrackedOrder, PENDING_CANCEL_RETRY_BACKOFF_MS, RECENTLY_CANCELLED_TTL_MS,
};

const NOW: Timestamp = Timestamp {
    secs: 1_774_742_400,
    nanos: 123_456_789,
};

fn dec(text: &str) -> Decimal {
    Decimal::parse(text).expect("a decimal")
}

fn test_order_manager() -> OrderManager {
    OrderManager::new(dec("200"), dec("0"))
}

fn sample_market_meta() -> CanonicalMarket {
    CanonicalMarket {
        condition_id: "market".to_string(),
        market_slug: "market".to_string(),
        question: "Test market?".to_string(),
        yes_token_id: "yes-token".to_string(),
        no_token_id: "no-token".to_string(),
        reward_config: RewardConfig {
            condition_id: "market".to_string(),
            daily_reward_rates: Vec::new(),
            daily_reward_total: Decimal::zero(),
            min_size: dec("1"),
            max_spread: dec("0.10"),
        },
        neg_risk: false,
        tick_size: "0.01".to_string(),
        end_date: None,
        admitted_at: NOW,
        status: MarketStatus::Admitted,
    }
}

fn sample_tracked_order() -> TrackedOrder {
    TrackedOrder {
        order_id: "order-1".to_string(),
        trace_id: "trace-1".to_string(),
        condition_id: "market".to_string(),
        created_at: NOW,
        leg: QuoteLeg::YesBid,
        token_id: "yes-token".to_string(),
        opposite_token_id: "no-token".to_string(),
        side: Side::Buy,
        price: dec("0.45"),
        size: dec("20"),
        matched_size: Decimal::zero(),
        neg_risk: false,
        tick_size: "0.01".to_string(),
    }
}

fn sample_live_order(created_at: Timestamp) -> LiveOrder {
    LiveOrder {
        id: "live-order-1".to_string(),
        condition_id: "market".to_string(),
        asset_id: "yes-token".to_string(),
        side: Side::Buy,
        price: dec("0.45"),
        original_size: dec("20"),
        size_matched: dec("5"),
        outcome: Outcome::Yes,
        order_type: OrderType::GTC,
        status: OrderStatus::Live,
        created_at,
        associated_trade_ids: Vec::new(),
    }
}

fn candidate(leg: QuoteLeg, price: &str, size: &str) -> QuoteCandidate {
    QuoteCandidate {
        condition_id: "market".to_string(),
        leg,
        price: dec(price),
        size: dec(size),
        status: QuoteStatus::Approved,
        reason: None,
    }
}

/// Places each candidate that can be placed, as an exchange that accepts all of them would.
fn place_quotes(
    om: &mut OrderManager,
    market: &CanonicalMarket,
    quote_set: &QuoteSet,
    position: Option<&Position>,
    min_order_size: Decimal,
    origin: &str,
) -> Vec<TrackedOrder> {
    let mut placed = Vec::new();
    for (i, candidate) in quote_set.candidates.iter().enumerate() {
        if let Some(request) = om.place_candidate(market, candidate, position, min_order_size, origin)
        {
            let order_id = format!("dry-run-{i}");
            placed.push(om.order_placed(market, candidate, request.size, order_id, None, NOW));
        }
    }
    placed
}

#[test]
fn cap_buy_size_to_budget_caps_to_whole_share_budget() {
    let capped = cap_buy_size_to_budget(dec("200"), dec("100"), dec("5"));
    assert_eq!(capped, Some(dec("100")));
}

#[test]
fn cap_buy_size_to_budget_floors_fractional_budget() {
    let capped = cap_buy_size_to_budget(dec("200"), dec("184.7"), dec("5"));
    assert_eq!(capped, Some(dec("184")));
}

#[test]
fn cap_buy_size_to_budget_keeps_exact_fit() {
    let capped = cap_buy_size_to_budget(dec("180"), dec("180"), dec("5"));
    assert_eq!(capped, Some(dec("180")));
}

#[test]
fn cap_buy_size_to_budget_respects_account_wide_remaining_exposure() {
    let capped = cap_buy_size_to_budget(dec("283"), dec("180"), dec("5"));
    assert_eq!(capped, Some(dec("180")));
}

#[test]
fn cap_buy_size_to_budget_skips_when_budget_below_min_size() {
    let capped = cap_buy_size_to_budget(dec("200"), dec("4.9"), dec("5"));
    assert_eq!(capped, None);
}

#[test]
fn available_budget_subtracts_cash_reserve() {
    let om = OrderManager::new(dec("200"), dec("50"));
    // No orders: budget = 200 - 0 - 50 = 150
    assert_eq!(om.available_budget(), dec("150"));
}

#[test]
fn available_budget_floors_at_zero() {
    // reserve > balance
    let om = OrderManager::new(dec("30"), dec("50"));
    assert_eq!(om.available_budget(), Decimal::zero());
}

#[test]
fn available_hedge_resolution_usdc_ignores_cash_reserve() {
    let mut om = OrderManager::new(dec("200"), dec("50"));
    om.seed_live_order_for_test(sample_tracked_order());
    // Committed exposure counts resting BUY share collateral, not quoted notional.
    assert_eq!(om.available_hedge_resolution_usdc(), dec("180"));
}

#[test]
fn sync_open_orders_partial_global_omission_keeps_tracked_bid_reserved() {
    let mut om = OrderManager::new(dec("100"), dec("0"));
    let order = sample_tracked_order();
    om.seed_live_order_for_test(order.clone());
    assert_eq!(om.available_budget(), dec("80"));

    let fetched = vec![LiveOrder {
        id: "live-ask-1".to_string(),
        condition_id: "other-market".to_string(),
        asset_id: "other-yes-token".to_string(),
        side: Side::Sell,
        price: dec("0.55"),
        original_size: dec("10"),
        size_matched: dec("0"),
        outcome: Outcome::Yes,
        order_type: OrderType::GTC,
        status: OrderStatus::Live,
        created_at: NOW,
        associated_trade_ids: Vec::new(),
    }];
    let sync_result = om.sync_open_orders(&fetched, &vec![sample_market_meta()]);

    assert_eq!(sync_result.live, 1);
    assert_eq!(sync_result.imported, 1);
    assert_eq!(om.available_budget(), dec("80"));
    assert!(om.get_tracked_order(&order.order_id).is_some());
}

#[test]
fn sync_market_open_orders_observe_only_keeps_missing_bid_reserved() {
    let mut om = OrderManager::new(dec("100"), dec("0"));
    let order = sample_tracked_order();
    om.seed_live_order_for_test(order.clone());

    let sync_result = om.sync_market_open_orders(
        &Vec::new(),
        &order.condition_id,
        &sample_market_meta(),
        MarketOrderSyncMode::ObserveOnly,
    );

    assert_eq!(sync_result.live, 0);
    assert_eq!(sync_result.pruned, 0);
    assert_eq!(sync_result.missing_order_ids, vec![order.order_id.clone()]);
    assert_eq!(om.available_budget(), dec("80"));
    assert!(om.get_tracked_order(&order.order_id).is_some());
}

#[test]
fn place_quotes_records_exchange_leg_immediately() {
    let mut om = test_order_manager();
    let market = sample_market_meta();
    let quote_set = QuoteSet {
        condition_id: market.condition_id.clone(),
        candidates: vec![candidate(QuoteLeg::YesBid, "0.45", "20")],
    };

    let placed = place_quotes(&mut om, &market, &quote_set, None, dec("20"), "test");

    assert_eq!(placed.len(), 1);
    assert!(om.has_exchange_live_leg(&market.condition_id, QuoteLeg::YesBid));
}

#[test]
fn place_quotes_skips_when_exchange_leg_is_reserved() {
    let mut om = test_order_manager();
    let market = sample_market_meta();
    // The exchange reports the tracked order on another leg, which outlasts the order.
    om.seed_live_order_for_test(TrackedOrder {
        leg: QuoteLeg::NoBid,
        ..sample_tracked_order()
    });
    let mut live = sample_live_order(NOW);
    live.id = "order-1".to_string();
    om.sync_open_orders(&vec![live], &vec![sample_market_meta()]);
    om.remove_order("order-1");
    let quote_set = QuoteSet {
        condition_id: market.condition_id.clone(),
        candidates: vec![candidate(QuoteLeg::YesBid, "0.45", "20")],
    };
    assert!(om.has_exchange_live_leg(&market.condition_id, QuoteLeg::YesBid));

    let placed = place_quotes(&mut om, &market, &quote_set, None, dec("20"), "test");

    assert!(placed.is_empty());
    assert!(om.get_market_orders(&market.condition_id).is_empty());
}

#[test]
fn place_quotes_skips_regular_inventory_asks_for_fully_paired_inventory() {
    let mut om = test_order_manager();
    let market = sample_market_meta();
    let mut position = Position::new(market.condition_id.clone());
    position.yes_size = dec("20");
    position.no_size = dec("20");
    let quote_set = QuoteSet {
        condition_id: market.condition_id.clone(),
        candidates: vec![
            candidate(QuoteLeg::YesAsk, "0.76", "20"),
            candidate(QuoteLeg::NoAsk, "0.27", "20"),
        ],
    };

    let placed = place_quotes(
        &mut om,
        &market,
        &quote_set,
        Some(&position),
        dec("1"),
        "inventory_ask",
    );

    assert!(placed.is_empty());
    assert!(om.get_market_orders(&market.condition_id).is_empty());
}

#[test]
fn place_quotes_allows_full_inventory_exit_asks_for_fully_paired_inventory() {
    let mut om = test_order_manager();
    let market = sample_market_meta();
    let mut position = Position::new(market.condition_id.clone());
    position.yes_size = dec("20");
    position.no_size = dec("20");
    let quote_set = QuoteSet {
        condition_id: market.condition_id.clone(),
        candidates: vec![
            candidate(QuoteLeg::YesAsk, "0.76", "20"),
            candidate(QuoteLeg::NoAsk, "0.27", "20"),
        ],
    };

    let placed = place_quotes(
        &mut om,
        &market,
        &quote_set,
        Some(&position),
        dec("1"),
        "inventory_exit_ask",
    );

    assert_eq!(placed.len(), 2);
    assert_eq!(om.get_market_orders(&market.condition_id).len(), 2);
}

#[test]
fn unknown_cancel_keeps_order_tracked_and_pending() {
    let mut om = test_order_manager();
    let order = sample_tracked_order();
    om.seed_live_order_for_test(order.clone());

    let outcome = CancelOrderOutcome::Unknown("lookup missing".to_string());
    om.apply_cancel_outcome(&order, &outcome, CancelReasonCode::RiskHalt, "test", 1);

    assert!(matches!(outcome, CancelOrderOutcome::Unknown(_)));
    assert_eq!(om.get_market_orders(&order.condition_id).len(), 1);
    assert!(om.has_pending_cancel_retries());
    let due = om.retry_pending_cancels(1 + PENDING_CANCEL_RETRY_BACKOFF_MS);
    assert_eq!(due.len(), 1);
    assert_eq!(due[0].order.order_id, order.order_id);
}

#[test]
fn confirmed_cancel_removes_tracking_and_pending_state() {
    let mut om = test_order_manager();
    let order = sample_tracked_order();
    om.seed_live_order_for_test(order.clone());
    om.seed_pending_cancel_for_test(order.clone(), CancelReasonCode::RiskHalt, "test", 1);

    let outcome = CancelOrderOutcome::Confirmed;
    om.apply_cancel_outcome(&order, &outcome, CancelReasonCode::RiskHalt, "test", 2);

    assert!(matches!(outcome, CancelOrderOutcome::Confirmed));
    assert!(om.get_market_orders(&order.condition_id).is_empty());
    assert!(!om.has_pending_cancel_retries());
    let recent = om.get_recently_cancelled_for_market(&order.condition_id);
    assert_eq!(recent.len(), 1);
    assert_eq!(recent[0].order_id, order.order_id);
}

#[test]
fn retry_pending_cancels_confirms_and_clears_dry_run_orders() {
    let mut om = test_order_manager();
    let order = sample_tracked_order();
    om.seed_live_order_for_test(order.clone());
    om.seed_pending_cancel_for_test(order.clone(), CancelReasonCode::RiskHalt, "test", 1_000);
    // Too soon.
    assert!(om.retry_pending_cancels(1_001).is_empty());

    let now = 1_000 + PENDING_CANCEL_RETRY_BACKOFF_MS + 1_000;
    let due = om.retry_pending_cancels(now);
    for retry in &due {
        om.apply_cancel_outcome(
            &retry.order,
            &CancelOrderOutcome::Confirmed,
            retry.reason_code,
            &retry.origin,
            now,
        );
    }

    assert_eq!(due.len(), 1);
    assert!(om.get_market_orders(&order.condition_id).is_empty());
    assert!(!om.has_pending_cancel_retries());
}

#[test]
fn prune_recently_cancelled_entries_drops_old_entries_without_underflow() {
    let ttl = 1u64;
    let expired_at = 10u64;
    let now = expired_at + ttl + 1;
    let order = sample_tracked_order();
    let fresh = TrackedOrder {
        order_id: "fresh-order".to_string(),
        ..order.clone()
    };
    let recently_cancelled = vec![
        CancelledOrder {
            order,
            recorded_at: expired_at,
        },
        CancelledOrder {
            order: fresh.clone(),
            recorded_at: now,
        },
    ];

    let kept = prune_recently_cancelled_entries(recently_cancelled, now, ttl);

    assert!(!kept.iter().any(|c| c.order.order_id == "order-1"));
    assert!(kept.iter().any(|c| c.order.order_id == fresh.order_id));
}

#[test]
fn tracked_order_from_live_order_keeps_exchange_created_at() {
    // 2026-03-23 12:00:00 UTC
    let created_at = Timestamp {
        secs: 1_774_267_200,
        nanos: 0,
    };
    let order = tracked_order_from_live_order(
        &sample_live_order(created_at),
        QuoteLeg::YesBid,
        "no-token".to_string(),
        false,
        "0.01".to_string(),
        dec("15"),
        "trace".to_string(),
    );

    assert_eq!(order.created_at, created_at);
    assert_eq!(order.size, dec("15"));
    assert_eq!(order.matched_size, dec("5"));
}

#[test]
fn resize_order_preserves_original_created_at() {
    let mut om = test_order_manager();
    let mut order = sample_tracked_order();
    order.created_at = Timestamp {
        secs: NOW.secs - 300,
        ..NOW
    };
    om.seed_live_order_for_test(order.clone());

    let (existing, request) = om
        .resize_order(
            &order.order_id,
            dec("10"),
            &CancelOrderOutcome::Confirmed,
            CancelReasonCode::HedgeDepthPartialDownsize,
            "test_resize",
            1,
        )
        .expect("replacement should exist");
    assert_eq!(request.size, dec("10"));
    assert!(!om.has_exchange_live_leg(&order.condition_id, order.leg));
    let resized = om.order_resized(&existing, dec("10"), "order-2".to_string());

    assert_eq!(resized.created_at, order.created_at);
    assert_eq!(resized.size, dec("10"));
    assert!(om.has_exchange_live_leg(&order.condition_id, order.leg));
}

#[test]
fn a_resize_waits_for_the_cancellation() {
    let mut om = test_order_manager();
    om.seed_live_order_for_test(sample_tracked_order());
    let mut resize = |id: &str, outcome: CancelOrderOutcome| {
        om.resize_order(id, dec("10"), &outcome, CancelReasonCode::RiskHalt, "test", 1)
    };
    assert!(resize("order-1", CancelOrderOutcome::Rejected("busy".to_string())).is_none());
    assert!(resize("no-such-order", CancelOrderOutcome::Confirmed).is_none());
    assert!(om.has_pending_cancel_retries());
    assert_eq!(om.get_market_orders("market").len(), 1);
}

#[test]
fn sync_market_open_orders_prunes_stale_bids_before_resolution_budget() {
    let mut om = OrderManager::new(dec("100"), dec("0"));
    let order = sample_tracked_order();
    om.seed_live_order_for_test(order.clone());
    om.seed_pending_cancel_for_test(order.clone(), CancelReasonCode::RiskHalt, "test", 1);
    assert_eq!(om.available_hedge_resolution_usdc(), dec("80"));

    let sync_result = om.sync_market_open_orders(
        &Vec::new(),
        &order.condition_id,
        &sample_market_meta(),
        MarketOrderSyncMode::Reconcile,
    );

    assert_eq!(sync_result.live, 0);
    assert_eq!(sync_result.pruned, 1);
    assert_eq!(om.available_hedge_resolution_usdc(), dec("100"));
    assert!(!om.has_pending_cancel_retries());
    assert!(om.get_market_orders(&order.condition_id).is_empty());
}

#[test]
fn fills_move_shares_from_open_to_matched() {
    let mut om = test_order_manager();
    om.seed_live_order_for_test(sample_tracked_order());

    let first = om.apply_trade_fill("order-1", dec("8"), 1).expect("a match");
    assert_eq!(first.newly_matched, dec("8"));
    assert_eq!(first.tracked_after.unwrap().size, dec("12"));

    // The update reports the same eight shares: nothing is counted twice.
    let again = om.apply_order_update("order-1", dec("8"), 2).expect("known");
    assert_eq!(again.newly_matched, dec("0"));

    // Nor is anything counted for an amount that is out of date.
    let old = om.apply_order_update("order-1", dec("3"), 2).expect("known");
    assert_eq!(old.newly_matched, dec("0"));
    assert_eq!(om.get_market_orders("market")[0].size, dec("12"));

    let last = om.apply_trade_fill("order-1", dec("50"), 3).expect("a match");
    assert_eq!(last.newly_matched, dec("12"));
    assert!(om.get_market_orders("market").is_empty());
    assert!(om.apply_trade_fill("no-such-order", dec("1"), 4).is_none());
}

#[test]
fn only_overflows_are_refused() {
    let largest = "79228162514264337593543950335";
    // Far beyond any account, but within the range of decimals
    let rich = OrderManager::new(dec("70000000000000000000000000000"), dec("0.5"));
    assert_eq!(
        rich.try_available_budget(),
        Some(dec("69999999999999999999999999999.5"))
    );
    assert_eq!(
        rich.available_hedge_resolution_usdc(),
        dec("70000000000000000000000000000")
    );
    let mut indebted = OrderManager::new(dec(&format!("-{largest}")), dec("1"));
    assert_eq!(indebted.try_available_budget(), None);
    assert_eq!(
        indebted.try_available_hedge_resolution_usdc(),
        Some(dec("0"))
    );
    let market = sample_market_meta();
    let bid = candidate(QuoteLeg::YesBid, "0.45", "20");
    assert!(indebted
        .try_place_candidate(&market, &bid, None, dec("1"), "test")
        .is_none());
    // Neither a quote that is not approved nor an ask asks for the budget.
    let mut rejected = candidate(QuoteLeg::YesBid, "0.45", "20");
    rejected.status = QuoteStatus::Rejected;
    assert!(matches!(
        indebted.try_place_candidate(&market, &rejected, None, dec("1"), "test"),
        Some(None)
    ));
    assert!(indebted
        .place_candidate(&market, &rejected, None, dec("1"), "test")
        .is_none());
    let mut held = Position::new("market".to_string());
    held.yes_size = dec("25");
    let ask = candidate(QuoteLeg::YesAsk, "0.55", "20");
    let request = indebted
        .try_place_candidate(&market, &ask, Some(&held), dec("1"), "test")
        .expect("in range")
        .expect("an order");
    assert_eq!(request.size, dec("20"));
    held.no_size = dec(&format!("-{largest}"));
    assert!(indebted
        .try_place_candidate(&market, &ask, Some(&held), dec("1"), "test")
        .is_none());
    assert!(matches!(
        indebted.try_place_candidate(&market, &ask, Some(&held), dec("1"), "inventory_exit_ask"),
        Some(Some(_))
    ));

    let mut order = sample_tracked_order();
    order.size = dec(largest);
    order.matched_size = dec("1");
    indebted.seed_live_order_for_test(order);
    assert!(indebted
        .try_apply_order_update("order-1", dec(largest), 1)
        .expect("in range")
        .is_some());
    let mut order = sample_tracked_order();
    order.size = dec("50");
    order.matched_size = dec(largest);
    let mut full = test_order_manager();
    full.seed_live_order_for_test(order);
    assert!(full.try_apply_trade_fill("order-1", dec("20"), 1).is_none());
    assert_eq!(full.get_market_orders("market")[0].size, dec("50"));
    assert!(matches!(full.try_apply_trade_fill("order-1", dec("0"), 1), Some(None)));
    assert!(matches!(full.try_apply_trade_fill("no-order", dec("5"), 1), Some(None)));
}

#[test]
fn overfills_are_counted_once() {
    let mut om = test_order_manager();
    om.seed_live_order_for_test(sample_tracked_order());
    let all = om.apply_order_update("order-1", dec("25"), 1).expect("known");
    assert_eq!(all.newly_matched, dec("20"));
    for amount in ["25", "20", "1"] {
        let again = om.apply_order_update("order-1", dec(amount), 2).expect("known");
        assert_eq!(again.newly_matched, dec("0"));
    }
}

#[test]
fn stale_cancels_are_forgotten() {
    let mut om = test_order_manager();
    om.seed_live_order_for_test(sample_tracked_order());
    om.move_to_recently_cancelled("order-1", 1_000);
    assert_eq!(om.get_recently_cancelled_for_market("market").len(), 1);
    om.cleanup_stale_cancels(1_000 + RECENTLY_CANCELLED_TTL_MS);
    assert!(om.get_recently_cancelled_for_market("market").is_empty());
}

#[test]
fn quotes_follow_the_market_when_they_drift() {
    let mut om = test_order_manager();
    let market = sample_market_meta();
    om.seed_live_order_for_test(sample_tracked_order());
    let same = QuoteSet {
        condition_id: "market".to_string(),
        candidates: vec![candidate(QuoteLeg::YesBid, "0.45", "20")],
    };
    assert!(om.cancel_replace_if_drifted(&market, &same, dec("30")).is_empty());
    let moved = QuoteSet {
        condition_id: "market".to_string(),
        candidates: vec![
            candidate(QuoteLeg::YesBid, "0.47", "20"),
            candidate(QuoteLeg::NoBid, "0.50", "20"),
        ],
    };
    let plan = om.cancel_replace_if_drifted(&market, &moved, dec("30"));
    assert_eq!(plan.len(), 2);
    assert_eq!(plan[0].replaced.as_ref().unwrap().order_id, "order-1");
    assert!(plan[1].replaced.is_none());
    let tried = om.try_cancel_replace_if_drifted(&market, &moved, dec("30")).expect("in range");
    assert_eq!(tried.len(), 2);
    let tiny = QuoteSet {
        condition_id: "market".to_string(),
        candidates: vec![candidate(QuoteLeg::YesBid, "0.0000000000000000000000000001", "20")],
    };
    assert!(om.try_cancel_replace_if_drifted(&market, &tiny, dec("30")).is_none());
    assert!(OrderManager::may_replace(&vec![CancelOrderOutcome::Confirmed]));
    assert!(!OrderManager::may_replace(&vec![
        CancelOrderOutcome::Confirmed,
        CancelOrderOutcome::Unknown("?".to_string()),
    ]));
}

#[test]
fn two_live_bids_on_one_leg_are_reported() {
    let mut second = sample_live_order(NOW);
    second.id = "live-order-2".to_string();
    let found = detect_duplicate_live_bid_legs(&[sample_live_order(NOW), second]);
    assert_eq!(found.len(), 1);
    assert_eq!(found[0].leg, QuoteLeg::YesBid);
    assert_eq!(found[0].order_ids.len(), 2);
    assert!(detect_duplicate_live_bid_legs(&[sample_live_order(NOW)]).is_empty());
}

#[test]
fn cancellations_pick_their_side() {
    let mut om = test_order_manager();
    om.seed_live_order_for_test(sample_tracked_order());
    let ask = TrackedOrder {
        order_id: "order-2".to_string(),
        leg: QuoteLeg::YesAsk,
        side: Side::Sell,
        ..sample_tracked_order()
    };
    om.seed_live_order_for_test(ask.clone());
    assert_eq!(om.cancel_all("market").len(), 2);
    assert_eq!(om.cancel_bids_only("market")[0].order_id, "order-1");
    assert_eq!(om.cancel_asks_only("market")[0].order_id, "order-2");
    assert_eq!(om.cancel_leg("market", QuoteLeg::YesAsk).len(), 1);
    assert!(om.cancel_other_bids("market").is_empty());
    assert_eq!(om.committed_capital(), dec("9"));
    assert_eq!(om.committed_exposure(), dec("20"));
    assert_eq!(om.try_committed_capital(), Some(dec("9")));
    assert_eq!(om.try_committed_exposure(), Some(dec("20")));
    assert!(!order_role(&ask).is_empty());
}
