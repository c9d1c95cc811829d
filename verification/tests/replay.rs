use spreadeater::config::{ScoreProxyConfig, StrategyConfig};
use spreadeater::decimal::Decimal;
use spreadeater::json::Json;
use spreadeater::models::events::{OrderEventType, UserEvent};
use spreadeater::models::{
    CanonicalMarket, LiveOrder, MarketStatus, OrderBookSnapshot, OrderStatus, OrderType, Outcome,
    PriceLevel, QuoteLeg, RewardConfig, Side,
};
use spreadeater::runtime::hedge_live_probe::verdict::empty_observed_outcome;
use spreadeater::runtime::hedge_replay::harness::{
    replay_report_lines, HedgeReplayHarness, HedgeReplayScenario, ReplayExpectedOutcome,
    ReplaySetup,
};
use spreadeater::runtime::hedge_replay::{
    execute_step, payload_contains_subset, ExpectedCriticalEvent, ReplayEventSummary,
    ReplayOrderEvent, ReplayStep, ScenarioMarket, ScenarioPositionStep, ScenarioTrackedOrder,
    ScenarioTrade, StepAction,
};
use spreadeater::runtime::live_cycle::{
    CycleAction, CycleEvent, CycleStage, Mode, Orchestrator,
};
use spreadeater::runtime::replay::{ReplayDetail, ReplaySummary};
use spreadeater::runtime::report::replay_summary_lines;
use spreadeater::runtime::run_metadata::{build_run_metadata, config_hash, RunMetadataPaths};
use spreadeater::time::Timestamp;
use spreadeater::trading::order_manager::OrderManager;
use spreadeater::trading::positions::RawPosition;
use spreadeater::trading::risk::RiskConfig;

const NOW: Timestamp = Timestamp {
    secs: 1_774_742_400,
    nanos: 123_456_789,
};

fn dec(text: &str) -> Decimal {
    Decimal::parse(text).expect("a decimal")
}

fn text(s: &str) -> Option<String> {
    Some(s.to_string())
}

fn scenario(sequence: Vec<ReplayStep>) -> HedgeReplayScenario {
    HedgeReplayScenario {
        name: "replay".to_string(),
        description: "a replay".to_string(),
        market: market(),
        setup: ReplaySetup {
            managed_market: true,
            known_market: true,
            tracked_orders: vec![known_order("order-1", None)],
            recently_cancelled_orders: vec![known_order("order-2", text("trace-2"))],
            positions: vec![ScenarioPositionStep {
                yes_size: dec("3"),
                no_size: dec("1"),
                yes_avg_price: dec("0.4"),
                no_avg_price: dec("0.5"),
            }],
            cached_balance: None,
        },
        sequence,
        balances: vec![dec("75"), dec("70")],
        expected: ReplayExpectedOutcome {
            critical_events: vec![expected("hedge_started"), expected("hedge_completed")],
            success: true,
        },
    }
}

fn market() -> ScenarioMarket {
    ScenarioMarket {
        condition_id: "market".to_string(),
        yes_token_id: "yes".to_string(),
        no_token_id: "no".to_string(),
        tick_size: "0.01".to_string(),
    }
}

fn known_order(id: &str, trace_id: Option<String>) -> ScenarioTrackedOrder {
    ScenarioTrackedOrder {
        order_id: id.to_string(),
        trace_id,
        leg: QuoteLeg::NoBid,
        price: dec("0.45"),
        size: dec("20"),
        matched_size: dec("0"),
        created_at_unix: None,
    }
}

fn expected(event_type: &str) -> ExpectedCriticalEvent {
    ExpectedCriticalEvent {
        event_type: event_type.to_string(),
        source_component: None,
        payload: Json::Null,
    }
}

fn seen(event_type: &str) -> ReplayEventSummary {
    ReplayEventSummary {
        event_type: event_type.to_string(),
        source_component: "engine".to_string(),
        payload: Json::Null,
    }
}

#[test]
fn a_scenario_is_put_in_place() {
    let empty = HedgeReplayHarness::from_scenario(scenario(Vec::new()), Ok(()), NOW).unwrap_err();
    assert_eq!(empty.message(), "Replay scenario sequence must not be empty");
    // The market is checked first.
    let wrong = HedgeReplayHarness::from_scenario(
        scenario(Vec::new()),
        Err("market needs a tick size".to_string()),
        NOW,
    );
    assert_eq!(wrong.unwrap_err().message(), "market needs a tick size");
    let harness =
        HedgeReplayHarness::from_scenario(scenario(vec![ReplayStep::RefreshQuotes]), Ok(()), NOW)
            .unwrap();
    assert_eq!(harness.balance, dec("75"));
    assert_eq!(harness.positions[0].yes_size, dec("3"));
    assert_eq!(harness.tracked_orders[0].token_id, "no");
    assert_eq!(harness.tracked_orders[0].created_at, NOW);
    assert!(harness.tracked_orders[0]
        .trace_id
        .starts_with("hedge-replay-trace-"));
    assert_eq!(harness.recently_cancelled_orders[0].trace_id, "trace-2");
}

#[test]
fn steps_become_events() {
    let mut orders = OrderManager::new(dec("100"), dec("0"));
    let harness =
        HedgeReplayHarness::from_scenario(scenario(vec![ReplayStep::RefreshQuotes]), Ok(()), NOW)
            .unwrap();
    orders.seed_live_order_for_test(harness.tracked_orders[0].clone());
    let now = NOW;
    let trade = ScenarioTrade {
        trade_id: "trade-1".to_string(),
        side: Side::Buy,
        price: dec("0.45"),
        size: dec("5"),
        condition_id: None,
        asset_id: None,
        outcome: None,
        timestamp_unix: Some(7),
        maker_order_id: text("order-1"),
        taker_order_id: None,
    };
    let action = execute_step(ReplayStep::UserTrade { trade }, &orders, &market(), now);
    match action {
        Ok(StepAction::Dispatch(UserEvent::Trade(event))) => {
            assert_eq!(event.asset_id, "no");
            assert_eq!(event.condition_id, "market");
            assert_eq!(event.timestamp.secs, 7);
        }
        other => panic!("unexpected: {other:?}"),
    }
    let order = ReplayOrderEvent {
        order_id: "order-1".to_string(),
        side: Side::Buy,
        price: dec("0.45"),
        original_size: dec("20"),
        size_matched: dec("5"),
        condition_id: None,
        asset_id: None,
        outcome: None,
        timestamp_unix: None,
    };
    match execute_step(ReplayStep::UserOrderUpdate { order }, &orders, &market(), now) {
        Ok(StepAction::Dispatch(UserEvent::Order(event))) => {
            assert_eq!(event.event_type, OrderEventType::Update);
            assert_eq!(event.asset_id, "no");
        }
        other => panic!("unexpected: {other:?}"),
    }
    assert!(matches!(
        execute_step(ReplayStep::RefreshQuotes, &orders, &market(), now),
        Ok(StepAction::RefreshQuotes)
    ));
    let unknown = ReplayOrderEvent {
        order_id: "order-9".to_string(),
        side: Side::Buy,
        price: dec("0.45"),
        original_size: dec("20"),
        size_matched: dec("5"),
        condition_id: None,
        asset_id: None,
        outcome: None,
        timestamp_unix: None,
    };
    let refused =
        execute_step(ReplayStep::UserOrderUpdate { order: unknown }, &orders, &market(), now);
    assert_eq!(
        refused.unwrap_err(),
        "Replay order event order-9 requires the order to be seeded"
    );
}

#[test]
fn expected_events_must_come_out_in_order() {
    let harness =
        || HedgeReplayHarness::from_scenario(scenario(vec![ReplayStep::RefreshQuotes]), Ok(()), NOW)
            .unwrap();
    let passed = harness().finish(
        Vec::new(),
        empty_observed_outcome(),
        vec![seen("hedge_started"), seen("other"), seen("hedge_completed")],
    );
    assert!(passed.passed);
    assert!(!passed.actual_success);
    let swapped = harness().finish(
        Vec::new(),
        empty_observed_outcome(),
        vec![seen("hedge_completed"), seen("hedge_started")],
    );
    assert!(!swapped.passed);
    let lines = replay_report_lines(&swapped);
    assert_eq!(lines[0], "=== Hedge Replay: replay ===");
    assert_eq!(lines[1], "Result: FAIL");
    assert_eq!(lines[2], "Expected success: true, Actual: false");
    assert_eq!(lines[3], "Critical events observed: 2");
    assert_eq!(lines[4], "Mismatches:");
    assert!(lines[5].starts_with("- "));
    assert_eq!(replay_report_lines(&passed).len(), 4);
}

#[test]
fn payloads_cover_what_is_expected_of_them() {
    let field = |name: &str, n: &str| (name.to_string(), Json::Number(n.to_string()));
    let actual = Json::Object(vec![field("a", "1"), field("b", "2")]);
    assert!(payload_contains_subset(&actual, &Json::Null));
    assert!(payload_contains_subset(&actual, &Json::Object(vec![field("b", "2")])));
    assert!(!payload_contains_subset(&actual, &Json::Object(vec![field("b", "3")])));
    assert!(!payload_contains_subset(&actual, &Json::Object(vec![field("c", "3")])));
}

#[test]
fn replays_are_summed_up() {
    let detail = |slug: &str, replayed: bool, edge: Option<Decimal>| ReplayDetail {
        condition_id: "market".to_string(),
        market_slug: slug.to_string(),
        original_would_trade: true,
        replayed_would_trade: replayed,
        original_edge: None,
        replayed_edge: edge,
        score_proxy: Some(dec("0.03")),
    };
    let summary = ReplaySummary {
        session_path: "archive/session.jsonl".to_string(),
        total_markets: 2,
        decision_changes: 1,
        avg_score_proxy: None,
        details: vec![detail("kept", true, Some(dec("1.50"))), detail("lost", false, None)],
    };
    assert_eq!(
        replay_summary_lines(&summary, Some("session.jsonl")),
        vec![
            "\n=== REPLAY: session.jsonl ===".to_string(),
            "  kept | orig=TRADE repl=TRADE | edge: N/A -> $1.50 | score_proxy=0.03 (approx)"
                .to_string(),
            "  lost | orig=TRADE repl=PASS | edge: N/A -> N/A | score_proxy=0.03 (approx) [CHANGED]"
                .to_string(),
            "\nSummary: 2 markets, 1 decision changes, avg score proxy: N/A (approx)".to_string(),
        ]
    );
    assert_eq!(
        replay_summary_lines(&summary, None)[0],
        "\n=== REPLAY: unknown ==="
    );
}

#[test]
fn runs_are_written_down_with_their_configuration() {
    let config = Json::Object(vec![("a".to_string(), Json::Null)]);
    let metadata = build_run_metadata(
        &config,
        dec("10"),
        "run_1",
        42,
        "live",
        NOW,
        "/etc/config.toml",
        &RunMetadataPaths {
            events_path: "/logs/run_1/events.jsonl".to_string(),
            event_log_dir: "/logs".to_string(),
        },
    );
    assert_eq!(metadata.config_hash, config_hash(&config));
    assert_eq!(metadata.pid, 42);
    assert_eq!(metadata.event_log_dir, "/logs");
}

fn strategy() -> StrategyConfig {
    StrategyConfig {
        max_hedge_cost_bps: dec("80"),
        max_slippage_bps: dec("80"),
        default_quote_size: dec("5"),
        min_edge_threshold: dec("0.50"),
        quote_drift_bps: dec("30"),
        bid_depth_pct: dec("0.50"),
        ask_depth_pct: dec("0.20"),
        quote_refresh_secs: 5,
        min_est_daily: dec("0.25"),
        min_return_pct: dec("0.0025"),
        min_outcome_price: dec("0.20"),
        reward_discount_factor: dec("0.70"),
        min_frontier_improvement: dec("0.05"),
        frontier_handoff_window_secs: 5,
        score_proxy: ScoreProxyConfig {
            competition_multiplier: dec("1.5"),
            max_score_share: dec("0.25"),
            min_score_share: dec("0.0001"),
            target_score_share: dec("0.03"),
            calibration_sample_size: 10,
        },
    }
}

fn risk() -> RiskConfig {
    RiskConfig {
        hedge_timeout_secs: 60,
        hedge_exposure_tolerance: dec("1"),
        cash_reserve: dec("10"),
    }
}

fn admitted(condition_id: &str) -> CanonicalMarket {
    CanonicalMarket {
        condition_id: condition_id.to_string(),
        market_slug: condition_id.to_string(),
        question: "?".to_string(),
        yes_token_id: "yes".to_string(),
        no_token_id: "no".to_string(),
        reward_config: RewardConfig {
            condition_id: condition_id.to_string(),
            daily_reward_rates: vec![dec("100")],
            daily_reward_total: dec("100"),
            min_size: dec("5"),
            max_spread: dec("0.10"),
        },
        neg_risk: false,
        tick_size: "0.01".to_string(),
        end_date: None,
        admitted_at: NOW,
        status: MarketStatus::Admitted,
    }
}

fn books() -> Option<(OrderBookSnapshot, OrderBookSnapshot)> {
    let book = |token: &str| OrderBookSnapshot {
        token_id: token.to_string(),
        bids: vec![PriceLevel {
            price: dec("0.45"),
            size: dec("100"),
        }],
        asks: vec![PriceLevel {
            price: dec("0.55"),
            size: dec("100"),
        }],
    };
    Some((book("yes"), book("no")))
}

fn open_bid() -> LiveOrder {
    LiveOrder {
        id: "order-1".to_string(),
        condition_id: "b".to_string(),
        asset_id: "yes".to_string(),
        side: Side::Buy,
        price: dec("0.45"),
        original_size: dec("20"),
        size_matched: dec("0"),
        outcome: Outcome::Yes,
        order_type: OrderType::GTC,
        status: OrderStatus::Live,
        created_at: NOW,
        associated_trade_ids: Vec::new(),
    }
}

#[test]
fn a_live_cycle_passes_over_halted_markets() {
    let mut bot = Orchestrator::with_auth(strategy(), risk(), false);
    assert_eq!(bot.mode.label(), "live");
    bot.risk.halt_market("a", "depth");
    assert!(matches!(
        bot.run_live_cycle(CycleEvent::Started, 0),
        CycleAction::FetchPositions
    ));
    let held = RawPosition {
        condition_id: text("b"),
        size: text("10"),
        avg_price: text("0.4"),
        outcome: text("YES"),
    };
    assert!(matches!(
        bot.run_live_cycle(CycleEvent::Positions(Some(vec![held])), 0),
        CycleAction::FetchOrders
    ));
    assert!(matches!(
        bot.run_live_cycle(CycleEvent::Orders(Some(vec![open_bid()])), 0),
        CycleAction::FetchBalance
    ));
    assert!(matches!(
        bot.run_live_cycle(CycleEvent::Balance(Some(dec("100"))), 0),
        CycleAction::Discover
    ));
    let funds = bot.funds.expect("funds");
    // 0.45 * 20 in the bid and 0.4 * 10 in the position
    assert_eq!(funds.committed_capital, dec("13"));
    assert_eq!(funds.available_budget, dec("87"));
    let markets = vec![admitted("a"), admitted("b"), admitted("c")];
    assert!(matches!(
        bot.run_live_cycle(CycleEvent::Markets(Some(markets)), 0),
        CycleAction::FetchBooks(1)
    ));
    assert!(matches!(
        bot.run_live_cycle(CycleEvent::Books(books()), 5),
        CycleAction::FetchBooks(2)
    ));
    assert_eq!(bot.evaluated.len(), 1);
    assert_eq!(bot.evaluated[0].active_orders, 1);
    let events = &bot.evaluated[0].events;
    assert_eq!(events.len(), 4);
    for (i, event) in events.iter().enumerate() {
        // A random UUID of its own for each quote
        assert_eq!(event.trace_id.len(), 36);
        assert_eq!(&event.trace_id[14..15], "4");
        assert!(event
            .trace_id
            .char_indices()
            .all(|(at, c)| (c == '-') == [8, 13, 18, 23].contains(&at)));
        assert!(events[..i].iter().all(|other| other.trace_id != event.trace_id));
    }
    assert_eq!(bot.risk.get_market_state("b").unwrap().unhedged_since, Some(5));
    assert!(matches!(
        bot.run_live_cycle(CycleEvent::Books(None), 6),
        CycleAction::SaveSession
    ));
    assert_eq!(bot.evaluated.len(), 1);
    assert_eq!(bot.stage, CycleStage::Idle);
}

#[test]
fn a_globally_halted_cycle_does_nothing() {
    let mut bot = Orchestrator::with_auth(strategy(), risk(), true);
    assert_eq!(bot.mode, Mode::DryRun);
    bot.risk.global_halt("watchdog");
    assert!(matches!(
        bot.run_live_cycle(CycleEvent::Started, 0),
        CycleAction::Finished
    ));
    let mut shadow = Orchestrator::new(strategy(), risk());
    assert!(matches!(
        shadow.run_live_cycle(CycleEvent::Started, 0),
        CycleAction::Failed("Live mode requires risk manager")
    ));
}

#[test]
fn a_shadow_cycle_evaluates_every_market() {
    let mut bot = Orchestrator::new(strategy(), risk());
    bot.risk.halt_market("a", "depth");
    assert!(matches!(
        bot.run_shadow_cycle(CycleEvent::Started, 0),
        CycleAction::Discover
    ));
    assert!(matches!(
        bot.run_shadow_cycle(CycleEvent::Markets(Some(vec![admitted("a")])), 0),
        CycleAction::FetchBooks(0)
    ));
    assert!(matches!(
        bot.run_shadow_cycle(CycleEvent::Books(books()), 0),
        CycleAction::SaveSession
    ));
    assert_eq!(bot.evaluated.len(), 1);
    // The monitor is told nothing in shadow mode.
    assert!(bot.evaluated[0].events.is_empty());
    bot.run_shadow_cycle(CycleEvent::Started, 0);
    assert!(matches!(
        bot.run_shadow_cycle(CycleEvent::Markets(None), 0),
        CycleAction::Failed("Discovery failed")
    ));
    bot.run_shadow_cycle(CycleEvent::Started, 0);
    assert!(matches!(
        bot.run_shadow_cycle(CycleEvent::Markets(Some(Vec::new())), 0),
        CycleAction::Finished
    ));
}
