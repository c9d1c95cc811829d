use spreadeater::decimal::Decimal;
use spreadeater::json::Json;
use spreadeater::models::{
    LiveOrder, OrderBookSnapshot, OrderResult, OrderStatus, Outcome, Position, PriceLevel,
    QuoteLeg, Side,
};
use spreadeater::runtime::hedge_live_probe::cleanup::{
    cleanup_success_status, flatten_done, flatten_estimated, flatten_placed, merge_done,
    place_flatten_order, run_probe_cleanup, start_cleanup,
    verify_cleanup_stability_after_candidate_clean, CleanupContext, CleanupStep,
};
use spreadeater::runtime::hedge_live_probe::preflight::{
    derive_marketable_limit_price, ensure_live_market_matches_scenario, preflight_live_probe, LiveProbePlan, Market, MarketToken,
    PreflightError, PreflightFacts,
};
use spreadeater::runtime::hedge_live_probe::trigger::{
    acquire_trigger_position, build_scoped_trigger_binding, finalize_trigger_acquisition,
    needs_lookup, trigger_request, watch_trigger, ScopedLiveRunnerReport, TriggerAcquisitionOutcome,
    TriggerDiagnostics, TriggerWatch,
};
use spreadeater::runtime::hedge_live_probe::verdict::{
    collect_critical_events, empty_observed_outcome, judge_probe, EventEnvelope,
    ObservedHedgeOutcome, Priority,
};
use spreadeater::runtime::hedge_live_probe::{
    validate_scenario, CleanupStatus, ExpectedCleanupStatus, HedgeLiveProbeScenario,
    LiveProbeExpected, LiveProbeMarket, LiveProbeRuntimeOptions, LiveProbeSafety, LiveProbeTrigger,
    ScenarioError,
};
use spreadeater::runtime::report::{probe_report_lines, warning_banner_lines, HedgeLiveProbeResult};
use spreadeater::time::Timestamp;

const NOW: Timestamp = Timestamp {
    secs: 1_774_742_400,
    nanos: 7,
};

fn dec(text: &str) -> Decimal {
    Decimal::parse(text).expect("a decimal")
}

fn scenario() -> HedgeLiveProbeScenario {
    HedgeLiveProbeScenario {
        name: "probe".to_string(),
        description: "a probe".to_string(),
        market: LiveProbeMarket {
            condition_id: "0xabc".to_string(),
            question: None,
            yes_token_id: "1".to_string(),
            no_token_id: "2".to_string(),
            tick_size: "0.01".to_string(),
            neg_risk: false,
        },
        trigger: LiveProbeTrigger {
            leg: QuoteLeg::YesBid,
            shares: dec("5"),
            max_trigger_limit_price: dec("0.60"),
        },
        safety: LiveProbeSafety {
            require_clean_market: true,
            max_planned_hedge_shares: dec("10"),
            max_planned_sellback_shares: dec("10"),
            max_planned_hedge_notional_usdc: dec("10"),
            max_post_sync_net_exposure: dec("0.5"),
            max_trigger_notional_usdc: dec("10"),
            max_cleanup_notional_usdc: dec("10"),
        },
        expected: LiveProbeExpected {
            success: true,
            halted: false,
            hedge_side: Some(Side::Buy),
            critical_event_types: vec!["hedge_completed".to_string()],
            max_planned_hedge_shares: None,
            max_planned_sellback_shares: None,
            max_post_sync_net_exposure: Some(dec("0.5")),
            result_status: Some("success".to_string()),
            hedge_leg_status: None,
            sellback_leg_status: None,
            cleanup_status: Some(ExpectedCleanupStatus::MergedOrFlattened),
            clean_end_state: true,
        },
    }
}

fn level(price: &str, size: &str) -> PriceLevel {
    PriceLevel {
        price: dec(price),
        size: dec(size),
    }
}

fn book(token: &str, bid: &str, ask: &str) -> OrderBookSnapshot {
    OrderBookSnapshot {
        token_id: token.to_string(),
        bids: vec![level(bid, "100")],
        asks: vec![level(ask, "100")],
    }
}

fn position(yes: &str, no: &str) -> Position {
    let mut position = Position::new("0xabc".to_string());
    position.yes_size = dec(yes);
    position.no_size = dec(no);
    position
}

fn live_market() -> Market {
    Market {
        condition_id: "0xabc".to_string(),
        tokens: vec![
            MarketToken {
                token_id: "1".to_string(),
                outcome: Outcome::Yes,
            },
            MarketToken {
                token_id: "2".to_string(),
                outcome: Outcome::No,
            },
        ],
        minimum_tick_size: "0.01".to_string(),
        neg_risk: false,
    }
}

fn preflight(
    scenario: &HedgeLiveProbeScenario,
    baseline: &Position,
    open: usize,
) -> Result<LiveProbePlan, PreflightError> {
    let market = live_market();
    let orders: Vec<LiveOrder> = Vec::new();
    preflight_live_probe(
        scenario,
        &PreflightFacts {
            live_market: Some(&market),
            global_open_orders: &orders,
            target_open_orders: open,
            balance: dec("100"),
            baseline,
            yes_book: &book("1", "0.50", "0.52"),
            no_book: &book("2", "0.47", "0.49"),
            tolerance: dec("0.01"),
        },
    )
}

fn placed() -> OrderResult {
    OrderResult {
        order_id: "order-1".to_string(),
        status: OrderStatus::Matched,
        trade_ids: vec!["trade-1".to_string()],
        transaction_hashes: Vec::new(),
        taking_amount: Some(dec("5")),
    }
}

fn seen(shares: &str, ids: &[&str]) -> ScopedLiveRunnerReport {
    ScopedLiveRunnerReport {
        matched_trigger_trade_ids: ids.iter().map(|id| id.to_string()).collect(),
        matched_trigger_trade_shares: dec(shares),
        matched_trigger_order_events: 1,
        connected_observed: true,
        used_normal_post_hedge_mode: true,
    }
}

fn acquired() -> TriggerAcquisitionOutcome {
    let scenario = scenario();
    let plan = preflight(&scenario, &position("0", "0"), 0).expect("a plan");
    acquire_trigger_position(&scenario, &plan, Ok(placed()), "trace-1", NOW)
}

fn nothing_found() -> Option<TriggerDiagnostics> {
    Some(TriggerDiagnostics {
        live_order: None,
        known_trade_ids: Vec::new(),
        direct_truth_acquired_shares: dec("0"),
    })
}

#[test]
fn scenarios_are_checked() {
    assert!(validate_scenario(&scenario()).is_ok());
    let mut wrong = scenario();
    wrong.market.yes_token_id = "abc".to_string();
    assert!(matches!(validate_scenario(&wrong), Err(ScenarioError::YesTokenId)));
    let mut wrong = scenario();
    wrong.market.tick_size = "a cent".to_string();
    assert!(matches!(validate_scenario(&wrong), Err(ScenarioError::TickSize)));
    let mut wrong = scenario();
    wrong.trigger.shares = dec("0");
    assert!(matches!(
        validate_scenario(&wrong),
        Err(ScenarioError::TriggerShares)
    ));
}

#[test]
fn a_plan_prices_the_trigger_at_the_best_ask() {
    let plan = preflight(&scenario(), &position("0", "0"), 0).expect("a plan");
    assert_eq!(plan.trigger_snapshot_ask_price, dec("0.52"));
    assert_eq!(
        Some(plan.trigger_limit_price),
        derive_marketable_limit_price(dec("0.52"), dec("0.01"))
    );
    assert_eq!(
        derive_marketable_limit_price(dec("0.99"), dec("0.01")),
        Some(dec("0.99"))
    );
    assert_eq!(plan.trigger_shares, dec("5"));
    assert_eq!(plan.hedge_side, Side::Buy);
    assert_eq!(plan.trigger_token_id, "1");
}

#[test]
fn a_market_that_is_not_clean_is_refused() {
    let scenario = scenario();
    assert!(matches!(
        preflight(&scenario, &position("0", "0"), 2),
        Err(PreflightError::OpenOrders(2))
    ));
    assert!(matches!(
        preflight(&scenario, &position("3", "0"), 0),
        Err(PreflightError::Inventory { .. })
    ));
}

#[test]
fn limits_of_the_scenario_are_kept() {
    let mut tight = scenario();
    tight.trigger.max_trigger_limit_price = dec("0.50");
    assert!(matches!(
        preflight(&tight, &position("0", "0"), 0),
        Err(PreflightError::TriggerLimitPrice { .. })
    ));
    let mut poor = scenario();
    poor.safety.max_trigger_notional_usdc = dec("1");
    assert!(matches!(
        preflight(&poor, &position("0", "0"), 0),
        Err(PreflightError::TriggerNotional { .. })
    ));
    let mut ask = scenario();
    ask.trigger.leg = QuoteLeg::YesAsk;
    assert!(matches!(
        preflight(&ask, &position("0", "0"), 0),
        Err(PreflightError::UnsupportedLeg(QuoteLeg::YesAsk))
    ));
}

#[test]
fn a_limit_beyond_any_account_is_no_limit() {
    let mut scenario = scenario();
    scenario.safety.max_cleanup_notional_usdc = dec("79228162514264337593543950335");
    let baseline = position("0", "0");
    let report = seen("5", &["trade-1"]);
    let trigger = finalize_trigger_acquisition(acquired(), &report, &None, &None, &None).summary;
    let ctx = CleanupContext {
        scenario: &scenario,
        baseline: &baseline,
        baseline_open_orders: 0,
        tolerance: dec("0.01"),
        trigger: &trigger,
    };
    let mut state = start_cleanup(&ctx);
    let vast = || position("700000000000000000000000000", "0");
    let step = run_probe_cleanup(&ctx, &mut state, vast(), vast(), 0, 0, false);
    let yes = match step {
        CleanupStep::EstimateFlatten(yes, _) => yes,
        other => panic!("unexpected: {other:?}"),
    };
    assert_eq!(yes, dec("700000000000000000000000000"));
    let notional = dec("60000000000000000000000000000");
    assert!(matches!(
        flatten_estimated(&ctx, &state, yes, dec("0"), Ok(notional)),
        CleanupStep::PlaceFlatten(..)
    ));
}

#[test]
fn refusals_say_why() {
    let scenario = scenario();
    let text = |e: PreflightError| e.message(&scenario.market, None);
    assert_eq!(
        text(preflight(&scenario, &position("0", "0"), 2).unwrap_err()),
        "live probe aborted: target market 0xabc has 2 existing open orders"
    );
    assert_eq!(
        text(preflight(&scenario, &position("3", "0.5"), 0).unwrap_err()),
        "live probe aborted: target market 0xabc has existing inventory (yes=3, no=0.5)"
    );
    let mut tight = self::scenario();
    tight.trigger.max_trigger_limit_price = dec("0.50");
    assert_eq!(
        text(preflight(&tight, &position("0", "0"), 0).unwrap_err()),
        "live probe aborted: derived trigger_limit_price 0.53 exceeded trigger.max_trigger_limit_price 0.50"
    );
    let mut vast = self::scenario();
    vast.trigger.shares = dec("1000000000000000000000000000");
    assert_eq!(
        text(preflight(&vast, &position("0", "0"), 0).unwrap_err()),
        "live probe aborted: some number is too large to reckon with"
    );
    let mut live = live_market();
    live.minimum_tick_size = "0.001".to_string();
    live.neg_risk = true;
    let refused = ensure_live_market_matches_scenario(&scenario.market, &live).unwrap_err();
    assert_eq!(
        refused.message(&scenario.market, Some(&live)),
        "live probe aborted: discovery metadata disagreed with scenario for 0xabc: tick_size mismatch: scenario=0.01, discovery=0.001; neg_risk mismatch: scenario=false, discovery=true"
    );
}

#[test]
fn triggers_are_bought_and_tracked() {
    let scenario = scenario();
    let plan = preflight(&scenario, &position("0", "0"), 0).expect("a plan");
    let request = trigger_request(&scenario, &plan).expect("a bid");
    assert_eq!(request.side, Side::Buy);
    assert_eq!(request.size, dec("5"));
    let outcome = acquired();
    assert_eq!(outcome.summary.order_id.as_deref(), Some("order-1"));
    assert!(outcome.tracked_order.is_some());
    let mut ask = self::scenario();
    ask.trigger.leg = QuoteLeg::NoAsk;
    assert!(matches!(
        trigger_request(&ask, &plan),
        Err(PreflightError::UnsupportedLeg(QuoteLeg::NoAsk))
    ));
    let refused =
        acquire_trigger_position(&scenario, &plan, Err("no funds".to_string()), "trace-1", NOW);
    assert!(!refused.summary.success);
    assert!(refused.tracked_order.is_none());
    assert!(refused.summary.failure_reason.unwrap().contains("no funds"));
    let binding = build_scoped_trigger_binding(&scenario, "order-1");
    assert_eq!(binding.asset_id, "1");
    assert_eq!(binding.outcome, "YES");
}

#[test]
fn a_trade_on_the_stream_completes_the_trigger() {
    let report = seen("5", &["trade-1"]);
    assert!(!needs_lookup(&report, dec("5")));
    let outcome = finalize_trigger_acquisition(acquired(), &report, &None, &None, &None);
    assert!(outcome.summary.success);
    assert!(outcome.summary.ws_trade_observed);
    assert_eq!(outcome.summary.resolved_trade_shares, dec("5"));
    assert!(outcome.summary.failure_code.is_none());
}

#[test]
fn a_trigger_without_a_trade_fails() {
    let report = seen("0", &[]);
    assert!(needs_lookup(&report, dec("5")));
    let outcome = finalize_trigger_acquisition(
        acquired(),
        &report,
        &None,
        &nothing_found(),
        &nothing_found(),
    );
    assert!(!outcome.summary.success);
    assert!(!outcome.summary.ws_trade_observed);
    assert!(outcome.summary.failure_code.is_some());
}

#[test]
fn the_stream_is_watched_longer_after_an_ambiguous_trigger() {
    let options = LiveProbeRuntimeOptions::new_for_tests();
    let first = watch_trigger(TriggerWatch::Placed, &acquired(), &seen("0", &[]), &options);
    assert_eq!(first, Some(options.ws_event_timeout_ms));
    let done = watch_trigger(
        TriggerWatch::Watched,
        &acquired(),
        &seen("5", &["trade-1"]),
        &options,
    );
    assert_eq!(done, None);
    let last = watch_trigger(TriggerWatch::Extended, &acquired(), &seen("0", &[]), &options);
    assert_eq!(last, None);
}

#[test]
fn a_clean_account_is_looked_at_again() {
    let scenario = scenario();
    let baseline = position("0", "0");
    let report = seen("5", &["trade-1"]);
    let trigger = finalize_trigger_acquisition(acquired(), &report, &None, &None, &None).summary;
    let ctx = CleanupContext {
        scenario: &scenario,
        baseline: &baseline,
        baseline_open_orders: 0,
        tolerance: dec("0.01"),
        trigger: &trigger,
    };
    let mut state = start_cleanup(&ctx);
    let step = run_probe_cleanup(
        &ctx,
        &mut state,
        position("0", "0"),
        position("0", "0"),
        0,
        0,
        false,
    );
    assert!(matches!(step, CleanupStep::VerifyStability));
    assert!(verify_cleanup_stability_after_candidate_clean(
        &ctx,
        &mut state,
        position("0", "0"),
        position("0", "0"),
        0,
        0,
        2,
    )
    .is_none());
}

#[test]
fn pairs_are_merged_and_the_rest_is_sold() {
    let scenario = scenario();
    let baseline = position("0", "0");
    let report = seen("5", &["trade-1"]);
    let trigger = finalize_trigger_acquisition(acquired(), &report, &None, &None, &None).summary;
    let ctx = CleanupContext {
        scenario: &scenario,
        baseline: &baseline,
        baseline_open_orders: 0,
        tolerance: dec("0.01"),
        trigger: &trigger,
    };
    let mut state = start_cleanup(&ctx);
    let held = || position("5", "4");
    let step = run_probe_cleanup(&ctx, &mut state, held(), held(), 0, 0, false);
    match step {
        CleanupStep::Merge(pairs) => assert_eq!(pairs, dec("4")),
        other => panic!("unexpected: {other:?}"),
    }
    let step = merge_done(&ctx, &mut state, Ok(Some("0xhash".to_string())));
    assert!(state.merge_succeeded);
    assert!(matches!(step, CleanupStep::Continue));

    let left = || position("1", "0");
    let step = run_probe_cleanup(&ctx, &mut state, left(), left(), 0, 1, false);
    let (yes, no) = match step {
        CleanupStep::EstimateFlatten(yes, no) => (yes, no),
        other => panic!("unexpected: {other:?}"),
    };
    assert_eq!(yes, dec("1"));
    assert_eq!(no, dec("0"));
    match flatten_estimated(&ctx, &state, yes, no, Ok(dec("0.5"))) {
        CleanupStep::PlaceFlatten(y, n, notional) => {
            assert_eq!((y, n, notional), (dec("1"), dec("0"), dec("0.5")));
        }
        other => panic!("unexpected: {other:?}"),
    }
    let request = place_flatten_order("1", yes, &scenario.market);
    assert_eq!(request.side, Side::Sell);
    assert_eq!(request.price, dec("0.01"));
    flatten_placed(&mut state, Outcome::Yes, dec("0.5"), Ok(()));
    flatten_done(&mut state, dec("0.5"));
    assert_eq!(state.flatten_orders_placed, 1);
    assert_eq!(state.cleanup_notional_usdc, dec("0.5"));
    assert_eq!(cleanup_success_status(true, 1), Some(CleanupStatus::Flattened));
    assert_eq!(cleanup_success_status(true, 0), Some(CleanupStatus::Merged));
    assert_eq!(cleanup_success_status(false, 0), None);
    assert!(ExpectedCleanupStatus::MergedOrFlattened.matches(CleanupStatus::Merged));
}

fn observed() -> ObservedHedgeOutcome {
    ObservedHedgeOutcome {
        result_status: Some("success".to_string()),
        hedge_side: Some(Side::Buy),
        post_sync_net_exposure: Some(dec("-0.2")),
        planned_hedge_shares: Some(dec("5")),
        planned_sellback_shares: Some(dec("0")),
        ..empty_observed_outcome()
    }
}

#[test]
fn a_probe_that_does_as_expected_passes() {
    let scenario = scenario();
    let plan = preflight(&scenario, &position("0", "0"), 0).expect("a plan");
    let report = seen("5", &["trade-1"]);
    let trigger = finalize_trigger_acquisition(acquired(), &report, &None, &None, &None).summary;
    let envelope = |name: &str, priority| EventEnvelope {
        event_type: name.to_string(),
        source_component: "engine".to_string(),
        priority,
        payload: Json::Null,
    };
    let events = collect_critical_events(&vec![
        envelope("tick", Priority::Normal),
        envelope("hedge_completed", Priority::Critical),
    ]);
    assert_eq!(events.len(), 1);
    let verdict = judge_probe(
        &scenario.expected,
        &scenario.safety,
        &plan,
        &observed(),
        &trigger,
        &report,
        &events,
    );
    assert_eq!(verdict.standard_mismatches, Vec::<String>::new());
    assert_eq!(verdict.meta_failures, Vec::<String>::new());
    assert!(verdict.passed);

    let exposed = ObservedHedgeOutcome {
        post_sync_net_exposure: Some(dec("-0.7")),
        ..observed()
    };
    let verdict = judge_probe(
        &scenario.expected,
        &scenario.safety,
        &plan,
        &exposed,
        &trigger,
        &report,
        &events,
    );
    assert!(!verdict.standard_pass);
    assert!(verdict.meta_pass);
}

#[test]
fn a_probe_is_reported_line_by_line() {
    let scenario = scenario();
    let plan = preflight(&scenario, &position("0", "0"), 0).expect("a plan");
    let banner = warning_banner_lines(&scenario, &plan, true);
    assert_eq!(banner.len(), 6);
    assert_eq!(banner[2], "question: <unknown>");
    assert!(banner[3].starts_with("trigger: leg=YesBid shares=5 best_ask=0.52 limit="));

    let report = seen("5", &["trade-1"]);
    let trigger = finalize_trigger_acquisition(acquired(), &report, &None, &None, &None).summary;
    let baseline = position("0", "0");
    let ctx = CleanupContext {
        scenario: &scenario,
        baseline: &baseline,
        baseline_open_orders: 0,
        tolerance: dec("0.01"),
        trigger: &trigger,
    };
    let state = start_cleanup(&ctx);
    let cleanup = spreadeater::runtime::hedge_live_probe::cleanup::cleanup_exhausted(&state);
    let verdict = judge_probe(
        &scenario.expected,
        &scenario.safety,
        &plan,
        &empty_observed_outcome(),
        &trigger,
        &report,
        &Vec::new(),
    );
    let lines = probe_report_lines(&HedgeLiveProbeResult {
        scenario_name: "probe".to_string(),
        expected_success: true,
        halted: false,
        verdict,
        observed: observed(),
        critical_events: Vec::new(),
        preflight: plan,
        trigger,
        cleanup,
    });
    assert_eq!(lines[0], "=== Hedge Live Probe: probe ===");
    assert_eq!(lines[1], "Overall result: FAIL");
    assert!(lines[5].contains("order_id=Some(\"order-1\") "));
    assert!(lines[5].contains("trade_ids=[\"trade-1\"] "));
    assert!(lines
        .iter()
        .any(|line| line.ends_with("post_sync_net_exposure=Some(-0.2)")));
    assert!(lines.contains(&"Standard mismatches:".to_string()));
}
