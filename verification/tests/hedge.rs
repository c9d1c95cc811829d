use spreadeater::decimal::Decimal;
use spreadeater::models::{
    LiveOrder, OrderResult, OrderStatus, OrderType, Outcome, PriceLevel, QuoteLeg, Side,
};
use spreadeater::time::Timestamp;
use spreadeater::trading::client::CancelOrderOutcome;
use spreadeater::trading::hedge_executor::{
    classify_buy_hedge_verification, compute_hedge_resolution, hedge_lookup_status_label,
    normalize_share_size, plan_fill_resolution, sell_hedge_limit_price,
    try_compute_hedge_resolution, try_plan_fill_resolution, BuyFollowUp, HedgeAction,
    HedgeExecutor, HedgeIntent, HedgeVerificationMetadata, HedgeVerificationState,
};

fn dec(text: &str) -> Decimal {
    Decimal::parse(text).expect("a decimal")
}

fn sample_live_order(size_matched: Decimal) -> LiveOrder {
    LiveOrder {
        id: "order".to_string(),
        condition_id: "market".to_string(),
        asset_id: "asset".to_string(),
        side: Side::Buy,
        price: dec("0.99"),
        original_size: dec("10"),
        size_matched,
        outcome: Outcome::Yes,
        order_type: OrderType::GTC,
        status: OrderStatus::Live,
        created_at: Timestamp {
            secs: 1_774_742_400,
            nanos: 0,
        },
        associated_trade_ids: Vec::new(),
    }
}

#[test]
fn classify_buy_hedge_verification_marks_positive_fill_as_verified() {
    assert_eq!(
        classify_buy_hedge_verification(Some(&sample_live_order(dec("1.25")))),
        HedgeVerificationState::VerifiedFilled
    );
}

#[test]
fn classify_buy_hedge_verification_marks_zero_fill_as_unfilled() {
    assert_eq!(
        classify_buy_hedge_verification(Some(&sample_live_order(Decimal::zero()))),
        HedgeVerificationState::VerifiedZeroFill
    );
}

#[test]
fn classify_buy_hedge_verification_marks_missing_lookup_as_unknown() {
    assert_eq!(
        classify_buy_hedge_verification(None),
        HedgeVerificationState::Unknown
    );
}

#[test]
fn hedge_verification_metadata_captures_trade_ids() {
    let metadata = HedgeVerificationMetadata::with_trade_ids(Some(&OrderResult {
        order_id: "hedge-order".to_string(),
        status: OrderStatus::Matched,
        trade_ids: vec!["trade-1".to_string(), "trade-2".to_string()],
        transaction_hashes: Vec::new(),
        taking_amount: None,
    }));

    assert_eq!(
        metadata.trade_ids,
        vec!["trade-1".to_string(), "trade-2".to_string()]
    );
}

#[test]
fn hedge_lookup_status_label_maps_delayed_to_live() {
    assert_eq!(hedge_lookup_status_label(OrderStatus::Delayed), "live");
    assert_eq!(hedge_lookup_status_label(OrderStatus::Matched), "matched");
    assert_eq!(
        hedge_lookup_status_label(OrderStatus::Cancelled),
        "cancelled"
    );
}

#[test]
fn normalize_share_size_truncates_toward_zero() {
    assert_eq!(normalize_share_size(dec("176.959")), dec("176.95"));
    assert_eq!(normalize_share_size(dec("-176.959")), dec("-176.95"));
}

fn pl(price: Decimal, size: Decimal) -> PriceLevel {
    PriceLevel { price, size }
}

fn tick() -> Decimal {
    dec("0.01")
}

/// Perfect hedge: fill_price + hedge_ask = $1.00 -> all shares hedge, zero cost.
#[test]
fn resolution_perfect_hedge_all_shares_hedge() {
    let asks = vec![pl(dec("0.26"), dec("400"))];
    let bids = vec![pl(dec("0.73"), dec("400"))];
    let res = compute_hedge_resolution(dec("0.74"), &asks, &bids, dec("373"), tick());
    assert_eq!(res.hedge_shares, dec("373"));
    assert_eq!(res.sellback_shares, Decimal::zero());
    assert_eq!(res.hedge_limit_price, dec("0.27")); // 0.26 + 0.01 tick
}

/// Hedge cheaper than sell-back across all depth -> all shares hedge.
#[test]
fn resolution_hedge_cheaper_all_shares_hedge() {
    // hedge cost = 0.74 + 0.25 - 1.00 = -0.01 (profit!)
    // sellback cost = 0.74 - 0.70 = 0.04
    let asks = vec![pl(dec("0.25"), dec("500"))];
    let bids = vec![pl(dec("0.70"), dec("500"))];
    let res = compute_hedge_resolution(dec("0.74"), &asks, &bids, dec("100"), tick());
    assert_eq!(res.hedge_shares, dec("100"));
    assert_eq!(res.sellback_shares, Decimal::zero());
}

/// Sell-back cheaper -> all shares sell back.
#[test]
fn resolution_sellback_cheaper_all_shares_sellback() {
    // hedge cost = 0.74 + 0.40 - 1.00 = 0.14
    // sellback cost = 0.74 - 0.73 = 0.01
    let asks = vec![pl(dec("0.40"), dec("500"))];
    let bids = vec![pl(dec("0.73"), dec("500"))];
    let res = compute_hedge_resolution(dec("0.74"), &asks, &bids, dec("100"), tick());
    assert_eq!(res.hedge_shares, Decimal::zero());
    assert_eq!(res.sellback_shares, dec("100"));
    assert_eq!(res.sellback_limit_price, dec("0.73"));
}

/// Mixed: cheap hedge depth exhausted, then sell-back cheaper -> split.
#[test]
fn resolution_mixed_split() {
    // Level 1: hedge @ 0.26 -> cost = 0.00. sellback @ 0.73 -> cost = 0.01. Hedge wins.
    // Level 2: hedge @ 0.30 -> cost = 0.04. sellback @ 0.73 -> cost = 0.01. Sellback wins.
    let asks = vec![pl(dec("0.26"), dec("200")), pl(dec("0.30"), dec("200"))];
    let bids = vec![pl(dec("0.73"), dec("500"))];
    let res = compute_hedge_resolution(dec("0.74"), &asks, &bids, dec("373"), tick());
    assert_eq!(res.hedge_shares, dec("200"));
    assert_eq!(res.sellback_shares, dec("173"));
    assert_eq!(res.hedge_limit_price, dec("0.27")); // worst ask 0.26 + tick
    assert_eq!(res.sellback_limit_price, dec("0.73"));
}

/// Tie goes to sell-back so capital is reclaimed immediately.
#[test]
fn resolution_tie_prefers_sellback() {
    // hedge cost = 0.74 + 0.27 - 1.00 = 0.01
    // sellback cost = 0.74 - 0.73 = 0.01
    let asks = vec![pl(dec("0.27"), dec("500"))];
    let bids = vec![pl(dec("0.73"), dec("500"))];
    let res = compute_hedge_resolution(dec("0.74"), &asks, &bids, dec("100"), tick());
    assert_eq!(res.hedge_shares, Decimal::zero());
    assert_eq!(res.sellback_shares, dec("100"));
}

/// Empty opposite book -> all shares sell back.
#[test]
fn resolution_empty_hedge_book_all_sellback() {
    let asks: Vec<PriceLevel> = vec![];
    let bids = vec![pl(dec("0.73"), dec("500"))];
    let res = compute_hedge_resolution(dec("0.74"), &asks, &bids, dec("100"), tick());
    assert_eq!(res.hedge_shares, Decimal::zero());
    assert_eq!(res.sellback_shares, dec("100"));
}

/// Empty sell-back book -> all shares hedge.
#[test]
fn resolution_empty_sellback_book_all_hedge() {
    let asks = vec![pl(dec("0.26"), dec("500"))];
    let bids: Vec<PriceLevel> = vec![];
    let res = compute_hedge_resolution(dec("0.74"), &asks, &bids, dec("100"), tick());
    assert_eq!(res.hedge_shares, dec("100"));
    assert_eq!(res.sellback_shares, Decimal::zero());
}

/// Both books empty -> zero resolution (remaining escalates to kill_market).
#[test]
fn resolution_both_books_empty() {
    let asks: Vec<PriceLevel> = vec![];
    let bids: Vec<PriceLevel> = vec![];
    let res = compute_hedge_resolution(dec("0.74"), &asks, &bids, dec("100"), tick());
    assert_eq!(res.hedge_shares, Decimal::zero());
    assert_eq!(res.sellback_shares, Decimal::zero());
}

/// Incident replay: 373 @ 0.74, thin book, split decision.
#[test]
fn resolution_incident_replay() {
    let asks = vec![
        pl(dec("0.26"), dec("200")),
        pl(dec("0.27"), dec("150")),
        pl(dec("0.30"), dec("100")),
    ];
    let bids = vec![pl(dec("0.73"), dec("300")), pl(dec("0.72"), dec("200"))];
    let res = compute_hedge_resolution(dec("0.74"), &asks, &bids, dec("373"), tick());
    // 200 @ 0.26 (cost 0.00 vs 0.01) -> hedge
    // Remaining 173 @ 0.27 / 0.73 (cost 0.01 vs 0.01) -> sellback (tie)
    assert_eq!(res.hedge_shares, dec("200"));
    assert_eq!(res.sellback_shares, dec("173"));
    assert_eq!(res.hedge_limit_price, dec("0.27")); // 0.26 + tick
    assert_eq!(res.sellback_limit_price, dec("0.73"));
}

// -- budget-aware planner tests ------------------------------------

/// Budget pressure reroutes hedge overflow into sell-back at live bid depth.
#[test]
fn resolution_budget_constrained_routes_excess_to_sellback() {
    let asks = vec![pl(dec("0.26"), dec("400"))];
    let bids = vec![pl(dec("0.73"), dec("500"))];

    let res = plan_fill_resolution(dec("0.74"), &asks, &bids, dec("373"), dec("50"), tick());

    // Limit price is 0.27, so the affordable hedge size is floor(50 / 0.27) = 185.
    assert_eq!(res.hedge_shares, dec("185"));
    assert_eq!(res.hedge_limit_price, dec("0.27"));
    assert_eq!(res.sellback_shares, dec("188"));
    assert_eq!(res.sellback_limit_price, dec("0.73"));
    assert_eq!(res.unresolved_shares, Decimal::zero());
}

/// Budget is applied against the final hedge limit price, not raw ask prices.
#[test]
fn resolution_budget_constrained_across_multiple_hedge_levels() {
    let asks = vec![pl(dec("0.26"), dec("200")), pl(dec("0.27"), dec("200"))];
    let bids = vec![pl(dec("0.73"), dec("500"))];

    let res = plan_fill_resolution(dec("0.74"), &asks, &bids, dec("373"), dec("80"), tick());

    // Equality at the second hedge level now routes remaining shares to sell-back.
    assert_eq!(res.hedge_shares, dec("200"));
    assert_eq!(res.hedge_limit_price, dec("0.27"));
    assert_eq!(res.sellback_shares, dec("173"));
    assert_eq!(res.sellback_limit_price, dec("0.73"));
    assert_eq!(res.unresolved_shares, Decimal::zero());
}

/// Zero budget still produces a valid sell-back-only plan.
#[test]
fn resolution_sellback_only_is_valid_when_budget_is_zero() {
    let asks = vec![pl(dec("0.26"), dec("500"))];
    let bids = vec![pl(dec("0.73"), dec("500"))];

    let res = plan_fill_resolution(dec("0.74"), &asks, &bids, dec("100"), Decimal::zero(), tick());

    assert_eq!(res.hedge_shares, Decimal::zero());
    assert_eq!(res.hedge_limit_price, Decimal::zero());
    assert_eq!(res.sellback_shares, dec("100"));
    assert_eq!(res.sellback_limit_price, dec("0.73"));
    assert_eq!(res.unresolved_shares, Decimal::zero());
}

/// When neither budget nor sell-back depth can absorb the full fill, the residual stays explicit.
#[test]
fn resolution_budget_constrained_leaves_unresolved_without_sellback_depth() {
    let asks = vec![pl(dec("0.26"), dec("500"))];
    let bids: Vec<PriceLevel> = vec![];

    let res = plan_fill_resolution(dec("0.74"), &asks, &bids, dec("373"), dec("50"), tick());

    assert_eq!(res.hedge_shares, dec("185"));
    assert_eq!(res.hedge_limit_price, dec("0.27"));
    assert_eq!(res.sellback_shares, Decimal::zero());
    assert_eq!(res.sellback_limit_price, Decimal::zero());
    assert_eq!(res.unresolved_shares, dec("188"));
}

#[test]
fn sell_hedge_limit_price_remains_legacy_any_price_exit() {
    assert_eq!(sell_hedge_limit_price(), dec("0.01"));
}

#[test]
fn resolved_and_unresolved_shares_make_up_the_fill() {
    let asks = vec![pl(dec("0.26"), dec("12.5")), pl(dec("0.31"), dec("7.25"))];
    let bids = vec![pl(dec("0.73"), dec("3.1")), pl(dec("0.60"), dec("2"))];
    let res = plan_fill_resolution(dec("0.74"), &asks, &bids, dec("30"), dec("5"), tick());
    let resolved = [res.hedge_shares, res.sellback_shares, res.unresolved_shares];
    // 12.5 * 0.27 = 3.375 is within the budget; the second level, at 0.32, is not worth its
    // price while bids are left, and then only as far as 5 USDC reach.
    assert_eq!(resolved[1], dec("5.1"));
    assert_eq!(resolved[0], dec("15"));
    assert_eq!(resolved[2], dec("9.9"));
}

#[test]
fn plans_fail_only_where_a_number_is_too_large() {
    let largest = "79228162514264337593543950335";
    let asks = vec![pl(dec("0.26"), dec("400"))];
    let bids = vec![pl(dec("0.73"), dec("500"))];
    let tried = try_plan_fill_resolution(dec("0.74"), &asks, &bids, dec("373"), dec("50"), tick())
        .expect("in range");
    assert_eq!(tried.hedge_shares, dec("185"));
    let free = try_compute_hedge_resolution(dec("0.74"), &asks, &bids, dec("373"), tick())
        .expect("in range");
    assert_eq!(free.hedge_shares, dec("373"));

    // A budget and a size far beyond any account, but within the range of decimals
    let much = try_plan_fill_resolution(
        dec("0.74"),
        &asks,
        &bids,
        dec("100000000000000000000000000"),
        dec("10000000000000000000000000"),
        tick(),
    )
    .expect("in range");
    assert_eq!(much.hedge_shares, dec("400"));
    assert_eq!(much.sellback_shares, dec("500"));
    assert_eq!(much.unresolved_shares, dec("99999999999999999999999100"));

    let too_many = dec("1000000000000000000000000000");
    assert!(try_compute_hedge_resolution(dec("0.74"), &asks, &bids, too_many, tick()).is_none());
    let dear = vec![pl(dec(largest), dec("1"))];
    assert!(try_compute_hedge_resolution(dec("0.74"), &dear, &bids, dec("1"), tick()).is_none());
    // Too many shares for the budget: the limit price is tiny
    let cheap = vec![pl(Decimal::zero(), dec("1"))];
    let grain = dec("0.0000000000000000000000000001");
    let none: Vec<PriceLevel> = vec![];
    assert!(
        try_plan_fill_resolution(dec("0.74"), &cheap, &none, dec("1"), dec("50"), grain).is_none()
    );
}

#[test]
fn no_other_split_is_cheaper() {
    let asks = vec![
        pl(dec("0.22"), dec("30")),
        pl(dec("0.26"), dec("20")),
        pl(dec("0.31"), dec("40")),
    ];
    let bids = vec![
        pl(dec("0.76"), dec("10")),
        pl(dec("0.73"), dec("25")),
        pl(dec("0.68"), dec("60")),
    ];
    let number = |d: Decimal| d.to_text().parse::<rust_decimal::Decimal>().expect("a number");
    let worth = |levels: &Vec<PriceLevel>, shares: i64| {
        let mut left = rust_decimal::Decimal::from(shares);
        let mut sum = rust_decimal::Decimal::ZERO;
        for level in levels {
            let take = left.min(number(level.size));
            sum += take * number(level.price);
            left -= take;
        }
        sum
    };
    let cost = |hedged: i64, sold: i64| {
        worth(&asks, hedged) - rust_decimal::Decimal::from(hedged) - worth(&bids, sold)
    };
    for total in [1i64, 10, 35, 60, 90, 120] {
        let size = dec(&total.to_string());
        let plan = compute_hedge_resolution(dec("0.74"), &asks, &bids, size, tick());
        let hedged: i64 = plan.hedge_shares.to_text().parse().expect("whole");
        let sold: i64 = plan.sellback_shares.to_text().parse().expect("whole");
        assert_eq!(hedged + sold, total);
        for other in 0..=total.min(90) {
            if total - other <= 95 {
                assert!(cost(hedged, sold) <= cost(other, total - other));
            }
        }
    }
}

#[test]
fn what_the_budget_does_not_pay_for_is_sold_back() {
    // 5 USDC pay for 18 shares at 0.27; the rest goes to the bids, and what they do not take stays.
    let asks = vec![pl(dec("0.26"), dec("100"))];
    let bids = vec![pl(dec("0.70"), dec("8")), pl(dec("0.60"), dec("2"))];
    let res = plan_fill_resolution(dec("0.74"), &asks, &bids, dec("30"), dec("5"), tick());
    assert_eq!(res.hedge_shares, dec("18"));
    assert_eq!(res.sellback_shares, dec("10"));
    assert_eq!(res.sellback_limit_price, dec("0.60"));
    assert_eq!(res.unresolved_shares, dec("2"));
}

#[test]
fn hedges_cost_no_more_than_the_budget() {
    let asks = vec![pl(dec("0.26"), dec("400"))];
    let none: Vec<PriceLevel> = vec![];
    // 0.81 buys exactly three at 0.27; a hair less buys two.
    let exact = plan_fill_resolution(dec("0.74"), &asks, &none, dec("10"), dec("0.81"), tick());
    assert_eq!(exact.hedge_shares, dec("3"));
    let less = plan_fill_resolution(dec("0.74"), &asks, &none, dec("10"), dec("0.8099"), tick());
    assert_eq!(less.hedge_shares, dec("2"));
}

#[test]
fn hedges_are_on_the_other_token() {
    assert_eq!(
        HedgeExecutor::compute_hedge_params(QuoteLeg::YesBid, "yes", "no"),
        ("no".to_string(), Side::Buy)
    );
    assert_eq!(
        HedgeExecutor::compute_hedge_params(QuoteLeg::NoAsk, "yes", "no"),
        ("yes".to_string(), Side::Sell)
    );
}

#[test]
fn cancel_outcomes_compare_by_reason() {
    assert_ne!(
        CancelOrderOutcome::Rejected("a".to_string()),
        CancelOrderOutcome::Rejected("b".to_string())
    );
}

fn intent(side: Side, size: &str) -> HedgeIntent {
    HedgeIntent {
        condition_id: "market".to_string(),
        trigger_order_id: "order".to_string(),
        trigger_leg: QuoteLeg::YesBid,
        fill_size: dec(size),
        fill_price: dec("0.45"),
        hedge_token_id: "no".to_string(),
        hedge_side: side,
        neg_risk: false,
        tick_size: "0.01".to_string(),
    }
}

fn placed(order_id: &str) -> OrderResult {
    OrderResult {
        order_id: order_id.to_string(),
        status: OrderStatus::Live,
        trade_ids: vec!["trade-1".to_string()],
        transaction_hashes: Vec::new(),
        taking_amount: None,
    }
}

#[test]
fn hedges_are_bought_at_any_price_without_a_plan() {
    match HedgeExecutor::execute_hedge(&intent(Side::Buy, "7.129"), None) {
        HedgeAction::PlaceBuy(request) => {
            assert_eq!(request.price, dec("0.99"));
            assert_eq!(request.size, dec("7.12"));
            assert_eq!(request.order_type, OrderType::GTC);
        }
        other => panic!("unexpected: {other:?}"),
    }
    match HedgeExecutor::execute_hedge(&intent(Side::Sell, "7"), None) {
        HedgeAction::PlaceSell(request) => assert_eq!(request.order_type, OrderType::FOK),
        other => panic!("unexpected: {other:?}"),
    }
    match HedgeExecutor::execute_hedge(&intent(Side::Buy, "0.004"), None) {
        HedgeAction::Finish(result) => {
            assert!(!result.success);
            assert_eq!(
                result.failure_reason.as_deref(),
                Some("Hedge size rounded to zero")
            );
        }
        other => panic!("unexpected: {other:?}"),
    }
}

#[test]
fn a_bought_hedge_is_cancelled_and_looked_up() {
    let intent = intent(Side::Buy, "7");
    assert!(matches!(
        HedgeExecutor::buy_placed(&intent, dec("0.99"), Ok(placed("hedge"))),
        BuyFollowUp::CancelAndLookUp(_)
    ));
    match HedgeExecutor::buy_placed(&intent, dec("0.99"), Err("no funds".to_string())) {
        BuyFollowUp::Finish(result) => assert_eq!(
            result.failure_reason.as_deref(),
            Some("Order placement failed: no funds")
        ),
        other => panic!("unexpected: {other:?}"),
    }
    let finish = |lookup| {
        HedgeExecutor::execute_buy_gtc_cancel(
            &intent,
            dec("0.99"),
            placed("hedge"),
            Ok(CancelOrderOutcome::Confirmed),
            lookup,
        )
    };
    let filled = finish(Ok(Some(sample_live_order(dec("7")))));
    assert!(filled.success);
    assert_eq!(filled.verification_metadata.lookup_matched_shares, Some(dec("7")));
    assert_eq!(
        filled.verification_metadata.cancel_status.as_deref(),
        Some("confirmed")
    );
    let empty = finish(Ok(Some(sample_live_order(dec("0")))));
    assert!(!empty.success);
    let unknown = finish(Err("timeout".to_string()));
    assert!(unknown.success);
    assert_eq!(unknown.verification_state, HedgeVerificationState::Unknown);
    assert!(unknown
        .verification_metadata
        .lookup_error
        .unwrap()
        .contains("timeout"));
}

#[test]
fn a_sold_hedge_is_filled_or_fails() {
    let intent = intent(Side::Sell, "7");
    assert!(HedgeExecutor::execute_fok_sell(&intent, Ok(placed("hedge"))).success);
    let failed = HedgeExecutor::execute_fok_sell(&intent, Err("closed".to_string()));
    assert!(!failed.success);
    assert_eq!(failed.hedge_price, Some(dec("0.01")));
}
