use spreadeater::decimal::Decimal;
use spreadeater::json::Json;
use spreadeater::runtime::hedge_live_probe::trigger::{merge_trade_ids, parse_lookup_order_status};
use spreadeater::runtime::hedge_live_probe::verdict::{fetch_position, ProbeRawPosition};
use spreadeater::runtime::hedge_live_probe::{
    build_canonical_market, ensure_live_probe_armed, validate_token_id_uint256_str,
    LiveProbeMarket,
};
use spreadeater::time::Timestamp;

fn dec(text: &str) -> Decimal {
    Decimal::parse(text).expect("a decimal")
}

fn text(s: &str) -> Json {
    Json::String(s.to_string())
}

fn raw(size: Json, avg_price: Json) -> Json {
    Json::Object(vec![
        ("conditionId".to_string(), text("condition-1")),
        ("size".to_string(), size),
        ("avgPrice".to_string(), avg_price),
        ("outcome".to_string(), text("YES")),
    ])
}

#[test]
fn probe_raw_position_accepts_decimal_strings_and_numbers() {
    let from_string = ProbeRawPosition::from_json(&raw(text("5.25"), text("0.68")))
        .expect("string decimals should parse");
    let from_number = ProbeRawPosition::from_json(&raw(
        Json::Number("5.25".to_string()),
        Json::Number("0.68".to_string()),
    ))
    .expect("numeric decimals should parse");

    assert_eq!(from_string.size, Some(dec("5.25")));
    assert_eq!(from_string.avg_price, Some(dec("0.68")));
    assert_eq!(from_number.size, Some(dec("5.25")));
    assert_eq!(from_number.avg_price, Some(dec("0.68")));
}

#[test]
fn probe_raw_position_rejects_invalid_decimal_values() {
    let parsed = ProbeRawPosition::from_json(&raw(text("not-a-decimal"), text("0.68")));
    assert!(parsed.is_err());
}

#[test]
fn the_last_report_of_a_side_counts() {
    let first = ProbeRawPosition::from_json(&raw(text("5.25"), text("0.68"))).unwrap();
    let second = ProbeRawPosition::from_json(&raw(text("7"), text("0.70"))).unwrap();
    let position = fetch_position(&vec![first, second], "condition-1");
    assert_eq!(position.yes_size, dec("7"));
    assert_eq!(position.avg_yes_price, dec("0.7"));
    assert_eq!(position.no_size, dec("0"));
}

#[test]
fn a_probe_market_is_admitted_without_rewards() {
    let market = LiveProbeMarket {
        condition_id: "0xabc".to_string(),
        question: None,
        yes_token_id: "1".to_string(),
        no_token_id: "2".to_string(),
        tick_size: "0.01".to_string(),
        neg_risk: true,
    };
    let now = Timestamp { secs: 7, nanos: 5 };
    let canonical = build_canonical_market(&market, now);
    assert_eq!(canonical.market_slug, "0xabc-live-probe");
    assert_eq!(canonical.question, "Live probe market 0xabc");
    assert_eq!(canonical.reward_config.max_spread, dec("0"));
    assert!(canonical.neg_risk);
}

#[test]
fn token_ids_are_decimal_numbers_of_256_bits() {
    assert!(validate_token_id_uint256_str("0"));
    let largest =
        "115792089237316195423570985008687907853269984665640564039457584007913129639935";
    assert!(validate_token_id_uint256_str(largest));
    let too_large =
        "115792089237316195423570985008687907853269984665640564039457584007913129639936";
    assert!(!validate_token_id_uint256_str(too_large));
    assert!(!validate_token_id_uint256_str("12x"));
}

#[test]
fn a_probe_runs_only_when_armed() {
    assert!(ensure_live_probe_armed("I_UNDERSTAND_REAL_ORDERS").is_ok());
    assert!(ensure_live_probe_armed("yes")
        .unwrap_err()
        .starts_with("SPREADEATER_HEDGE_LIVE_PROBE_ARM must be set"));
}

#[test]
fn trade_ids_are_merged_once_each() {
    let mut ids = vec!["a".to_string(), "b".to_string()];
    merge_trade_ids(&mut ids, &vec!["b".to_string(), "c".to_string()]);
    assert_eq!(ids.len(), 3);
    assert!(parse_lookup_order_status("no such status").is_none());
}
