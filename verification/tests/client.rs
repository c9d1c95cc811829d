use serde_json::Value;
use spreadeater::decimal::Decimal;
use spreadeater::json::Json;
use spreadeater::models::events::{TradeStatus, UserEvent};
use spreadeater::models::{
    LiveOrder, OrderAmountKind, OrderRequest, OrderStatus, OrderType, Outcome, Side,
};
use spreadeater::time::{
    parse_rfc3339, parse_secs, Timestamp, MAX_CALENDAR_SECS, MIN_CALENDAR_SECS,
};
use spreadeater::trading::client::{
    balance_in, cancel_body, cancel_market_orders_body, fallback_cancel_outcome_from_lookup,
    fee_rate_in, order_result_of,
    parse_cancel_order_response, parse_order_response, parse_raw_order, parse_raw_order_at,
    scoring_status, validate_order_request, CancelOrderOutcome, OpenOrderPages, PlaceStep,
    RawOrder, RawOrderResponse, TradingClient,
};
use spreadeater::trading::trade_parser::{
    build_trade_event, build_trade_event_at, parse_trade_status, TradeEventInput,
};
use spreadeater::trading::user_stream::{
    build_user_ws_auth_message, parse_user_message_at, user_ws_text_is_pong, ApiCredentials,
    Backoff, Frame, RawUserMessage, StreamEnd, UserSession,
};

fn dec(text: &str) -> Decimal {
    Decimal::parse(text).expect("a decimal")
}

fn text(s: &str) -> Option<String> {
    Some(s.to_string())
}

fn json_text(s: &str) -> Json {
    Json::String(s.to_string())
}

fn object(fields: Vec<(&str, Json)>) -> Json {
    Json::Object(
        fields
            .into_iter()
            .map(|(name, value)| (name.to_string(), value))
            .collect(),
    )
}

fn sample_request(
    side: Side,
    order_type: OrderType,
    amount_kind: OrderAmountKind,
) -> OrderRequest {
    OrderRequest {
        token_id: "token".to_string(),
        price: dec("0.39"),
        size: dec("176.95"),
        amount_kind,
        side,
        order_type,
        post_only: false,
        neg_risk: false,
        tick_size: "0.01".to_string(),
    }
}

#[test]
fn rejects_share_sized_buy_market_style_orders() {
    let request = sample_request(Side::Buy, OrderType::FOK, OrderAmountKind::Shares);
    let err = validate_order_request(&request).unwrap_err().message();
    assert!(err.contains("BUY FOK/FAK orders"));
}

#[test]
fn allows_share_sized_buy_limit_orders() {
    let request = sample_request(Side::Buy, OrderType::GTC, OrderAmountKind::Shares);
    assert!(validate_order_request(&request).is_ok());
}

#[test]
fn rejects_usdc_notional_requests_until_explicitly_implemented() {
    let request = sample_request(Side::Buy, OrderType::FOK, OrderAmountKind::UsdcNotional);
    let err = validate_order_request(&request).unwrap_err().message();
    assert!(err.contains("USDC-notional"));
}

#[test]
fn parse_cancel_response_confirms_when_order_id_is_canceled() {
    let body = object(vec![
        ("canceled", Json::Array(vec![json_text("order-1")])),
        ("not_canceled", object(vec![])),
    ]);

    assert_eq!(
        parse_cancel_order_response("order-1", &body),
        Some(CancelOrderOutcome::Confirmed)
    );
}

#[test]
fn parse_cancel_response_rejects_when_order_id_is_not_canceled() {
    let body = object(vec![
        ("canceled", Json::Array(vec![])),
        (
            "not_canceled",
            object(vec![("order-1", json_text("order not found"))]),
        ),
    ]);

    assert_eq!(
        parse_cancel_order_response("order-1", &body),
        Some(CancelOrderOutcome::Rejected("order not found".to_string()))
    );
}

fn at(secs: i64) -> Timestamp {
    Timestamp { secs, nanos: 0 }
}

fn raw_order() -> RawOrder {
    RawOrder {
        id: text("order-associated-trades-1"),
        status: text("matched"),
        market: text("cond-1"),
        asset_id: text("asset-1"),
        side: text("SELL"),
        price: text("0.51"),
        original_size: text("10"),
        size_matched: text("10"),
        outcome: text("YES"),
        order_type: text("FOK"),
        created_at: Some(1_700_000_000_i64),
        associated_trade_ids: Some(vec!["trade-1".to_string(), "trade-2".to_string()]),
    }
}

#[test]
fn parse_raw_order_preserves_associate_trades() {
    let order = parse_raw_order(raw_order()).expect("parse live order");
    assert_eq!(
        order.associated_trade_ids(),
        Some(vec!["trade-1".to_string(), "trade-2".to_string()])
    );
    assert!(order.is_fully_filled());
}

#[test]
fn parse_raw_order_accepts_associated_trade_ids_alias() {
    let raw = RawOrder {
        id: text("order-associated-trades-2"),
        status: text("live"),
        market: text("cond-1"),
        asset_id: text("asset-1"),
        side: text("BUY"),
        price: text("0.49"),
        original_size: text("10"),
        size_matched: text("3"),
        outcome: text("NO"),
        order_type: text("GTC"),
        created_at: Some(1_700_000_001_i64),
        associated_trade_ids: Some(vec!["trade-3".to_string()]),
    };

    let order = parse_raw_order(raw).expect("parse live order");
    assert_eq!(
        order.associated_trade_ids(),
        Some(vec!["trade-3".to_string()])
    );
    assert!(!order.is_fully_filled());
}

#[test]
fn parse_raw_order_maps_delayed_status() {
    let raw = RawOrder {
        id: text("order-delayed-1"),
        status: text("delayed"),
        market: text("cond-1"),
        asset_id: text("asset-1"),
        side: text("SELL"),
        price: text("0.51"),
        original_size: text("10"),
        size_matched: text("0"),
        outcome: text("YES"),
        order_type: text("FOK"),
        created_at: Some(1_700_000_002_i64),
        associated_trade_ids: None,
    };

    let order = parse_raw_order(raw).expect("parse delayed order");
    assert_eq!(order.status, OrderStatus::Delayed);
}

#[test]
fn parse_order_response_treats_null_as_missing_order() {
    let order = parse_order_response(None);

    assert!(order.is_none());
}

#[test]
fn parse_order_response_decodes_live_order_payload() {
    let order = parse_order_response(Some(RawOrder {
        id: text("order-response-1"),
        status: text("matched"),
        market: text("cond-1"),
        asset_id: text("asset-1"),
        side: text("BUY"),
        price: text("0.49"),
        original_size: text("5"),
        size_matched: text("5"),
        outcome: text("YES"),
        order_type: text("GTC"),
        created_at: Some(1_700_000_003_i64),
        associated_trade_ids: None,
    }))
    .expect("order payload should produce a live order");

    assert_eq!(order.id, "order-response-1");
    assert_eq!(order.status, OrderStatus::Matched);
    assert_eq!(order.size_matched, dec("5"));
}

fn live_order(size_matched: &str, status: OrderStatus) -> LiveOrder {
    LiveOrder {
        id: "order-1".to_string(),
        condition_id: "market".to_string(),
        asset_id: "asset".to_string(),
        side: Side::Buy,
        price: dec("0.45"),
        original_size: dec("20"),
        size_matched: dec(size_matched),
        outcome: Outcome::Yes,
        order_type: OrderType::GTC,
        status,
        created_at: at(1_774_742_400),
        associated_trade_ids: Vec::new(),
    }
}

#[test]
fn fallback_cancel_lookup_marks_live_order_as_unknown() {
    let order = live_order("0", OrderStatus::Live);

    assert_eq!(
        fallback_cancel_outcome_from_lookup("order-1", Some(&order)),
        CancelOrderOutcome::Unknown(
            "cancel response ambiguous and order order-1 is still live".to_string()
        )
    );
}

#[test]
fn fallback_cancel_lookup_marks_terminal_order_as_confirmed() {
    let order = live_order("20", OrderStatus::Matched);

    assert_eq!(
        fallback_cancel_outcome_from_lookup("order-1", Some(&order)),
        CancelOrderOutcome::Confirmed
    );
}

fn trade_input(side: &str, status: Option<String>, timestamp: Option<String>) -> TradeEventInput {
    TradeEventInput {
        id: "trade-1".to_string(),
        condition_id: "condition-1".to_string(),
        asset_id: "asset-1".to_string(),
        side: side.to_string(),
        price: "0.42".to_string(),
        size: "7".to_string(),
        outcome: "YES".to_string(),
        status,
        timestamp,
        maker_order_id: text("maker-1"),
        taker_order_id: text("taker-1"),
    }
}

#[test]
fn normalizes_rest_and_ws_style_trade_inputs_to_the_same_event_shape() {
    let at = text("2026-03-29T00:00:00Z");
    let rest = build_trade_event(trade_input("BUY", text("matched"), at.clone()))
        .expect("rest trade should parse");
    let ws = build_trade_event(trade_input("buy", text("MATCHED"), at))
        .expect("ws trade should parse");

    assert_eq!(rest.side, ws.side);
    assert_eq!(rest.status, ws.status);
    assert_eq!(rest.timestamp, ws.timestamp);
    assert_eq!(rest.price, dec("0.42"));
    assert_eq!(rest.size, dec("7"));
}

#[test]
fn rejects_invalid_trade_side() {
    let event = build_trade_event(TradeEventInput {
        maker_order_id: None,
        taker_order_id: None,
        ..trade_input("HOLD", None, None)
    });

    assert!(event.is_none());
}

fn credentials() -> ApiCredentials {
    ApiCredentials {
        api_key: "key".to_string(),
        secret: "secret".to_string(),
        passphrase: "pass".to_string(),
        address: "0xabc".to_string(),
        private_key: None,
        funder: None,
    }
}

#[test]
fn build_user_ws_auth_message_matches_documented_shape() {
    let message = build_user_ws_auth_message(&credentials());
    let payload: Value = serde_json::from_str(&message).expect("auth message should be valid json");

    assert_eq!(payload["type"], "user");
    assert_eq!(payload["auth"]["apiKey"], "key");
    assert_eq!(payload["auth"]["secret"], "secret");
    assert_eq!(payload["auth"]["passphrase"], "pass");
    assert!(payload.get("markets").is_none());
    assert!(payload.get("operation").is_none());
    assert!(payload.get("initial_dump").is_none());
}

#[test]
fn user_ws_text_is_pong_is_case_insensitive() {
    assert!(user_ws_text_is_pong("PONG"));
    assert!(user_ws_text_is_pong("pong"));
    assert!(!user_ws_text_is_pong("PING"));
}

#[test]
fn credentials_are_quoted_in_the_auth_message() {
    let mut credentials = credentials();
    credentials.secret = "a\"b\\c\n".to_string();
    let message = build_user_ws_auth_message(&credentials);
    let payload: Value = serde_json::from_str(&message).expect("valid json");
    assert_eq!(payload["auth"]["secret"], "a\"b\\c\n");
}

#[test]
fn times_are_read_with_their_offset() {
    assert_eq!(
        parse_rfc3339("2026-03-29T02:00:00.5+02:00"),
        Some(Timestamp {
            secs: 1_774_742_400,
            nanos: 500_000_000
        })
    );
    assert_eq!(parse_rfc3339("yesterday"), None);
    let now = Timestamp {
        secs: 9,
        nanos: 0,
    };
    let event = build_trade_event_at(trade_input("SELL", None, text("?")), now).unwrap();
    assert_eq!(event.timestamp, now);
    assert_eq!(event.side, Side::Sell);
}

#[test]
fn statuses_are_read_in_any_case() {
    assert_eq!(parse_trade_status(Some("Mined")), TradeStatus::Mined);
    assert_eq!(parse_trade_status(Some("FAILED")), TradeStatus::Failed);
    assert_eq!(parse_trade_status(None), TradeStatus::Matched);
}

#[test]
fn orders_without_a_price_are_dropped_from_pages() {
    let mut pages = OpenOrderPages::new();
    let broken = RawOrder {
        price: text("cheap"),
        ..raw_order()
    };
    assert!(parse_raw_order_at(broken, at(7)).is_none());
    let undated = RawOrder {
        created_at: None,
        ..raw_order()
    };
    assert_eq!(parse_raw_order_at(undated, at(7)).unwrap().created_at, at(0));
    let read = Timestamp { secs: 7, nanos: 5 };
    let misdated = RawOrder {
        created_at: Some(i64::MAX),
        ..raw_order()
    };
    assert_eq!(parse_raw_order_at(misdated, read).unwrap().created_at, read);
    let broken = RawOrder {
        price: None,
        ..raw_order()
    };
    let more = pages.take_page(vec![raw_order(), broken], text("next"), at(7));
    assert!(more);
    assert!(pages.path(Some("cond-1")).contains("next"));
    assert!(!pages.take_page(vec![], None, at(7)));
    assert_eq!(pages.orders.len(), 1);
}

#[test]
fn a_dry_run_places_and_cancels_nothing() {
    let client = TradingClient::new("https://clob/".to_string(), "key", true);
    assert!(client.is_dry_run());
    let request = sample_request(Side::Buy, OrderType::GTC, OrderAmountKind::Shares);
    match client.place_order(&request) {
        Ok(PlaceStep::DryRun(result)) => assert_eq!(result.status, OrderStatus::Live),
        other => panic!("unexpected: {other:?}"),
    }
    assert_eq!(client.cancel_order(), Some(CancelOrderOutcome::Confirmed));
    let live = TradingClient::new("https://clob".to_string(), "key", false);
    assert!(matches!(live.place_order(&request), Ok(PlaceStep::Submit)));
    assert_eq!(live.cancel_order(), None);
    assert_eq!(cancel_body("order-1"), "{\"orderID\":\"order-1\"}");
}

#[test]
fn fees_are_cached_for_a_while() {
    let mut client = TradingClient::new("https://clob".to_string(), "key", false);
    assert_eq!(client.cached_fee_rate_bps("token", 0), None);
    let body = object(vec![("base_fee", Json::Number("25".to_string()))]);
    let fee = client.fee_rate_fetched("token", Some(&body), 0);
    assert_eq!(fee, fee_rate_in(&body));
    assert_eq!(client.cached_fee_rate_bps("token", 1), Some(fee));
    assert_eq!(client.cached_fee_rate_bps("token", u64::MAX), None);
    assert_eq!(client.cached_fee_rate_bps("other", 1), None);
}

#[test]
fn answers_are_read_for_what_they_say() {
    assert!(scoring_status(&object(vec![("scoring", Json::Bool(true))])));
    assert!(!scoring_status(&object(vec![])));
    let body = object(vec![("balance", json_text("1500000"))]);
    assert_eq!(balance_in(&body), dec("1.5"));
}

#[test]
fn user_messages_become_events() {
    let raw = RawUserMessage {
        msg_type: text("trade"),
        id: text("trade-1"),
        market: text("market"),
        asset_id: text("asset"),
        side: text("BUY"),
        price: text("0.42"),
        size: text("7"),
        outcome: text("YES"),
        status: text("CONFIRMED"),
        timestamp: None,
        maker_order_id: None,
        taker_order_id: None,
        order_id: None,
        original_size: None,
        size_matched: None,
        event_type: None,
    };
    let now = Timestamp { secs: 5, nanos: 0 };
    match parse_user_message_at(&raw, now) {
        Some(UserEvent::Trade(event)) => {
            assert_eq!(event.status, TradeStatus::Confirmed);
            assert_eq!(event.timestamp, now);
        }
        _ => panic!("a trade was expected"),
    }
    let order = RawUserMessage {
        msg_type: text("CANCELLATION"),
        size: None,
        ..raw
    };
    assert!(matches!(
        parse_user_message_at(&order, now),
        Some(UserEvent::Order(_))
    ));
    let sideless = RawUserMessage {
        side: text("hold"),
        ..order
    };
    assert!(parse_user_message_at(&sideless, now).is_none());
}

#[test]
fn connected_comes_before_everything_else() {
    let mut session = UserSession::new(false, 0);
    let first = session.frame(Frame::PongText, 1);
    assert!(matches!(first.events.first(), Some(UserEvent::Connected { .. })));
    let second = session.frame(Frame::Ping, 2);
    assert!(second.answer_ping);
    assert!(matches!(second.events[..], [UserEvent::RawActivity]));
    let last = session.frame(Frame::Closed, 3);
    assert!(matches!(last.end, Some(StreamEnd::ServerClosed)));
}

#[test]
fn waits_between_connections_grow_to_a_limit() {
    let mut backoff = Backoff::new();
    let first = backoff.failed(0);
    let second = backoff.failed(0);
    assert!(second > first);
    let mut last = second;
    for _ in 0..20 {
        last = backoff.failed(0);
    }
    assert_eq!(backoff.failed(0), last);
    assert!(backoff.reconnect);
}

#[test]
fn the_salt_of_an_order_is_sent_as_a_number() {
    let client = TradingClient::new("https://clob".to_string(), "key", false);
    let payload = object(vec![
        (
            "order",
            object(vec![("salt", json_text("123")), ("maker", json_text("0xabc"))]),
        ),
        ("owner", json_text("nobody")),
    ]);
    let sent = client.order_body(payload, true);
    // Fields are named in alphabetical order.
    let places: Vec<usize> = ["\"maker\"", "\"salt\"", "\"owner\"", "\"postOnly\""]
        .iter()
        .map(|name| sent.find(name).expect("a field"))
        .collect();
    assert!(places.windows(2).all(|pair| pair[0] < pair[1]));
    let body: Value = serde_json::from_str(&sent).expect("valid json");
    assert_eq!(body["order"]["salt"], 123);
    assert_eq!(body["order"]["maker"], "0xabc");
    assert_eq!(body["owner"], "key");
    assert_eq!(body["postOnly"], true);
}

#[test]
fn answers_to_placements_are_read() {
    let result = order_result_of(RawOrderResponse {
        order_id: text("order-1"),
        status: text("matched"),
        transaction_hashes: None,
        trade_ids: Some(vec!["trade-1".to_string()]),
    });
    assert_eq!(result.order_id, "order-1");
    assert_eq!(result.status, OrderStatus::Matched);
    assert_eq!(result.trade_ids, vec!["trade-1".to_string()]);
    assert!(result.transaction_hashes.is_empty());
    assert_eq!(
        cancel_market_orders_body("market", "asset"),
        "{\"asset_id\":\"asset\",\"market\":\"market\"}"
    );
}

#[test]
fn a_silent_connection_is_dead() {
    let session = UserSession::new(true, 0);
    assert!(!session.is_dead(1));
    assert!(session.is_dead(u64::MAX));
}

#[test]
fn the_calendar_has_an_end() {
    assert_eq!(parse_secs(MAX_CALENDAR_SECS), Some(MAX_CALENDAR_SECS));
    assert_eq!(parse_secs(MAX_CALENDAR_SECS + 1), None);
    assert_eq!(parse_secs(MIN_CALENDAR_SECS), Some(MIN_CALENDAR_SECS));
    assert_eq!(parse_secs(MIN_CALENDAR_SECS - 1), None);
}

#[test]
fn amounts_are_cut_to_cents_in_words() {
    assert_eq!(dec("-1.239").to_cents_text(), "-1.23");
    assert_eq!(dec("0").to_cents_text(), "0.00");
    assert_eq!(dec("7").to_cents_text(), "7.00");
    assert_eq!(dec("0.0049").to_cents_text(), "0.00");
    assert_eq!(dec("12.50").to_text(), "12.50");
    for number in ["0", "0.00", "-0.5", "100", "-12.050", "0.0000000000000000000000000001"] {
        assert_eq!(dec(number).to_text(), number);
    }
}
