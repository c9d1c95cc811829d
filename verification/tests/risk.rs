use spreadeater::decimal::Decimal;
use spreadeater::models::Position;
use spreadeater::trading::positions::{PositionManager, RawPosition};
use spreadeater::trading::risk::{RiskConfig, RiskManager};

const SECOND: i64 = 1_000_000_000;

fn dec(text: &str) -> Decimal {
    Decimal::parse(text).expect("a decimal")
}

fn manager() -> RiskManager {
    RiskManager::new(RiskConfig {
        hedge_timeout_secs: 60,
        hedge_exposure_tolerance: dec("1"),
        cash_reserve: dec("10"),
    })
}

fn position(yes: &str, no: &str) -> Position {
    let mut position = Position::new("market".to_string());
    position.yes_size = dec(yes);
    position.no_size = dec(no);
    position
}

fn raw(size: &str, price: &str, outcome: &str) -> RawPosition {
    RawPosition {
        condition_id: Some("market".to_string()),
        size: Some(size.to_string()),
        avg_price: Some(price.to_string()),
        outcome: Some(outcome.to_string()),
    }
}

#[test]
fn the_first_halt_reason_stays() {
    let mut risk = manager();
    let first = risk.halt_market("market", "depth");
    assert!(first.newly_halted);
    assert_eq!(first.canonical_reason, "depth");
    let second = risk.halt_market("market", "timeout");
    assert!(!second.newly_halted);
    assert_eq!(second.canonical_reason, "depth");
    assert_eq!(second.suppressed_reason.as_deref(), Some("timeout"));
    assert!(!risk.is_market_tradable("market"));
    assert!(risk.is_market_tradable("other"));
    assert!(risk
        .pre_trade_check("market", dec("1"), None, false, None)
        .is_err());
    risk.resume_market("market");
    assert!(risk.is_market_tradable("market"));
    assert_eq!(risk.get_market_state("market").unwrap().halt_reason, None);
}

#[test]
fn a_global_halt_blocks_every_market() {
    let mut risk = manager();
    risk.update_balance(dec("100"));
    assert!(risk
        .pre_trade_check("market", dec("1"), None, false, None)
        .is_ok());
    risk.global_halt("watchdog");
    assert!(risk.is_globally_halted());
    assert!(!risk.is_market_tradable("market"));
    assert!(risk
        .pre_trade_check("market", dec("1"), None, false, None)
        .is_err());
}

#[test]
fn hedges_need_their_cost() {
    let mut risk = manager();
    risk.update_balance(dec("100"));
    assert!(risk
        .pre_trade_check("market", dec("5"), Some(dec("100")), true, None)
        .is_ok());
    assert_eq!(
        risk.pre_trade_check("market", dec("5"), Some(dec("100.50")), true, None),
        Err("Insufficient balance for hedge: need 100.50 USDC, have 100".to_string())
    );
    assert!(risk
        .pre_trade_check("market", dec("5"), Some(dec("100.50")), true, Some(dec("101")))
        .is_ok());
}

#[test]
fn exposure_that_stays_open_halts_its_market() {
    let mut risk = manager();
    risk.update_market_exposure("market", &position("5", "0"), 0);
    assert_eq!(risk.get_market_state("market").unwrap().unhedged_since, Some(0));
    risk.check_hedge_timeouts(30 * SECOND);
    assert!(risk.is_market_tradable("market"));
    risk.check_hedge_timeouts(61 * SECOND);
    assert!(!risk.is_market_tradable("market"));
    assert_eq!(risk.get_all_states().len(), 1);

    let mut hedged = manager();
    hedged.update_market_exposure("market", &position("5", "0"), 0);
    hedged.update_market_exposure("market", &position("5", "5"), SECOND);
    hedged.check_hedge_timeouts(1_000 * SECOND);
    assert!(hedged.is_market_tradable("market"));
}

#[test]
fn positions_are_read_by_outcome() {
    let mut positions = PositionManager::new();
    positions.sync_positions(&vec![raw("5", "0.4", "Yes"), raw("3", "0.5", "No")]);
    let held = positions.get_position("market").expect("a position");
    assert_eq!(held.yes_size, dec("5"));
    assert_eq!(held.no_size, dec("3"));
    assert_eq!(positions.total_position_cost(), dec("3.5"));
    assert!(positions.get_position("other").is_none());
}

#[test]
fn an_updated_position_is_read_back() {
    let mut positions = PositionManager::new();
    positions.update_position(position("2", "1"));
    assert_eq!(positions.get_position("market").unwrap().yes_size, dec("2"));
    positions.update_position(position("7", "1"));
    assert_eq!(positions.get_position("market").unwrap().yes_size, dec("7"));
    assert!(positions.has_inventory("market", "YES", dec("7")));
    assert!(!positions.has_inventory("market", "YES", dec("8")));
}
