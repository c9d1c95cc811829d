use spreadeater::decimal::Decimal;
use spreadeater::trading::risk::{RiskConfig, RiskManager};
use spreadeater::watchdog::health::{
    elapsed_secs, BookWsStatsSnapshot, HealthVerdict, WatchdogConfig, WsHealthTracker,
};
use spreadeater::watchdog::kill_trigger::{KillTrigger, ScriptOutcome};
use spreadeater::watchdog::manager::{
    EscalationLevel, KillAction, LogLevel, WatchdogManager,
};
use spreadeater::watchdog::status_poller::{
    InstatusComponent, InstatusIncident, InstatusSummary, StatusPoller, StatusVerdict,
};
use std::sync::atomic::{AtomicBool, Ordering};

const SECOND: u64 = 1_000_000_000;

fn base_config() -> WatchdogConfig {
    WatchdogConfig {
        enabled: true,
        enforce_actions: false,
        max_book_ws_silence_secs: 60,
        max_user_ws_silence_secs: 120,
        max_reconnects_in_window: 5,
        reconnect_window_secs: 300,
        max_consecutive_disconnects: 3,
        degraded_timeout_secs: 120,
        kill_confirmation_delay_secs: 10,
        status_poll_interval_secs: 60,
        status_page_url: "http://127.0.0.1:9".to_string(),
        critical_components: vec!["CLOB API".to_string(), "Polygon (RPC)".to_string()],
        heartbeat_file: "heartbeat".to_string(),
        kill_flatten_script: "scripts/kill_flatten.py".to_string(),
    }
}

fn test_config() -> WatchdogConfig {
    WatchdogConfig {
        max_book_ws_silence_secs: 2,
        max_user_ws_silence_secs: 3,
        max_reconnects_in_window: 3,
        reconnect_window_secs: 10,
        max_consecutive_disconnects: 2,
        ..base_config()
    }
}

fn test_watchdog_config() -> WatchdogConfig {
    WatchdogConfig {
        enabled: true,
        enforce_actions: false,
        max_book_ws_silence_secs: 0,
        max_user_ws_silence_secs: 120,
        max_reconnects_in_window: 99,
        reconnect_window_secs: 300,
        max_consecutive_disconnects: 99,
        degraded_timeout_secs: 120,
        kill_confirmation_delay_secs: 10,
        status_poll_interval_secs: 300,
        critical_components: Vec::new(),
        ..base_config()
    }
}

#[test]
fn healthy_when_no_events() {
    let mut tracker = WsHealthTracker::new();
    assert_eq!(tracker.assess(&test_config()), HealthVerdict::Healthy);
}

#[test]
fn healthy_after_normal_messages() {
    let mut tracker = WsHealthTracker::new();
    tracker.report_book_message();
    tracker.report_user_connected();
    assert_eq!(tracker.assess(&test_config()), HealthVerdict::Healthy);
}

#[test]
fn degraded_on_single_disconnect() {
    let mut tracker = WsHealthTracker::new();
    tracker.report_book_message();
    tracker.report_book_disconnect();
    let verdict = tracker.assess(&test_config());
    assert!(matches!(verdict, HealthVerdict::Degraded { .. }));
}

#[test]
fn critical_on_too_many_reconnects() {
    let mut tracker = WsHealthTracker::new();
    for _ in 0..3 {
        tracker.report_book_disconnect();
    }
    let verdict = tracker.assess(&test_config());
    assert!(matches!(verdict, HealthVerdict::Critical { .. }));
    if let HealthVerdict::Critical { reason } = verdict {
        assert!(reason.contains("reconnects"));
    }
}

#[test]
fn critical_on_consecutive_short_disconnects() {
    let mut tracker = WsHealthTracker::new();
    // Two consecutive disconnects without stable connection
    tracker.report_book_message();
    tracker.report_book_disconnect();
    tracker.report_book_message();
    tracker.report_book_disconnect();
    let verdict = tracker.assess(&test_config());
    assert!(matches!(verdict, HealthVerdict::Critical { .. }));
}

#[test]
fn critical_on_book_ws_silence() {
    let mut tracker = WsHealthTracker::new();
    let config = test_config();
    tracker.report_book_message_at(0);
    // Three seconds later the silence threshold has passed
    let verdict = tracker.assess_at(&config, 3 * SECOND);
    assert!(matches!(verdict, HealthVerdict::Critical { .. }));
    if let HealthVerdict::Critical { reason } = verdict {
        assert!(reason.contains("Book WS silent"));
    }
}

#[test]
fn degraded_on_user_disconnect() {
    let mut tracker = WsHealthTracker::new();
    tracker.report_user_connected();
    tracker.report_user_disconnect();
    let verdict = tracker.assess(&test_config());
    assert!(matches!(verdict, HealthVerdict::Degraded { .. }));
}

#[test]
fn raw_activity_resets_silence_timer() {
    let mut tracker = WsHealthTracker::new();
    let config = test_config();
    let utc: i64 = 1_774_742_400_000_000_000;

    tracker.report_book_message_at(0);

    // Without raw activity, this is Critical three seconds later
    assert!(matches!(
        tracker.assess_at(&config, 3 * SECOND),
        HealthVerdict::Critical { .. }
    ));

    // Now feed raw activity showing WS received a message just now
    tracker.update_book_ws_raw_activity_at(utc, utc, 3 * SECOND);

    // Should be Healthy now: the raw message resets the timer
    assert_eq!(
        tracker.assess_at(&config, 3 * SECOND),
        HealthVerdict::Healthy
    );
}

#[test]
fn stale_raw_activity_does_not_prevent_critical() {
    let mut tracker = WsHealthTracker::new();
    let config = test_config();
    let utc: i64 = 1_774_742_400_000_000_000;

    tracker.report_book_message_at(0);

    // Feed raw activity from 5 seconds ago (also beyond threshold)
    tracker.update_book_ws_raw_activity_at(utc - 5_000_000_000, utc, 3 * SECOND);

    // Should still be Critical: the raw activity is too old
    assert!(matches!(
        tracker.assess_at(&config, 3 * SECOND),
        HealthVerdict::Critical { .. }
    ));
}

#[test]
fn raw_activity_of_this_moment_keeps_the_stream_healthy() {
    let mut tracker = WsHealthTracker::new();
    let config = test_config();
    tracker.report_book_message();
    let stats = BookWsStatsSnapshot {
        last_raw_message_at: chrono::Utc::now().timestamp_nanos_opt(),
    };
    tracker.update_book_ws_raw_activity(&stats);
    assert_eq!(tracker.assess(&config), HealthVerdict::Healthy);
}

#[test]
fn a_message_older_than_the_tracker_counts_from_its_own_time() {
    let mut tracker = WsHealthTracker::new();
    let utc: i64 = 1_774_742_400_000_000_000;
    tracker.update_book_ws_raw_activity_at(utc - 60_000_000_000, utc, SECOND);
    match tracker.assess_at(&test_config(), SECOND) {
        HealthVerdict::Critical { reason } => {
            assert_eq!(reason, "Book WS silent for 60s (threshold: 2s)")
        }
        other => panic!("unexpected: {other:?}"),
    }
    assert_eq!(tracker.connection_state(), (false, false));
}

#[test]
fn silence_is_counted_in_whole_seconds_from_the_last_message() {
    let mut tracker = WsHealthTracker::new();
    let config = test_config();
    tracker.report_book_message_at(10 * SECOND);
    assert_eq!(
        tracker.assess_at(&config, 12 * SECOND - 1),
        HealthVerdict::Healthy
    );
    assert_eq!(elapsed_secs(10 * SECOND, 13 * SECOND - 1), 2);
    assert!(matches!(
        tracker.assess_at(&config, 14 * SECOND),
        HealthVerdict::Critical { .. }
    ));
    // A newer message ends the silence.
    tracker.report_book_message_at(14 * SECOND);
    assert_eq!(
        tracker.assess_at(&config, 14 * SECOND),
        HealthVerdict::Healthy
    );
}

#[test]
fn old_reconnects_leave_the_window() {
    let mut tracker = WsHealthTracker::new();
    tracker.report_book_disconnect_at(SECOND);
    tracker.report_book_disconnect_at(2 * SECOND);
    tracker.report_book_disconnect_at(30 * SECOND);
    assert_eq!(tracker.reconnects_in_window(), 3);
    tracker.prune_window(10, 31 * SECOND);
    assert_eq!(tracker.reconnects_in_window(), 1);
}

fn poller() -> StatusPoller {
    StatusPoller::new(&base_config())
}

fn make_summary(
    page_status: &str,
    components: Vec<(&str, &str)>,
    incidents: Vec<(&str, &str, Vec<&str>)>,
) -> InstatusSummary {
    InstatusSummary {
        page_status: page_status.to_string(),
        components: components
            .into_iter()
            .map(|(name, status)| InstatusComponent {
                name: name.to_string(),
                status: status.to_string(),
            })
            .collect(),
        incidents: incidents
            .into_iter()
            .map(|(name, status, comps)| InstatusIncident {
                name: name.to_string(),
                status: status.to_string(),
                components: comps.into_iter().map(|s| s.to_string()).collect(),
            })
            .collect(),
    }
}

#[test]
fn healthy_when_all_operational() {
    let p = poller();
    let summary = make_summary(
        "UP",
        vec![
            ("CLOB API", "OPERATIONAL"),
            ("Polygon (RPC)", "OPERATIONAL"),
            ("Website", "OPERATIONAL"),
        ],
        vec![],
    );
    assert_eq!(p.evaluate(&summary), StatusVerdict::Healthy);
}

#[test]
fn critical_on_clob_major_outage() {
    let p = poller();
    let summary = make_summary(
        "HASISSUES",
        vec![
            ("CLOB API", "MAJOROUTAGE"),
            ("Polygon (RPC)", "OPERATIONAL"),
        ],
        vec![],
    );
    assert!(matches!(
        p.evaluate(&summary),
        StatusVerdict::Critical { .. }
    ));
}

#[test]
fn critical_on_polygon_partial_outage() {
    let p = poller();
    let summary = make_summary(
        "HASISSUES",
        vec![
            ("CLOB API", "OPERATIONAL"),
            ("Polygon (RPC)", "PARTIALOUTAGE"),
        ],
        vec![],
    );
    assert!(matches!(
        p.evaluate(&summary),
        StatusVerdict::Critical { .. }
    ));
}

#[test]
fn degraded_on_clob_degraded_performance() {
    let p = poller();
    let summary = make_summary(
        "HASISSUES",
        vec![
            ("CLOB API", "DEGRADEDPERFORMANCE"),
            ("Polygon (RPC)", "OPERATIONAL"),
        ],
        vec![],
    );
    assert!(matches!(
        p.evaluate(&summary),
        StatusVerdict::Degraded { .. }
    ));
}

#[test]
fn critical_on_active_incident_affecting_critical_component() {
    let p = poller();
    let summary = make_summary(
        "HASISSUES",
        vec![
            ("CLOB API", "OPERATIONAL"),
            ("Polygon (RPC)", "OPERATIONAL"),
        ],
        vec![("CLOB API latency issues", "INVESTIGATING", vec!["CLOB API"])],
    );
    assert!(matches!(
        p.evaluate(&summary),
        StatusVerdict::Critical { .. }
    ));
}

#[test]
fn degraded_on_non_critical_incident() {
    let p = poller();
    let summary = make_summary(
        "HASISSUES",
        vec![("CLOB API", "OPERATIONAL"), ("Website", "OPERATIONAL")],
        vec![("Website issue", "INVESTIGATING", vec!["Website"])],
    );
    assert!(matches!(
        p.evaluate(&summary),
        StatusVerdict::Degraded { .. }
    ));
}

#[test]
fn healthy_on_resolved_incident() {
    let p = poller();
    let summary = make_summary(
        "UP",
        vec![
            ("CLOB API", "OPERATIONAL"),
            ("Polygon (RPC)", "OPERATIONAL"),
        ],
        vec![("Past issue", "RESOLVED", vec!["CLOB API"])],
    );
    assert_eq!(p.evaluate(&summary), StatusVerdict::Healthy);
}

#[test]
fn non_critical_component_outage_is_not_critical() {
    let p = poller();
    let summary = make_summary(
        "HASISSUES",
        vec![
            ("CLOB API", "OPERATIONAL"),
            ("Website", "MAJOROUTAGE"),
            ("Polygon (RPC)", "OPERATIONAL"),
        ],
        vec![],
    );
    // Website is not critical, so page-level HASISSUES means Degraded
    assert!(matches!(
        p.evaluate(&summary),
        StatusVerdict::Degraded { .. }
    ));
}

struct MockKillAction {
    executed: AtomicBool,
}

impl MockKillAction {
    fn new() -> Self {
        Self {
            executed: AtomicBool::new(false),
        }
    }

    fn was_executed(&self) -> bool {
        self.executed.load(Ordering::SeqCst)
    }
}

impl KillAction for MockKillAction {
    fn execute(&self, _reason: &str) -> Result<(), String> {
        self.executed.store(true, Ordering::SeqCst);
        Ok(())
    }
}

#[test]
fn mock_kill_action_records_execution() {
    let mock = MockKillAction::new();
    assert!(!mock.was_executed());
    mock.execute("test").unwrap();
    assert!(mock.was_executed());
}

#[test]
fn observe_only_watchdog_emits_verdict_without_global_halt() {
    let config = test_watchdog_config();
    let mut tracker = WsHealthTracker::new();
    tracker.report_book_message();
    let mut manager = WatchdogManager::new();
    let ws = tracker.assess(&config);
    let actions = manager.run(&config, &ws, &StatusVerdict::Healthy, SECOND);

    assert!(actions.halt.is_none());
    assert!(!config.enforce_actions);
    assert!(actions.kill_actions_suppressed);
    assert_eq!(WatchdogManager::verdict_name(&ws), "critical");
    // No kill comes later either.
    for second in 2..60u64 {
        let later = manager.run(&config, &ws, &StatusVerdict::Healthy, second * SECOND);
        assert!(later.halt.is_none());
        assert!(later.kill.is_none());
        assert!(later.kill_actions_suppressed);
    }
}

#[test]
fn enforcing_watchdog_emits_kill_triggered_after_confirmation() {
    let mut config = test_watchdog_config();
    config.enforce_actions = true;
    config.kill_confirmation_delay_secs = 0;
    let mut tracker = WsHealthTracker::new();
    tracker.report_book_message();
    let kill_action = MockKillAction::new();
    let mut manager = WatchdogManager::new();

    let ws = tracker.assess(&config);
    let first = manager.run(&config, &ws, &StatusVerdict::Healthy, SECOND);
    assert!(first.halt.is_some());
    assert!(first.kill.is_none());
    assert!(matches!(first.log, Some((LogLevel::High, _))));

    let ws = tracker.assess(&config);
    let second = manager.run(&config, &ws, &StatusVerdict::Healthy, 6 * SECOND);
    let (reason, elapsed) = second.kill.expect("the kill is confirmed");
    assert_eq!(elapsed, 5);
    kill_action.execute(&reason).unwrap();
    assert!(kill_action.was_executed());
    assert_eq!(manager.escalation, EscalationLevel::Killed);

    // Nothing happens after the kill.
    let third = manager.run(&config, &HealthVerdict::Healthy, &StatusVerdict::Healthy, 11 * SECOND);
    assert!(third.kill.is_none());
    assert_eq!(manager.escalation, EscalationLevel::Killed);
}

#[test]
fn enforcing_watchdog_recovers_from_kill_pending_before_re_escalating() {
    let mut config = test_watchdog_config();
    config.enforce_actions = true;
    config.max_book_ws_silence_secs = 120;
    config.max_user_ws_silence_secs = 120;
    config.kill_confirmation_delay_secs = 30;
    config.degraded_timeout_secs = 1;

    let mut tracker = WsHealthTracker::new();
    tracker.report_book_message();
    tracker.report_user_connected();
    let ws = tracker.assess(&config);
    let mut manager = WatchdogManager::new();

    let critical = StatusVerdict::Critical {
        reason: "status critical".to_string(),
    };
    let degraded = StatusVerdict::Degraded {
        reason: "status degraded".to_string(),
    };
    let first = manager.run(&config, &ws, &critical, SECOND);
    assert!(first.halt.is_some());
    assert_eq!(WatchdogManager::status_verdict_name(&critical), "critical");
    assert_eq!(WatchdogManager::escalation_name(manager.escalation), "kill_pending");

    let second = manager.run(&config, &ws, &degraded, 6 * SECOND);
    assert!(second.kill.is_none());
    assert_eq!(WatchdogManager::status_verdict_name(&degraded), "degraded");
    assert_eq!(WatchdogManager::escalation_name(manager.escalation), "warning");

    let third = manager.run(&config, &ws, &degraded, 11 * SECOND);
    assert!(third.kill.is_none());
    assert_eq!(WatchdogManager::escalation_name(manager.escalation), "kill_pending");
    assert_eq!(
        manager.kill_reason,
        "Sustained degradation (5s): Status: status degraded"
    );

    // Healthy verdicts bring everything back.
    manager.run(&config, &ws, &StatusVerdict::Healthy, 16 * SECOND);
    assert_eq!(manager.escalation, EscalationLevel::Normal);
    assert_eq!(manager.kill_reason, "");
}

#[test]
fn combined_reasons_name_both_sources() {
    let ws = HealthVerdict::Critical {
        reason: "silent".to_string(),
    };
    let status = StatusVerdict::Critical {
        reason: "down".to_string(),
    };
    assert_eq!(
        WatchdogManager::combine_verdicts(&ws, &status),
        (true, false, "WS: silent | Status: down".to_string())
    );
    assert_eq!(
        WatchdogManager::combine_verdicts(&HealthVerdict::Healthy, &status),
        (true, false, "Status: down".to_string())
    );
    assert_eq!(WatchdogManager::verdict_reason(&ws), Some("silent"));
    assert_eq!(WatchdogManager::status_verdict_reason(&StatusVerdict::Healthy), None);
}

#[test]
fn an_emergency_stop_halts_before_it_flattens() {
    let mut risk = RiskManager::new(RiskConfig {
        hedge_timeout_secs: 60,
        hedge_exposure_tolerance: Decimal::zero(),
        cash_reserve: Decimal::zero(),
    });
    let trigger = KillTrigger::new("kill_flatten.py".to_string());
    let start = trigger.execute_kill_flatten(&mut risk, "silence");
    assert!(risk.is_globally_halted());
    assert_eq!(start.halt_reason, "watchdog: silence");
    assert_eq!(start.log, "Watchdog kill+flatten triggered: silence");
    assert!(trigger
        .fallback_exit(ScriptOutcome::Succeeded, "silence")
        .is_none());
    assert!(trigger
        .fallback_exit(ScriptOutcome::TimedOut, "silence")
        .unwrap()
        .ends_with("silence"));
}
