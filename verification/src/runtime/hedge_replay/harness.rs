//! A replay from its scenario to its result.

use crate::decimal::Decimal;
use crate::models::Position;
use crate::runtime::hedge_live_probe::verdict::ObservedHedgeOutcome;
use crate::runtime::hedge_replay::{
    build_tracked_order, initial_balance, judge_replay, matched, position_from_step,
    scenario_objection, seeded_order, validate_scenario, ExpectedCriticalEvent, ReplayEventSummary, ReplayScenarioError, ReplayStep,
    ScenarioMarket, ScenarioPositionStep, ScenarioTrackedOrder,
};
use crate::runtime::report::{listing, push_listing};
use crate::text::{
    bool_chars, bool_text, count_chars, count_text, join2, opt_text, push_text, same_text, texts,
};
use crate::time::Timestamp;
use crate::trading::order_manager::placement::is_uuid_text;
use crate::trading::order_manager::TrackedOrder;
use vstd::prelude::*;
use vstd::string::*;

verus! {

/// What is known when a replay begins.
#[derive(Debug)]
pub struct ReplaySetup {
    pub managed_market: bool,
    pub known_market: bool,
    pub tracked_orders: Vec<ScenarioTrackedOrder>,
    pub recently_cancelled_orders: Vec<ScenarioTrackedOrder>,
    pub positions: Vec<ScenarioPositionStep>,
    pub cached_balance: Option<Decimal>,
}

/// What a replay must lead to.
#[derive(Debug)]
pub struct ReplayExpectedOutcome {
    pub critical_events: Vec<ExpectedCriticalEvent>,
    pub success: bool,
}

#[derive(Debug)]
pub struct HedgeReplayScenario {
    pub name: String,
    pub description: String,
    pub market: ScenarioMarket,
    pub setup: ReplaySetup,
    pub sequence: Vec<ReplayStep>,
    /// The balances that the exchange gives, in order.
    pub balances: Vec<Decimal>,
    pub expected: ReplayExpectedOutcome,
}

/// A scenario with all that is put in place before its first step.
#[derive(Debug)]
pub struct HedgeReplayHarness {
    pub scenario: HedgeReplayScenario,
    pub balance: Decimal,
    pub positions: Vec<Position>,
    pub tracked_orders: Vec<TrackedOrder>,
    pub recently_cancelled_orders: Vec<TrackedOrder>,
}

/// The balance that a replay begins with.
pub open spec fn first_balance(scenario: HedgeReplayScenario) -> int {
    match scenario.setup.cached_balance {
        Some(balance) => balance@,
        None => if scenario.balances@.len() > 0 {
            scenario.balances@[0]@
        } else {
            0
        },
    }
}

/// The order is that of the scenario, under the trace id that it names or a new one.
pub open spec fn seeds_order(
    order: TrackedOrder,
    market: ScenarioMarket,
    step: ScenarioTrackedOrder,
    now: Timestamp,
) -> bool {
    exists|trace_id: Seq<char>|
        order@ == #[trigger] seeded_order(market, step, trace_id, now) && is_uuid_text(trace_id)
}

/// The orders are those of the scenario.
pub open spec fn seeds_orders(
    orders: Seq<TrackedOrder>,
    market: ScenarioMarket,
    steps: Seq<ScenarioTrackedOrder>,
    now: Timestamp,
) -> bool {
    &&& orders.len() == steps.len()
    &&& forall|i: int|
        0 <= i < orders.len() ==> seeds_order(#[trigger] orders[i], market, steps[i], now)
}

/// The positions are those of the scenario, all in its market.
pub open spec fn seeds_positions(
    positions: Seq<Position>,
    condition_id: Seq<char>,
    steps: Seq<ScenarioPositionStep>,
) -> bool {
    &&& positions.len() == steps.len()
    &&& forall|i: int|
        0 <= i < positions.len() ==> {
            &&& (#[trigger] positions[i]).condition_id@ == condition_id
            &&& positions[i].yes_size == steps[i].yes_size
            &&& positions[i].no_size == steps[i].no_size
            &&& positions[i].avg_yes_price == steps[i].yes_avg_price
            &&& positions[i].avg_no_price == steps[i].no_avg_price
        }
}

fn seed_orders(market: &ScenarioMarket, steps: &Vec<ScenarioTrackedOrder>, now: Timestamp) -> (r: Vec<
    TrackedOrder,
>)
    ensures
        seeds_orders(r@, *market, steps@, now),
{
    let mut r: Vec<TrackedOrder> = Vec::new();
    let mut i: usize = 0;
    while i < steps.len()
        invariant
            i <= steps.len(),
            seeds_orders(r@, *market, steps@.take(i as int), now),
        decreases steps.len() - i,
    {
        let order = build_tracked_order(market, &steps[i], now);
        let ghost before = r@;
        assert(seeds_order(order, *market, steps@[i as int], now));
        r.push(order);
        assert forall|j: int| 0 <= j < r@.len() implies seeds_order(
            #[trigger] r@[j],
            *market,
            steps@.take(i + 1)[j],
            now,
        ) by {
            if j < i {
                assert(r@[j] == before[j]);
                assert(steps@.take(i as int)[j] == steps@.take(i + 1)[j]);
            }
        }
        i = i + 1;
    }
    assert(steps@.take(i as int) =~= steps@);
    r
}

fn seed_positions(condition_id: &str, steps: &Vec<ScenarioPositionStep>) -> (r: Vec<Position>)
    ensures
        seeds_positions(r@, condition_id@, steps@),
{
    let mut r: Vec<Position> = Vec::new();
    let mut i: usize = 0;
    while i < steps.len()
        invariant
            i <= steps.len(),
            seeds_positions(r@, condition_id@, steps@.take(i as int)),
        decreases steps.len() - i,
    {
        r.push(position_from_step(condition_id, &steps[i]));
        i = i + 1;
    }
    assert(steps@.take(i as int) =~= steps@);
    r
}

/// The result of a replay.
#[derive(Debug)]
pub struct HedgeReplayResult {
    pub scenario_name: String,
    pub passed: bool,
    pub actual_success: bool,
    pub expected_success: bool,
    pub halted: bool,
    pub mismatches: Vec<String>,
    pub observed: ObservedHedgeOutcome,
    pub critical_events: Vec<ReplayEventSummary>,
}

impl HedgeReplayHarness {
    /// Sets up a scenario at `now`; one whose market did not pass its check, or that has no steps, is
    /// refused.
    pub fn from_scenario(
        scenario: HedgeReplayScenario,
        market_check: Result<(), String>,
        now: Timestamp,
    ) -> (r: Result<HedgeReplayHarness, ReplayScenarioError>)
        ensures
            match scenario_objection(market_check, scenario.sequence@) {
                Some(e) => r == Err::<HedgeReplayHarness, ReplayScenarioError>(e),
                None => r is Ok,
            },
            r matches Ok(h) ==> {
                &&& h.scenario == scenario
                &&& h.balance@ == first_balance(scenario)
                &&& seeds_positions(
                    h.positions@,
                    scenario.market.condition_id@,
                    scenario.setup.positions@,
                )
                &&& seeds_orders(
                    h.tracked_orders@,
                    scenario.market,
                    scenario.setup.tracked_orders@,
                    now,
                )
                &&& seeds_orders(
                    h.recently_cancelled_orders@,
                    scenario.market,
                    scenario.setup.recently_cancelled_orders@,
                    now,
                )
            },
    {
        match validate_scenario(market_check, &scenario.sequence) {
            Ok(_) => {},
            Err(e) => {
                return Err(e);
            },
        }
        let balance = initial_balance(scenario.setup.cached_balance, &scenario.balances);
        let positions = seed_positions(
            scenario.market.condition_id.as_str(),
            &scenario.setup.positions,
        );
        let tracked_orders = seed_orders(&scenario.market, &scenario.setup.tracked_orders, now);
        let recently_cancelled_orders = seed_orders(
            &scenario.market,
            &scenario.setup.recently_cancelled_orders,
            now,
        );
        Ok(
            HedgeReplayHarness {
                scenario,
                balance,
                positions,
                tracked_orders,
                recently_cancelled_orders,
            },
        )
    }

    /// The result once all steps are done: it passes if neither the final outcome nor the critical
    /// events differ from what the scenario expects.
    pub fn finish(
        self,
        outcome_mismatches: Vec<String>,
        observed: ObservedHedgeOutcome,
        critical_events: Vec<ReplayEventSummary>,
    ) -> (r: HedgeReplayResult)
        ensures
            r.scenario_name@ == self.scenario.name@,
            r.actual_success == (opt_text(observed.result_status) == Some("success"@)),
            r.expected_success == self.scenario.expected.success,
            r.halted == observed.halted,
            texts(r.mismatches@) == texts(outcome_mismatches@) + matched(
                self.scenario.expected.critical_events@,
                critical_events@,
                self.scenario.expected.critical_events@.len(),
            ).1,
            r.passed == (r.mismatches@.len() == 0),
            r.observed == observed,
            r.critical_events == critical_events,
    {
        let actual_success = match &observed.result_status {
            Some(status) => same_text(status.as_str(), "success"),
            None => false,
        };
        let verdict = judge_replay(
            outcome_mismatches,
            &self.scenario.expected.critical_events,
            &critical_events,
        );
        HedgeReplayResult {
            scenario_name: self.scenario.name,
            passed: verdict.passed,
            actual_success,
            expected_success: self.scenario.expected.success,
            halted: observed.halted,
            mismatches: verdict.mismatches,
            observed,
            critical_events,
        }
    }
}

/// A replay in words.
pub open spec fn result_lines(r: HedgeReplayResult) -> Seq<Seq<char>> {
    seq![
        "=== Hedge Replay: "@ + r.scenario_name@ + " ==="@,
        "Result: "@ + if r.passed {
            "PASS"@
        } else {
            "FAIL"@
        },
        "Expected success: "@ + bool_chars(r.expected_success) + ", Actual: "@ + bool_chars(
            r.actual_success,
        ),
        "Critical events observed: "@ + count_chars(r.critical_events@.len()),
    ] + listing("Mismatches:"@, texts(r.mismatches@))
}

/// A replay in words.
pub fn replay_report_lines(result: &HedgeReplayResult) -> (r: Vec<String>)
    ensures
        texts(r@) == result_lines(*result),
{
    let mut lines: Vec<String> = Vec::new();
    assert(texts(lines@) =~= Seq::empty());
    let mut heading = join2("=== Hedge Replay: ", result.scenario_name.as_str());
    heading.append(" ===");
    push_text(&mut lines, heading);
    push_text(
        &mut lines,
        join2(
            "Result: ",
            if result.passed {
                "PASS"
            } else {
                "FAIL"
            },
        ),
    );
    let mut successes = join2("Expected success: ", bool_text(result.expected_success));
    successes.append(", Actual: ");
    successes.append(bool_text(result.actual_success));
    push_text(&mut lines, successes);
    let count: u64 = result.critical_events.len() as u64;
    push_text(&mut lines, join2("Critical events observed: ", count_text(count).as_str()));
    assert(texts(lines@) =~= result_lines(*result).take(4));
    push_listing(&mut lines, "Mismatches:", &result.mismatches);
    assert(texts(lines@) =~= result_lines(*result));
    lines
}

} // verus!
