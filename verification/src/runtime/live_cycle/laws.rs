//! In what order a cycle goes on, and what it keeps.

use crate::decimal::{representable, unit, value_of};
use crate::models::CanonicalMarket;
use crate::runtime::live_cycle::{
    cycle_step, law_halted_markets_are_passed_over, next_market, CycleAction, CycleEvent,
    CycleStage, Mode, Orchestrator,
};
use crate::runtime::orchestrator::bid_capital;
use crate::trading::positions::{position_cost, position_views};
use crate::trading::risk::RiskView;
use vstd::prelude::*;

verus! {

/// A live cycle takes its steps in order: positions, orders, with a live account the balance, then the
/// markets, then their books one by one. After each step it waits for what it asked for.
pub proof fn law_live_cycle_takes_its_steps_in_order(
    before: Orchestrator,
    event: CycleEvent,
    now: int,
    after: Orchestrator,
    action: CycleAction,
)
    requires
        event.fits(before.stage),
        cycle_step(before, event, now, true, after, action),
    ensures
        action is FetchPositions ==> event is Started && before.mode != Mode::Shadow
            && !before.risk@.global_halt && after.stage == CycleStage::Positions,
        action is FetchOrders <==> event is Positions,
        action is FetchOrders ==> after.stage == CycleStage::Orders,
        action is FetchBalance <==> event is Orders && before.mode == Mode::Live,
        action is FetchBalance ==> after.stage == CycleStage::Balance,
        action is Discover ==> (event is Orders && before.mode != Mode::Live) || event is Balance,
        action is Discover ==> after.stage == CycleStage::Markets && after.funds is Some,
        action is FetchBooks ==> event is Markets || event is Books,
        action is FetchBooks ==> after.stage == CycleStage::Books(action->FetchBooks_0),
        action is SaveSession || action is Finished || action is Failed ==> after.stage
            == CycleStage::Idle,
        event is Books ==> action is FetchBooks || action is SaveSession,
        event is Started && before.mode != Mode::Shadow && !before.risk@.global_halt ==> action
            is FetchPositions,
        before.mode == Mode::Shadow && event is Started ==> action is Failed,
{
}

proof fn lemma_next_in_shadow(markets: Seq<CanonicalMarket>, from: int, risk: RiskView)
    requires
        0 <= from <= markets.len(),
    ensures
        next_market(markets, from, risk, false) == from,
{
}

/// After the books of a market a live cycle asks for those of the next one that is not halted, and
/// passes over none that is not; a shadow cycle asks for those of the very next. At most the
/// market that the books were awaited of is recorded, behind those recorded before.
pub proof fn law_books_are_fetched_one_market_after_the_other(
    before: Orchestrator,
    event: CycleEvent,
    now: int,
    live: bool,
    after: Orchestrator,
    action: CycleAction,
)
    requires
        event is Books,
        before.well_formed() && event.fits(before.stage),
        cycle_step(before, event, now, live, after, action),
    ensures
        ({
            let i = before.stage->Books_0 as int;
            let markets = before.admitted@;
            let next = match action {
                CycleAction::FetchBooks(n) => n as int,
                _ => markets.len() as int,
            };
            &&& i < next <= markets.len()
            &&& !live ==> next == i + 1
            &&& live && next < markets.len() ==> !after.risk@.global_halt
                && !after.risk@.is_halted(markets[next].condition_id@)
            &&& live ==> forall|k: int|
                i < k < next ==> after.risk@.global_halt || after.risk@.is_halted(
                    (#[trigger] markets[k]).condition_id@,
                )
            &&& after.admitted == before.admitted
            &&& before.evaluated@.len() <= after.evaluated@.len() <= before.evaluated@.len() + 1
            &&& forall|k: int|
                0 <= k < before.evaluated@.len() ==> #[trigger] after.evaluated@[k]
                    == before.evaluated@[k]
            &&& after.evaluated@.len() > before.evaluated@.len() ==> after.evaluated@.last().market
                == i && event->Books_0 is Some
            &&& !live ==> after.risk@ == before.risk@
        }),
{
    let i = before.stage->Books_0 as int;
    assert(before.admitted.len() == before.admitted@.len());
    if live {
        law_halted_markets_are_passed_over(before.admitted@, i + 1, after.risk@);
    } else {
        lemma_next_in_shadow(before.admitted@, i + 1, after.risk@);
    }
    assert forall|k: int| 0 <= k < before.evaluated@.len() implies #[trigger] after.evaluated@[k]
        == before.evaluated@[k] by {
        if after.evaluated@.len() > before.evaluated@.len() {
            assert(after.evaluated@.drop_last()[k] == after.evaluated@[k]);
        }
    }
}

/// Once the balance is in, the budget and what bids and positions tie up make it up; a balance that
/// could not be fetched counts as ten thousand.
pub proof fn law_funds_make_up_the_balance(
    before: Orchestrator,
    event: CycleEvent,
    now: int,
    after: Orchestrator,
    action: CycleAction,
    whole: int,
)
    requires
        event is Balance,
        cycle_step(before, event, now, true, after, action),
        action is Discover,
        whole == match value_of(event->Balance_0) {
            Some(b) => b,
            None => 10_000 * unit(),
        },
        ({
            let tied = bid_capital(before.open_orders@) + position_cost(
                position_views(before.positions.positions@),
            );
            representable(tied) && representable(whole - tied)
        }),
    ensures
        after.funds matches Some(funds) && funds.available_budget@ + funds.committed_capital@
            == whole && funds.committed_capital@ == bid_capital(before.open_orders@)
            + position_cost(position_views(before.positions.positions@)),
{
}

} // verus!
