//! The cycles of the bot: what is fetched, which markets are evaluated, and what is kept.

use crate::config::StrategyConfig;
use crate::decimal::{abs_value, difference, sum, value_of, Decimal};
use crate::keyed::find;
use crate::models::{CanonicalMarket, LiveOrder, OrderBookSnapshot, QuoteLeg};
use crate::runtime::orchestrator::{
    active_in, bid_capital, budget_left, build_quote_trace_ids, count_active_orders, cycle_funds,
    cycle_may_run, evaluate_market, evaluation_of, funds_fit, market_evaluated, quote_events,
    tells_of, traces_quotes, CycleFunds, Evaluation, OutOfRange, QuoteEvent,
};
use crate::trading::positions::{
    merges_reports, position_cost, position_views, position_with_id, raw_views, PositionManager,
    RawPosition,
};
use crate::trading::risk::{RiskConfig, RiskManager, RiskView, MAX_TIMEOUT_SECS};
use vstd::prelude::*;
use vstd::string::*;

pub mod laws;

verus! {

/// How the bot runs.
#[derive(Clone, Copy, Debug, PartialEq, Eq, Structural)]
pub enum Mode {
    /// Markets are evaluated, without an account.
    Shadow,
    /// With an account, but without orders.
    DryRun,
    Live,
}

impl Mode {
    pub open spec fn label_chars(self) -> Seq<char> {
        match self {
            Mode::Shadow => "shadow"@,
            Mode::DryRun => "dry-run"@,
            Mode::Live => "live"@,
        }
    }

    pub fn label(self) -> (r: &'static str)
        ensures
            r@ == self.label_chars(),
    {
        match self {
            Mode::Shadow => "shadow",
            Mode::DryRun => "dry-run",
            Mode::Live => "live",
        }
    }
}

/// What a cycle waits for.
#[derive(Clone, Copy, Debug, PartialEq, Eq, Structural)]
pub enum CycleStage {
    Idle,
    Positions,
    Orders,
    Balance,
    Markets,
    /// The books of the admitted market at that place.
    Books(usize),
}

/// What comes in during a cycle; `None` where it could not be fetched.
#[derive(Debug)]
pub enum CycleEvent {
    Started,
    Positions(Option<Vec<RawPosition>>),
    Orders(Option<Vec<LiveOrder>>),
    Balance(Option<Decimal>),
    /// The markets that passed the filters.
    Markets(Option<Vec<CanonicalMarket>>),
    Books(Option<(OrderBookSnapshot, OrderBookSnapshot)>),
}

impl CycleEvent {
    /// The event is what the stage waits for.
    pub open spec fn fits(self, stage: CycleStage) -> bool {
        match self {
            CycleEvent::Started => true,
            CycleEvent::Positions(_) => stage == CycleStage::Positions,
            CycleEvent::Orders(_) => stage == CycleStage::Orders,
            CycleEvent::Balance(_) => stage == CycleStage::Balance,
            CycleEvent::Markets(_) => stage == CycleStage::Markets,
            CycleEvent::Books(_) => stage is Books,
        }
    }
}

/// What is next in a cycle.
#[derive(Clone, Copy, Debug)]
pub enum CycleAction {
    FetchPositions,
    FetchOrders,
    FetchBalance,
    Discover,
    /// The books of the admitted market at that place.
    FetchBooks(usize),
    /// All markets are done.
    SaveSession,
    /// There was nothing to do.
    Finished,
    Failed(&'static str),
}

/// What a cycle found about a market.
#[derive(Debug)]
pub struct EvaluatedMarket {
    /// The market's place among those admitted.
    pub market: usize,
    pub evaluation: Evaluation,
    /// Our orders that rest in the market; not counted in a shadow cycle.
    pub active_orders: usize,
    /// What the monitor is told of the quotes; nothing in a shadow cycle.
    pub events: Vec<QuoteEvent>,
}

/// Runs the cycles.
pub struct Orchestrator {
    pub config: StrategyConfig,
    pub mode: Mode,
    pub risk: RiskManager,
    pub positions: PositionManager,
    pub stage: CycleStage,
    pub open_orders: Vec<LiveOrder>,
    pub api_balance: Option<Decimal>,
    pub funds: Option<CycleFunds>,
    pub admitted: Vec<CanonicalMarket>,
    pub evaluated: Vec<EvaluatedMarket>,
}

/// The first market from `from` on that is evaluated: in a live cycle, the first that is not
/// halted.
pub open spec fn next_market(
    markets: Seq<CanonicalMarket>,
    from: int,
    risk: RiskView,
    live: bool,
) -> int
    decreases markets.len() - from,
{
    if from >= markets.len() {
        markets.len() as int
    } else if !live || risk.tradable(markets[from].condition_id@) {
        from
    } else {
        next_market(markets, from + 1, risk, live)
    }
}

/// The cycle goes on to the market at `n`, or ends where there is none.
pub open spec fn goes_on(
    stage: CycleStage,
    action: CycleAction,
    markets: Seq<CanonicalMarket>,
    n: int,
) -> bool {
    if n < markets.len() {
        stage == CycleStage::Books(n as usize) && action == CycleAction::FetchBooks(n as usize)
    } else {
        stage == CycleStage::Idle && action == CycleAction::SaveSession
    }
}

/// The cycle has its funds and goes on to the markets, or it fails where they are too large.
pub open spec fn funded(
    before: Orchestrator,
    after: Orchestrator,
    orders: Seq<LiveOrder>,
    balance: Option<Decimal>,
    action: CycleAction,
) -> bool {
    if funds_fit(before.positions, orders, value_of(balance)) {
        &&& after.funds matches Some(funds) && funds.committed_capital@ == sum(
            bid_capital(orders),
            position_cost(position_views(before.positions.positions@)),
        ) && funds.available_budget@ == budget_left(
            value_of(balance),
            funds.committed_capital@,
        )
        &&& after.stage == CycleStage::Markets
        &&& action == CycleAction::Discover
    } else {
        &&& after.funds is None
        &&& after.stage == CycleStage::Idle
        &&& action is Failed && (action->Failed_0)@ == "Funds are out of range"@
    }
}

/// The orders that a fetch gives: none where it failed.
pub open spec fn fetched_orders(orders: Option<Vec<LiveOrder>>) -> Seq<LiveOrder> {
    match orders {
        Some(orders) => orders@,
        None => Seq::empty(),
    }
}

/// What the risk manager knows once the position in a market was seen.
pub open spec fn position_seen(
    risk: RiskView,
    tolerance: int,
    positions: PositionManager,
    condition_id: Seq<char>,
    now: int,
) -> RiskView {
    let all = position_views(positions.positions@);
    match find(all, position_with_id(condition_id)) {
        Some(i) => risk.exposure_seen(
            condition_id,
            abs_value(difference(all[i].yes_size, all[i].no_size)),
            tolerance,
            now,
        ),
        None => risk,
    }
}

/// What was recorded of a market: its evaluation and, in a live cycle, our orders in it and what
/// the monitor is told of its quotes.
pub open spec fn records(
    kept: EvaluatedMarket,
    i: int,
    e: Evaluation,
    orders: Seq<LiveOrder>,
    condition_id: Seq<char>,
    live: bool,
) -> bool {
    &&& kept.market == i
    &&& kept.evaluation == e
    &&& if live {
        &&& kept.active_orders == orders.filter(active_in(condition_id)).len()
        &&& exists|ids: Seq<(QuoteLeg, String)>| #[trigger]
            traces_quotes(ids, e.quote_set.candidates@) && tells_of(
                kept.events@,
                e.quote_set.candidates@,
                ids,
            )
    } else {
        kept.active_orders == 0 && kept.events@.len() == 0
    }
}

/// What an evaluation leaves behind: a record of its success, or nothing.
pub open spec fn keeps(
    before: Orchestrator,
    kept: Seq<EvaluatedMarket>,
    i: int,
    r: Result<Evaluation, OutOfRange>,
    live: bool,
) -> bool {
    match r {
        Ok(e) => {
            &&& kept.len() == before.evaluated@.len() + 1
            &&& kept.drop_last() == before.evaluated@
            &&& records(
                kept.last(),
                i,
                e,
                before.open_orders@,
                before.admitted@[i].condition_id@,
                live,
            )
        },
        Err(_) => kept == before.evaluated@,
    }
}

/// The books of the market at `i` came in.
pub open spec fn took_books(
    before: Orchestrator,
    after: Orchestrator,
    i: int,
    books: Option<(OrderBookSnapshot, OrderBookSnapshot)>,
    now: int,
    live: bool,
) -> bool {
    let market = before.admitted@[i];
    let seen = position_seen(
        before.risk@,
        before.risk.limits().hedge_exposure_tolerance@,
        before.positions,
        market.condition_id@,
        now,
    );
    match books {
        Some((yes_book, no_book)) => exists|r: Result<Evaluation, OutOfRange>| #[trigger]
            evaluation_of(market, yes_book, no_book, before.config, r) && keeps(
                before,
                after.evaluated@,
                i,
                r,
                live,
            ) && after.risk@ == if r is Ok && live {
                seen
            } else {
                before.risk@
            },
        None => after.evaluated@ == before.evaluated@ && after.risk@ == before.risk@,
    }
}

/// One step of a cycle turned `before` into `after` and asks for `action`.
pub open spec fn cycle_step(
    before: Orchestrator,
    event: CycleEvent,
    now: int,
    live: bool,
    after: Orchestrator,
    action: CycleAction,
) -> bool {
    match event {
        CycleEvent::Started => {
            &&& after == (Orchestrator {
                stage: after.stage,
                evaluated: after.evaluated,
                ..before
            })
            &&& after.evaluated@.len() == 0
            &&& if !live {
                action == CycleAction::Discover && after.stage == CycleStage::Markets
            } else if before.mode == Mode::Shadow {
                action is Failed && (action->Failed_0)@ == "Live mode requires risk manager"@
                    && after.stage == CycleStage::Idle
            } else if before.risk@.global_halt {
                action == CycleAction::Finished && after.stage == CycleStage::Idle
            } else {
                action == CycleAction::FetchPositions && after.stage == CycleStage::Positions
            }
        },
        CycleEvent::Positions(raw) => {
            &&& after == (Orchestrator {
                stage: CycleStage::Orders,
                risk: after.risk,
                positions: after.positions,
                ..before
            })
            &&& match raw {
                Some(raw) => merges_reports(
                    position_views(after.positions.positions@),
                    raw_views(raw@),
                ),
                None => after.positions == before.positions,
            }
            &&& after.risk@ == before.risk@.timeouts_checked(
                before.risk.limits().hedge_timeout_secs as int,
                now,
            )
            &&& action == CycleAction::FetchOrders
        },
        CycleEvent::Orders(orders) => {
            &&& after == (Orchestrator {
                stage: after.stage,
                open_orders: after.open_orders,
                api_balance: None,
                funds: after.funds,
                ..before
            })
            &&& after.open_orders@ == fetched_orders(orders)
            &&& if before.mode == Mode::Live {
                action == CycleAction::FetchBalance && after.stage == CycleStage::Balance
                    && after.funds == before.funds
            } else {
                funded(before, after, after.open_orders@, None, action)
            }
        },
        CycleEvent::Balance(balance) => {
            &&& after == (Orchestrator {
                stage: after.stage,
                api_balance: balance,
                funds: after.funds,
                ..before
            })
            &&& funded(before, after, before.open_orders@, balance, action)
        },
        CycleEvent::Markets(None) => {
            &&& after == (Orchestrator { stage: CycleStage::Idle, ..before })
            &&& action is Failed && (action->Failed_0)@ == "Discovery failed"@
        },
        CycleEvent::Markets(Some(markets)) => {
            &&& after == (Orchestrator { stage: after.stage, admitted: markets, ..before })
            &&& if markets@.len() == 0 {
                action == CycleAction::Finished && after.stage == CycleStage::Idle
            } else {
                goes_on(
                    after.stage,
                    action,
                    markets@,
                    next_market(markets@, 0, before.risk@, live),
                )
            }
        },
        CycleEvent::Books(books) => {
            let i = before.stage->Books_0 as int;
            &&& after == (Orchestrator {
                stage: after.stage,
                risk: after.risk,
                evaluated: after.evaluated,
                ..before
            })
            &&& took_books(before, after, i, books, now, live)
            &&& goes_on(
                after.stage,
                action,
                before.admitted@,
                next_market(before.admitted@, i + 1, after.risk@, live),
            )
        },
    }
}

/// The numbers in an event can be reckoned with.
pub open spec fn event_in_range(o: Orchestrator, event: CycleEvent) -> bool {
    match event {
        CycleEvent::Positions(_) => o.risk.limits().hedge_timeout_secs <= MAX_TIMEOUT_SECS,
        CycleEvent::Books(_) => forall|j: int|
            0 <= j < o.positions.positions@.len() ==> (
            #[trigger] o.positions.positions@[j]).comparable(),
        _ => true,
    }
}

impl Orchestrator {
    /// The risk manager is sound, and the market whose books are awaited is one of those admitted.
    pub open spec fn well_formed(&self) -> bool {
        &&& self.risk.well_formed()
        &&& self.stage is Books ==> (self.stage->Books_0) < self.admitted@.len()
    }

    /// For cycles without an account.
    pub fn new(config: StrategyConfig, risk: RiskConfig) -> (r: Orchestrator)
        ensures
            r.well_formed(),
            r.config == config,
            r.risk.limits() == risk,
            r.mode == Mode::Shadow,
            r.stage == CycleStage::Idle,
            r.positions.positions@.len() == 0,
            r.evaluated@.len() == 0,
    {
        Orchestrator {
            config,
            mode: Mode::Shadow,
            risk: RiskManager::new(risk),
            positions: PositionManager::new(),
            stage: CycleStage::Idle,
            open_orders: Vec::new(),
            api_balance: None,
            funds: None,
            admitted: Vec::new(),
            evaluated: Vec::new(),
        }
    }

    /// For cycles with an account.
    pub fn with_auth(config: StrategyConfig, risk: RiskConfig, dry_run: bool) -> (r: Orchestrator)
        ensures
            r.well_formed(),
            r.config == config,
            r.risk.limits() == risk,
            r.mode == if dry_run {
                Mode::DryRun
            } else {
                Mode::Live
            },
            r.stage == CycleStage::Idle,
            r.positions.positions@.len() == 0,
            r.evaluated@.len() == 0,
    {
        let mut r = Orchestrator::new(config, risk);
        r.mode = if dry_run {
            Mode::DryRun
        } else {
            Mode::Live
        };
        r
    }

    /// The first market from `from` on that is evaluated, or the number of markets.
    fn find_next(&self, from: usize, live: bool) -> (n: usize)
        requires
            self.risk.well_formed(),
            from <= self.admitted@.len(),
        ensures
            n == next_market(self.admitted@, from as int, self.risk@, live),
            n <= self.admitted@.len(),
    {
        let mut n: usize = from;
        while n < self.admitted.len()
            invariant
                self.risk.well_formed(),
                n <= self.admitted@.len(),
                next_market(self.admitted@, n as int, self.risk@, live) == next_market(
                    self.admitted@,
                    from as int,
                    self.risk@,
                    live,
                ),
            decreases self.admitted.len() - n,
        {
            if !live || self.risk.is_market_tradable(self.admitted[n].condition_id.as_str()) {
                return n;
            }
            n = n + 1;
        }
        n
    }

    /// Goes on with the first market from `from` on.
    fn go_on(&mut self, from: usize, live: bool) -> (action: CycleAction)
        requires
            old(self).risk.well_formed(),
            from <= old(self).admitted@.len(),
        ensures
            *final(self) == (Orchestrator { stage: final(self).stage, ..*old(self) }),
            final(self).well_formed(),
            goes_on(
                final(self).stage,
                action,
                old(self).admitted@,
                next_market(old(self).admitted@, from as int, old(self).risk@, live),
            ),
    {
        let n: usize = self.find_next(from, live);
        if n < self.admitted.len() {
            self.stage = CycleStage::Books(n);
            CycleAction::FetchBooks(n)
        } else {
            self.stage = CycleStage::Idle;
            CycleAction::SaveSession
        }
    }

    fn books_came(
        &mut self,
        i: usize,
        books: Option<(OrderBookSnapshot, OrderBookSnapshot)>,
        now: i64,
        live: bool,
    )
        requires
            old(self).well_formed(),
            i < old(self).admitted@.len(),
            event_in_range(*old(self), CycleEvent::Books(books)),
        ensures
            final(self).risk.well_formed(),
            final(self).risk.limits() == old(self).risk.limits(),
            *final(self) == (Orchestrator {
                risk: final(self).risk,
                evaluated: final(self).evaluated,
                ..*old(self)
            }),
            took_books(*old(self), *final(self), i as int, books, now as int, live),
    {
        match books {
            Some((yes_book, no_book)) => {
                let market = &self.admitted[i];
                match evaluate_market(market, &yes_book, &no_book, &self.config) {
                    Ok(evaluation) => {
                        let condition_id = market.condition_id.clone();
                        let mut active_orders: usize = 0;
                        let mut events: Vec<QuoteEvent> = Vec::new();
                        let ghost r: Result<Evaluation, OutOfRange> = Ok(evaluation);
                        if live {
                            let quotes = &evaluation.quote_set.candidates;
                            let trace_ids = build_quote_trace_ids(quotes);
                            events = quote_events(quotes, &trace_ids);
                            assert(traces_quotes(trace_ids@, quotes@));
                            active_orders = count_active_orders(
                                &self.open_orders,
                                condition_id.as_str(),
                            );
                            market_evaluated(
                                &mut self.risk,
                                &self.positions,
                                condition_id.as_str(),
                                now,
                            );
                        }
                        self.evaluated.push(
                            EvaluatedMarket { market: i, evaluation, active_orders, events },
                        );
                        assert(self.evaluated@.drop_last() =~= old(self).evaluated@);
                        assert(keeps(*old(self), self.evaluated@, i as int, r, live));
                        assert(evaluation_of(
                            old(self).admitted@[i as int],
                            yes_book,
                            no_book,
                            old(self).config,
                            r,
                        ));
                    },
                    Err(_) => {},
                }
            },
            None => {},
        }
    }

    /// A step of a cycle with an account: positions, orders and balance are fetched, then each
    /// admitted market that is not halted is evaluated.
    pub fn run_live_cycle(&mut self, event: CycleEvent, now: i64) -> (action: CycleAction)
        requires
            old(self).well_formed(),
            event.fits(old(self).stage),
            event_in_range(*old(self), event),
        ensures
            final(self).well_formed(),
            final(self).risk.limits() == old(self).risk.limits(),
            cycle_step(*old(self), event, now as int, true, *final(self), action),
    {
        match event {
            CycleEvent::Started => {
                self.evaluated = Vec::new();
                if self.mode == Mode::Shadow {
                    self.stage = CycleStage::Idle;
                    CycleAction::Failed("Live mode requires risk manager")
                } else if !cycle_may_run(&self.risk) {
                    self.stage = CycleStage::Idle;
                    CycleAction::Finished
                } else {
                    self.stage = CycleStage::Positions;
                    CycleAction::FetchPositions
                }
            },
            CycleEvent::Positions(raw) => {
                match &raw {
                    Some(raw) => {
                        self.positions.sync_positions(raw);
                    },
                    None => {},
                }
                self.risk.check_hedge_timeouts(now);
                self.stage = CycleStage::Orders;
                CycleAction::FetchOrders
            },
            CycleEvent::Orders(orders) => {
                self.open_orders = match orders {
                    Some(orders) => orders,
                    None => Vec::new(),
                };
                self.api_balance = None;
                if self.mode == Mode::Live {
                    self.stage = CycleStage::Balance;
                    CycleAction::FetchBalance
                } else {
                    self.funds_known()
                }
            },
            CycleEvent::Balance(balance) => {
                self.api_balance = balance;
                self.funds_known()
            },
            CycleEvent::Markets(markets) => self.markets_came(markets, true),
            CycleEvent::Books(books) => {
                let i: usize = self.awaited();
                self.books_came(i, books, now, true);
                assert(i < self.admitted.len());
                self.go_on(i + 1, true)
            },
        }
    }

    /// Orders and balance are known: the cycle goes on unless the funds are too large.
    fn funds_known(&mut self) -> (action: CycleAction)
        requires
            old(self).well_formed(),
        ensures
            *final(self) == (Orchestrator {
                stage: final(self).stage,
                funds: final(self).funds,
                ..*old(self)
            }),
            final(self).well_formed(),
            funded(
                *old(self),
                *final(self),
                old(self).open_orders@,
                old(self).api_balance,
                action,
            ),
    {
        self.funds = cycle_funds(&self.positions, &self.open_orders, self.api_balance);
        if self.funds.is_some() {
            self.stage = CycleStage::Markets;
            CycleAction::Discover
        } else {
            self.stage = CycleStage::Idle;
            CycleAction::Failed("Funds are out of range")
        }
    }

    fn awaited(&self) -> (i: usize)
        requires
            self.stage is Books,
        ensures
            i == self.stage->Books_0,
    {
        match self.stage {
            CycleStage::Books(i) => i,
            _ => 0,
        }
    }

    fn markets_came(&mut self, markets: Option<Vec<CanonicalMarket>>, live: bool) -> (action:
        CycleAction)
        requires
            old(self).well_formed(),
        ensures
            final(self).well_formed(),
            final(self).risk == old(self).risk,
            cycle_step(*old(self), CycleEvent::Markets(markets), 0, live, *final(self), action),
    {
        match markets {
            Some(markets) => {
                self.stage = CycleStage::Idle;
                self.admitted = markets;
                if self.admitted.len() == 0 {
                    CycleAction::Finished
                } else {
                    self.go_on(0, live)
                }
            },
            None => {
                self.stage = CycleStage::Idle;
                CycleAction::Failed("Discovery failed")
            },
        }
    }

    /// A step of a cycle without an account: each admitted market is evaluated.
    pub fn run_shadow_cycle(&mut self, event: CycleEvent, now: i64) -> (action: CycleAction)
        requires
            old(self).well_formed(),
            event is Started || event is Markets || event is Books,
            event.fits(old(self).stage),
            event_in_range(*old(self), event),
        ensures
            final(self).well_formed(),
            final(self).risk.limits() == old(self).risk.limits(),
            cycle_step(*old(self), event, now as int, false, *final(self), action),
    {
        match event {
            CycleEvent::Markets(markets) => self.markets_came(markets, false),
            CycleEvent::Books(books) => {
                let i: usize = self.awaited();
                self.books_came(i, books, now, false);
                assert(i < self.admitted.len());
                self.go_on(i + 1, false)
            },
            _ => {
                self.evaluated = Vec::new();
                self.stage = CycleStage::Markets;
                CycleAction::Discover
            },
        }
    }
}

/// A live cycle asks for the books of a market only if it is not halted, and has asked for those
/// of every market before it that is not.
pub proof fn law_halted_markets_are_passed_over(
    markets: Seq<CanonicalMarket>,
    from: int,
    risk: RiskView,
)
    requires
        0 <= from <= markets.len(),
    ensures
        ({
            let n = next_market(markets, from, risk, true);
            &&& from <= n <= markets.len()
            &&& n < markets.len() ==> risk.tradable(markets[n].condition_id@)
            &&& forall|i: int|
                from <= i < n ==> !risk.tradable((#[trigger] markets[i]).condition_id@)
        }),
    decreases markets.len() - from,
{
    if from < markets.len() && !risk.tradable(markets[from].condition_id@) {
        law_halted_markets_are_passed_over(markets, from + 1, risk);
    }
}

/// Under a global halt a live cycle fetches nothing and evaluates nothing.
pub proof fn law_global_halt_skips_the_cycle(
    before: Orchestrator,
    now: int,
    after: Orchestrator,
    action: CycleAction,
)
    requires
        before.mode != Mode::Shadow,
        before.risk@.global_halt,
        cycle_step(before, CycleEvent::Started, now, true, after, action),
    ensures
        action == CycleAction::Finished,
        after.stage == CycleStage::Idle,
        after.evaluated@.len() == 0,
        after.risk == before.risk,
{
}

} // verus!
