//! Hard limits and kill switches.

use crate::decimal::{abs_value, difference, Decimal};
use crate::models::Position;
use crate::text::{clone_opt_text, count_chars, count_text, join2, opt_text, same_text};
use vstd::prelude::*;
use vstd::string::*;

pub mod laws;

verus! {

/// The most seconds that a timeout can hold.
pub const MAX_TIMEOUT_SECS: u64 = 9_223_372_036_854_775;

/// Limits of the risk manager.
#[derive(Clone, Copy, Debug)]
pub struct RiskConfig {
    pub hedge_timeout_secs: u64,
    pub hedge_exposure_tolerance: Decimal,
    pub cash_reserve: Decimal,
}

#[derive(Debug, Clone)]
pub struct HaltMarketResult {
    pub newly_halted: bool,
    pub canonical_reason: String,
    pub suppressed_reason: Option<String>,
}

/// Per-market risk state.
#[derive(Debug)]
pub struct MarketRiskState {
    pub condition_id: String,
    pub halted: bool,
    pub halt_reason: Option<String>,
    /// Nanoseconds since the epoch.
    pub unhedged_since: Option<i64>,
    pub total_exposure: Decimal,
}

impl Clone for MarketRiskState {
    fn clone(&self) -> (r: MarketRiskState)
        ensures
            r@ == self@,
    {
        MarketRiskState {
            condition_id: self.condition_id.clone(),
            halted: self.halted,
            halt_reason: clone_opt_text(&self.halt_reason),
            unhedged_since: self.unhedged_since,
            total_exposure: self.total_exposure,
        }
    }
}

pub struct RiskStateView {
    pub condition_id: Seq<char>,
    pub halted: bool,
    pub halt_reason: Option<Seq<char>>,
    pub unhedged_since: Option<int>,
    pub total_exposure: int,
}

impl View for MarketRiskState {
    type V = RiskStateView;

    open spec fn view(&self) -> RiskStateView {
        RiskStateView {
            condition_id: self.condition_id@,
            halted: self.halted,
            halt_reason: opt_text(self.halt_reason),
            unhedged_since: match self.unhedged_since {
                Some(t) => Some(t as int),
                None => None,
            },
            total_exposure: self.total_exposure@,
        }
    }
}

/// The state of a market of which nothing is known yet.
pub open spec fn fresh_state(condition_id: Seq<char>) -> RiskStateView {
    RiskStateView {
        condition_id,
        halted: false,
        halt_reason: None,
        unhedged_since: None,
        total_exposure: 0,
    }
}

/// No market is listed twice.
pub open spec fn distinct_markets(s: Seq<MarketRiskState>) -> bool {
    forall|i: int, j: int|
        0 <= i < j < s.len() ==> (#[trigger] s[i]).condition_id@ != (#[trigger] s[j]).condition_id@
}

pub open spec fn lists_market(s: Seq<MarketRiskState>, id: Seq<char>) -> bool {
    exists|i: int| 0 <= i < s.len() && (#[trigger] s[i]).condition_id@ == id
}

pub open spec fn place_of(s: Seq<MarketRiskState>, id: Seq<char>) -> int {
    choose|i: int| 0 <= i < s.len() && (#[trigger] s[i]).condition_id@ == id
}

/// The listed states, by market.
pub open spec fn states_by_market(s: Seq<MarketRiskState>) -> Map<Seq<char>, RiskStateView> {
    Map::new(|id: Seq<char>| lists_market(s, id), |id: Seq<char>| s[place_of(s, id)]@)
}

/// What is known of the risk in all markets.
pub struct RiskView {
    pub markets: Map<Seq<char>, RiskStateView>,
    pub global_halt: bool,
    pub cached_balance: Decimal,
}

impl RiskView {
    /// What is known of a market, or a fresh state.
    pub open spec fn state_of(self, id: Seq<char>) -> RiskStateView {
        if self.markets.contains_key(id) {
            self.markets[id]
        } else {
            fresh_state(id)
        }
    }

    pub open spec fn with_state(self, id: Seq<char>, state: RiskStateView) -> RiskView {
        RiskView { markets: self.markets.insert(id, state), ..self }
    }

    pub open spec fn is_halted(self, id: Seq<char>) -> bool {
        self.markets.contains_key(id) && self.markets[id].halted
    }

    pub open spec fn tradable(self, id: Seq<char>) -> bool {
        !self.global_halt && !self.is_halted(id)
    }

    /// After the exposure of a market was seen at `now`.
    pub open spec fn exposure_seen(
        self,
        id: Seq<char>,
        exposure: int,
        tolerance: int,
        now: int,
    ) -> RiskView {
        let state = self.state_of(id);
        self.with_state(
            id,
            RiskStateView {
                total_exposure: exposure,
                unhedged_since: if exposure <= tolerance {
                    None
                } else if state.unhedged_since is None {
                    Some(now)
                } else {
                    state.unhedged_since
                },
                ..state
            },
        )
    }

    /// After a market was halted: the first reason stays.
    pub open spec fn halted(self, id: Seq<char>, reason: Seq<char>) -> RiskView {
        let state = self.state_of(id);
        self.with_state(
            id,
            if state.halted {
                state
            } else {
                RiskStateView { halted: true, halt_reason: Some(reason), ..state }
            },
        )
    }

    pub open spec fn resumed(self, id: Seq<char>) -> RiskView {
        if self.markets.contains_key(id) {
            self.with_state(
                id,
                RiskStateView { halted: false, halt_reason: None, ..self.markets[id] },
            )
        } else {
            self
        }
    }

    /// After the exposures of all markets were held against the timeout at `now`.
    pub open spec fn timeouts_checked(self, timeout_secs: int, now: int) -> RiskView {
        RiskView { markets: self.markets.map_values(timed_out_at(timeout_secs, now)), ..self }
    }

    /// Why an order must not be sent, if it must not.
    pub open spec fn objection(
        self,
        id: Seq<char>,
        hedge_cost: Option<Decimal>,
        available: Option<Decimal>,
    ) -> Option<Seq<char>> {
        let balance = match available {
            Some(balance) => balance,
            None => self.cached_balance,
        };
        if self.global_halt {
            Some("Global halt is active"@)
        } else if self.is_halted(id) {
            Some(
                "Market halted: "@ + match self.markets[id].halt_reason {
                    Some(reason) => reason,
                    None => "unknown"@,
                },
            )
        } else {
            match hedge_cost {
                Some(cost) => if balance@ < cost@ {
                    Some(
                        "Insufficient balance for hedge: need "@ + cost.text_spec()
                            + " USDC, have "@ + balance.text_spec(),
                    )
                } else {
                    None
                },
                None => None,
            }
        }
    }
}

/// The exposure has lasted longer than the timeout.
pub open spec fn overdue(state: RiskStateView, timeout_secs: int, now: int) -> bool {
    state.unhedged_since matches Some(since) && now - since > timeout_secs * 1_000_000_000
}

/// The state after it was held against the timeout: a market whose exposure is overdue is halted.
pub open spec fn timed_out(state: RiskStateView, timeout_secs: int, now: int) -> RiskStateView {
    if overdue(state, timeout_secs, now) && !state.halted {
        RiskStateView {
            halted: true,
            halt_reason: Some(
                "Unhedged exposure for "@ + count_chars(
                    ((now - state.unhedged_since->0) / 1_000_000_000) as nat,
                ) + "s exceeds timeout "@ + count_chars(timeout_secs as nat) + "s"@,
            ),
            ..state
        }
    } else {
        state
    }
}

pub open spec fn timed_out_at(timeout_secs: int, now: int) -> spec_fn(
    RiskStateView,
) -> RiskStateView {
    |state: RiskStateView| timed_out(state, timeout_secs, now)
}

proof fn lemma_place(s: Seq<MarketRiskState>, i: int)
    requires
        distinct_markets(s),
        0 <= i < s.len(),
    ensures
        lists_market(s, s[i].condition_id@),
        place_of(s, s[i].condition_id@) == i,
{
    let id = s[i].condition_id@;
    let j = place_of(s, id);
    assert(0 <= j < s.len() && s[j].condition_id@ == id);
    if j < i {
        assert(s[j].condition_id@ != s[i].condition_id@);
    } else if i < j {
        assert(s[i].condition_id@ != s[j].condition_id@);
    }
}

/// Replacing the state of a market replaces it in the map.
proof fn lemma_replaced(s: Seq<MarketRiskState>, i: int, item: MarketRiskState)
    requires
        distinct_markets(s),
        0 <= i < s.len(),
        item.condition_id@ == s[i].condition_id@,
    ensures
        distinct_markets(s.update(i, item)),
        states_by_market(s.update(i, item)) == states_by_market(s).insert(
            item.condition_id@,
            item@,
        ),
{
    let t = s.update(i, item);
    assert(distinct_markets(t));
    let m = states_by_market(s).insert(item.condition_id@, item@);
    assert forall|id: Seq<char>| lists_market(t, id) == m.contains_key(id) by {
        if lists_market(t, id) {
            let j = place_of(t, id);
            assert(s[j].condition_id@ == id);
        }
        if lists_market(s, id) {
            let j = place_of(s, id);
            assert(t[j].condition_id@ == id);
        }
        assert(t[i].condition_id@ == item.condition_id@);
    }
    assert forall|id: Seq<char>| #[trigger]
        m.contains_key(id) implies states_by_market(t)[id] == m[id] by {
        assert(lists_market(t, id));
        let j = place_of(t, id);
        lemma_place(s, j);
        lemma_place(t, j);
        lemma_place(t, i);
    }
    assert(states_by_market(t) =~= m);
}

/// A state of a market not listed so far is added to the map.
proof fn lemma_added(s: Seq<MarketRiskState>, item: MarketRiskState)
    requires
        distinct_markets(s),
        !lists_market(s, item.condition_id@),
    ensures
        distinct_markets(s.push(item)),
        states_by_market(s.push(item)) == states_by_market(s).insert(item.condition_id@, item@),
{
    let t = s.push(item);
    assert forall|i: int, j: int| 0 <= i < j < t.len() implies (#[trigger] t[i]).condition_id@ != (
    #[trigger] t[j]).condition_id@ by {
        if j == s.len() {
            assert(s[i].condition_id@ != item.condition_id@);
        } else {
            assert(s[i].condition_id@ != s[j].condition_id@);
        }
    }
    let m = states_by_market(s).insert(item.condition_id@, item@);
    assert forall|id: Seq<char>| lists_market(t, id) == m.contains_key(id) by {
        if lists_market(t, id) {
            let j = place_of(t, id);
            if j < s.len() {
                assert(s[j].condition_id@ == id);
            }
        }
        if lists_market(s, id) {
            let j = place_of(s, id);
            assert(t[j].condition_id@ == id);
        }
        assert(t[s.len() as int].condition_id@ == item.condition_id@);
    }
    assert forall|id: Seq<char>| #[trigger]
        m.contains_key(id) implies states_by_market(t)[id] == m[id] by {
        assert(lists_market(t, id));
        let j = place_of(t, id);
        lemma_place(t, j);
        lemma_place(t, s.len() as int);
        if j < s.len() {
            lemma_place(s, j);
        }
    }
    assert(states_by_market(t) =~= m);
}

/// Risk manager enforcing hard limits and kill switches.
pub struct RiskManager {
    config: RiskConfig,
    markets: Vec<MarketRiskState>,
    halted: bool,
    /// Cached USDC balance, updated each cycle.
    cached_balance: Decimal,
}

impl View for RiskManager {
    type V = RiskView;

    closed spec fn view(&self) -> RiskView {
        RiskView {
            markets: states_by_market(self.markets@),
            global_halt: self.halted,
            cached_balance: self.cached_balance,
        }
    }
}

impl RiskManager {
    /// Every market has one state.
    pub closed spec fn well_formed(&self) -> bool {
        distinct_markets(self.markets@)
    }

    pub closed spec fn limits(&self) -> RiskConfig {
        self.config
    }

    pub fn new(config: RiskConfig) -> (r: RiskManager)
        ensures
            r.well_formed(),
            r.limits() == config,
            r@.markets == Map::<Seq<char>, RiskStateView>::empty(),
            !r@.global_halt,
            r@.cached_balance@ == 0,
    {
        let r = RiskManager {
            config,
            markets: Vec::new(),
            halted: false,
            cached_balance: Decimal::zero(),
        };
        assert(r@.markets =~= Map::<Seq<char>, RiskStateView>::empty());
        r
    }

    fn position_of(&self, condition_id: &str) -> (r: Option<usize>)
        ensures
            match r {
                Some(i) => i < self.markets@.len() && self.markets@[i as int].condition_id@
                    == condition_id@,
                None => !lists_market(self.markets@, condition_id@),
            },
    {
        let mut i: usize = 0;
        while i < self.markets.len()
            invariant
                i <= self.markets@.len(),
                forall|j: int| 0 <= j < i ==> (#[trigger] self.markets@[j]).condition_id@
                    != condition_id@,
            decreases self.markets@.len() - i,
        {
            if same_text(self.markets[i].condition_id.as_str(), condition_id) {
                return Some(i);
            }
            i += 1;
        }
        None
    }

    /// The state of a market, entered fresh if there is none.
    fn entry(&mut self, condition_id: &str) -> (i: usize)
        requires
            old(self).well_formed(),
        ensures
            final(self).well_formed(),
            final(self).config == old(self).config,
            final(self).halted == old(self).halted,
            final(self).cached_balance == old(self).cached_balance,
            i < final(self).markets@.len(),
            final(self).markets@[i as int].condition_id@ == condition_id@,
            final(self).markets@[i as int]@ == old(self)@.state_of(condition_id@),
            final(self)@.markets == old(self)@.markets.insert(
                condition_id@,
                old(self)@.state_of(condition_id@),
            ),
    {
        match self.position_of(condition_id) {
            Some(i) => {
                proof {
                    lemma_place(self.markets@, i as int);
                    assert(self@.markets =~= self@.markets.insert(
                        condition_id@,
                        self@.state_of(condition_id@),
                    ));
                }
                i
            },
            None => {
                let i: usize = self.markets.len();
                let item = MarketRiskState {
                    condition_id: condition_id.to_owned(),
                    halted: false,
                    halt_reason: None,
                    unhedged_since: None,
                    total_exposure: Decimal::zero(),
                };
                proof {
                    lemma_added(self.markets@, item);
                }
                self.markets.push(item);
                i
            },
        }
    }

    /// Update the cached USDC balance.
    pub fn update_balance(&mut self, balance: Decimal)
        requires
            old(self).well_formed(),
        ensures
            final(self).well_formed(),
            final(self).limits() == old(self).limits(),
            final(self)@ == (RiskView { cached_balance: balance, ..old(self)@ }),
    {
        self.cached_balance = balance;
    }

    /// Check if a market is safe to trade. An unknown market is.
    pub fn is_market_tradable(&self, condition_id: &str) -> (r: bool)
        requires
            self.well_formed(),
        ensures
            r == self@.tradable(condition_id@),
    {
        if self.halted {
            return false;
        }
        match self.position_of(condition_id) {
            Some(i) => {
                proof {
                    lemma_place(self.markets@, i as int);
                }
                !self.markets[i].halted
            },
            None => true,
        }
    }

    /// Register or update a market's risk state, as its position is at `now`, in nanoseconds
    /// since the epoch.
    pub fn update_market_exposure(&mut self, condition_id: &str, position: &Position, now: i64)
        requires
            old(self).well_formed(),
            position.comparable(),
        ensures
            final(self).well_formed(),
            final(self).limits() == old(self).limits(),
            final(self)@ == old(self)@.exposure_seen(
                condition_id@,
                abs_value(difference(position.yes_size@, position.no_size@)),
                old(self).limits().hedge_exposure_tolerance@,
                now as int,
            ),
    {
        let exposure = position.net_exposure().abs();
        let tolerance = self.config.hedge_exposure_tolerance;
        let i: usize = self.entry(condition_id);
        let state = &self.markets[i];
        let unhedged_since = if exposure <= tolerance {
            None
        } else {
            match state.unhedged_since {
                Some(since) => Some(since),
                None => Some(now),
            }
        };
        let item = MarketRiskState {
            condition_id: condition_id.to_owned(),
            halted: state.halted,
            halt_reason: clone_opt_text(&state.halt_reason),
            unhedged_since,
            total_exposure: exposure,
        };
        proof {
            lemma_replaced(self.markets@, i as int, item);
        }
        self.markets.set(i, item);
        proof {
            assert(self@.markets =~= old(self)@.markets.insert(condition_id@, item@));
        }
    }

    /// Check for unhedged exposure timeouts across all markets, at `now`.
    pub fn check_hedge_timeouts(&mut self, now: i64)
        requires
            old(self).well_formed(),
            old(self).limits().hedge_timeout_secs <= MAX_TIMEOUT_SECS,
        ensures
            final(self).well_formed(),
            final(self).limits() == old(self).limits(),
            final(self)@ == old(self)@.timeouts_checked(
                old(self).limits().hedge_timeout_secs as int,
                now as int,
            ),
    {
        let secs: u64 = self.config.hedge_timeout_secs;
        let timeout: i128 = secs as i128 * 1_000_000_000;
        let ghost before = self.markets@;
        let ghost f = timed_out_at(secs as int, now as int);
        let mut i: usize = 0;
        while i < self.markets.len()
            invariant
                before == old(self).markets@,
                distinct_markets(before),
                f == timed_out_at(secs as int, now as int),
                timeout == secs * 1_000_000_000,
                self.config == old(self).config,
                self.halted == old(self).halted,
                self.cached_balance == old(self).cached_balance,
                i <= self.markets@.len(),
                self.markets@.len() == before.len(),
                forall|j: int|
                    0 <= j < before.len() ==> (#[trigger] self.markets@[j])@ == (if j < i {
                        f(before[j]@)
                    } else {
                        before[j]@
                    }),
            decreases before.len() - i,
        {
            let state = &self.markets[i];
            assert(state@ == before[i as int]@);
            match state.unhedged_since {
                Some(since) => {
                    let lasted: i128 = now as i128 - since as i128;
                    if lasted > timeout && !state.halted {
                        let lasted_secs: u64 = (lasted / 1_000_000_000) as u64;
                        let mut reason = join2(
                            "Unhedged exposure for ",
                            count_text(lasted_secs).as_str(),
                        );
                        reason.append("s exceeds timeout ");
                        reason.append(count_text(secs).as_str());
                        reason.append("s");
                        let item = MarketRiskState {
                            condition_id: state.condition_id.clone(),
                            halted: true,
                            halt_reason: Some(reason),
                            unhedged_since: state.unhedged_since,
                            total_exposure: state.total_exposure,
                        };
                        assert(item@ == f(before[i as int]@));
                        self.markets.set(i, item);
                    }
                },
                None => {},
            }
            i += 1;
        }
        proof {
            let after = self.markets@;
            assert forall|j: int, k: int| 0 <= j < k < after.len() implies (
            #[trigger] after[j]).condition_id@ != (#[trigger] after[k]).condition_id@ by {
                assert(after[j]@ == f(before[j]@) && after[k]@ == f(before[k]@));
                assert(before[j].condition_id@ != before[k].condition_id@);
            }
            let m = states_by_market(before).map_values(f);
            assert forall|id: Seq<char>| lists_market(after, id) == m.contains_key(id) by {
                if lists_market(after, id) {
                    let j = place_of(after, id);
                    assert(after[j]@ == f(before[j]@));
                    assert(before[j].condition_id@ == id);
                }
                if lists_market(before, id) {
                    let j = place_of(before, id);
                    assert(after[j]@ == f(before[j]@));
                    assert(after[j].condition_id@ == id);
                }
            }
            assert forall|id: Seq<char>| #[trigger]
                m.contains_key(id) implies states_by_market(after)[id] == m[id] by {
                assert(lists_market(after, id));
                let j = place_of(after, id);
                assert(after[j]@ == f(before[j]@));
                lemma_place(after, j);
                lemma_place(before, j);
            }
            assert(states_by_market(after) =~= m);
        }
    }

    /// Halt a specific market. A market that is halted keeps the reason it has.
    pub fn halt_market(&mut self, condition_id: &str, reason: &str) -> (r: HaltMarketResult)
        requires
            old(self).well_formed(),
        ensures
            final(self).well_formed(),
            final(self).limits() == old(self).limits(),
            final(self)@ == old(self)@.halted(condition_id@, reason@),
            r.newly_halted == !old(self)@.is_halted(condition_id@),
            r.canonical_reason@ == match final(self)@.markets[condition_id@].halt_reason {
                Some(kept) => kept,
                None => reason@,
            },
            opt_text(r.suppressed_reason) == if r.newly_halted {
                None
            } else {
                Some(reason@)
            },
    {
        let i: usize = self.entry(condition_id);
        if self.markets[i].halted {
            let canonical_reason = match &self.markets[i].halt_reason {
                Some(kept) => kept.clone(),
                None => reason.to_owned(),
            };
            return HaltMarketResult {
                newly_halted: false,
                canonical_reason,
                suppressed_reason: Some(reason.to_owned()),
            };
        }
        let state = &self.markets[i];
        let item = MarketRiskState {
            condition_id: condition_id.to_owned(),
            halted: true,
            halt_reason: Some(reason.to_owned()),
            unhedged_since: state.unhedged_since,
            total_exposure: state.total_exposure,
        };
        proof {
            lemma_replaced(self.markets@, i as int, item);
        }
        self.markets.set(i, item);
        proof {
            assert(self@.markets =~= old(self)@.markets.insert(condition_id@, item@));
        }
        HaltMarketResult {
            newly_halted: true,
            canonical_reason: reason.to_owned(),
            suppressed_reason: None,
        }
    }

    /// Resume a halted market.
    pub fn resume_market(&mut self, condition_id: &str)
        requires
            old(self).well_formed(),
        ensures
            final(self).well_formed(),
            final(self).limits() == old(self).limits(),
            final(self)@ == old(self)@.resumed(condition_id@),
    {
        match self.position_of(condition_id) {
            Some(i) => {
                let state = &self.markets[i];
                let item = MarketRiskState {
                    condition_id: condition_id.to_owned(),
                    halted: false,
                    halt_reason: None,
                    unhedged_since: state.unhedged_since,
                    total_exposure: state.total_exposure,
                };
                proof {
                    lemma_place(self.markets@, i as int);
                    lemma_replaced(self.markets@, i as int, item);
                }
                self.markets.set(i, item);
            },
            None => {},
        }
    }

    /// Global halt: stops all trading.
    pub fn global_halt(&mut self, _reason: &str)
        requires
            old(self).well_formed(),
        ensures
            final(self).well_formed(),
            final(self).limits() == old(self).limits(),
            final(self)@ == (RiskView { global_halt: true, ..old(self)@ }),
    {
        self.halted = true;
    }

    /// Check if the system is globally halted.
    pub fn is_globally_halted(&self) -> (r: bool)
        ensures
            r == self@.global_halt,
    {
        self.halted
    }

    /// Get risk state for all markets.
    pub fn get_all_states(&self) -> (r: Vec<MarketRiskState>)
        requires
            self.well_formed(),
        ensures
            distinct_markets(r@),
            states_by_market(r@) == self@.markets,
    {
        let mut r: Vec<MarketRiskState> = Vec::new();
        let mut i: usize = 0;
        while i < self.markets.len()
            invariant
                i <= self.markets@.len(),
                r@.len() == i,
                forall|j: int| 0 <= j < i ==> (#[trigger] r@[j])@ == self.markets@[j]@,
            decreases self.markets@.len() - i,
        {
            r.push(self.markets[i].clone());
            i += 1;
        }
        proof {
            lemma_same_states(self.markets@, r@);
        }
        r
    }

    pub fn get_market_state(&self, condition_id: &str) -> (r: Option<MarketRiskState>)
        requires
            self.well_formed(),
        ensures
            match r {
                Some(state) => self@.markets.contains_key(condition_id@) && state@
                    == self@.markets[condition_id@],
                None => !self@.markets.contains_key(condition_id@),
            },
    {
        match self.position_of(condition_id) {
            Some(i) => {
                proof {
                    lemma_place(self.markets@, i as int);
                }
                Some(self.markets[i].clone())
            },
            None => None,
        }
    }

    /// Pre-trade check: validate that an order is within risk limits.
    /// `hedge_cost`: Some(price * size) for BUY hedges (USDC needed), None for SELL hedges.
    /// `is_hedge`: true when this order is an offsetting hedge.
    pub fn pre_trade_check(
        &self,
        condition_id: &str,
        order_size: Decimal,
        hedge_cost: Option<Decimal>,
        is_hedge: bool,
        available_balance_override: Option<Decimal>,
    ) -> (r: Result<(), String>)
        requires
            self.well_formed(),
        ensures
            match r {
                Ok(_) => self@.objection(
                    condition_id@,
                    hedge_cost,
                    available_balance_override,
                ) is None,
                Err(why) => self@.objection(condition_id@, hedge_cost, available_balance_override)
                    == Some(why@),
            },
    {
        if self.halted {
            return Err("Global halt is active".to_owned());
        }
        match self.position_of(condition_id) {
            Some(i) => {
                proof {
                    lemma_place(self.markets@, i as int);
                }
                if self.markets[i].halted {
                    let why = match &self.markets[i].halt_reason {
                        Some(reason) => join2("Market halted: ", reason.as_str()),
                        None => join2("Market halted: ", "unknown"),
                    };
                    return Err(why);
                }
            },
            None => {},
        }
        match hedge_cost {
            Some(cost) => {
                let balance = match available_balance_override {
                    Some(balance) => balance,
                    None => self.cached_balance,
                };
                if balance < cost {
                    let mut why = join2(
                        "Insufficient balance for hedge: need ",
                        cost.to_text().as_str(),
                    );
                    why.append(" USDC, have ");
                    why.append(balance.to_text().as_str());
                    return Err(why);
                }
            },
            None => {},
        }
        Ok(())
    }
}

proof fn lemma_same_states(s: Seq<MarketRiskState>, t: Seq<MarketRiskState>)
    requires
        distinct_markets(s),
        s.len() == t.len(),
        forall|j: int| 0 <= j < s.len() ==> (#[trigger] t[j])@ == s[j]@,
    ensures
        distinct_markets(t),
        states_by_market(t) == states_by_market(s),
{
    assert forall|j: int, k: int| 0 <= j < k < t.len() implies (#[trigger] t[j]).condition_id@ != (
    #[trigger] t[k]).condition_id@ by {
        assert(t[j]@ == s[j]@ && t[k]@ == s[k]@);
        assert(s[j].condition_id@ != s[k].condition_id@);
    }
    let m = states_by_market(s);
    assert forall|id: Seq<char>| lists_market(t, id) == m.contains_key(id) by {
        if lists_market(t, id) {
            let j = place_of(t, id);
            assert(t[j]@ == s[j]@);
            assert(s[j].condition_id@ == id);
        }
        if lists_market(s, id) {
            let j = place_of(s, id);
            assert(t[j]@ == s[j]@);
            assert(t[j].condition_id@ == id);
        }
    }
    assert forall|id: Seq<char>| #[trigger]
        m.contains_key(id) implies states_by_market(t)[id] == m[id] by {
        assert(lists_market(t, id));
        let j = place_of(t, id);
        assert(t[j]@ == s[j]@);
        lemma_place(t, j);
        lemma_place(s, j);
    }
    assert(states_by_market(t) =~= m);
}

/// A market that is halted stays untradable, under the reason it was halted for first, whatever
/// halts, exposures and timeouts follow, until it is resumed.
pub proof fn law_first_halt_reason_stays(
    v: RiskView,
    id: Seq<char>,
    reason: Seq<char>,
    other: Seq<char>,
    later: Seq<char>,
    exposure: int,
    tolerance: int,
    timeout_secs: int,
    now: int,
)
    requires
        !v.is_halted(id),
    ensures
        ({
            let h = v.halted(id, reason);
            let first = Some(reason);
            &&& !h.tradable(id) && h.markets[id].halt_reason == first
            &&& h.halted(other, later).markets[id].halt_reason == first
            &&& !h.halted(other, later).tradable(id)
            &&& h.exposure_seen(other, exposure, tolerance, now).markets[id].halt_reason == first
            &&& !h.exposure_seen(other, exposure, tolerance, now).tradable(id)
            &&& h.timeouts_checked(timeout_secs, now).markets[id].halt_reason == first
            &&& !h.timeouts_checked(timeout_secs, now).tradable(id)
        }),
{
}

/// Resuming a market undoes its halt: without a global halt it can be traded again.
pub proof fn law_resume_undoes_halt(v: RiskView, id: Seq<char>, reason: Seq<char>)
    requires
        !v.global_halt,
    ensures
        v.halted(id, reason).resumed(id).tradable(id),
        v.halted(id, reason).resumed(id).markets[id].halt_reason is None,
{
}

/// Halting or resuming one market leaves all others as they are.
pub proof fn law_halts_are_per_market(
    v: RiskView,
    id: Seq<char>,
    other: Seq<char>,
    reason: Seq<char>,
)
    requires
        id != other,
    ensures
        v.halted(id, reason).tradable(other) == v.tradable(other),
        v.resumed(id).tradable(other) == v.tradable(other),
{
}

/// Under a global halt no market can be traded and no order passes, and nothing ends it.
pub proof fn law_global_halt_blocks_all(
    v: RiskView,
    id: Seq<char>,
    other: Seq<char>,
    hedge_cost: Option<Decimal>,
    available: Option<Decimal>,
)
    requires
        v.global_halt,
    ensures
        !v.tradable(id),
        v.objection(id, hedge_cost, available) is Some,
        v.resumed(other).global_halt,
{
}

/// A market that cannot be traded accepts no order; one that can accepts every order without a
/// hedge cost.
pub proof fn law_untradable_means_refused(
    v: RiskView,
    id: Seq<char>,
    hedge_cost: Option<Decimal>,
    available: Option<Decimal>,
)
    ensures
        !v.tradable(id) ==> v.objection(id, hedge_cost, available) is Some,
        v.tradable(id) && hedge_cost is None ==> v.objection(id, hedge_cost, available) is None,
{
}

} // verus!
