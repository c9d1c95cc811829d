//! Operator-only paired live hedge probe.
//!
//! Acquires the trigger-side position live, then routes that real inventory
//! through the downstream hedge path before cleaning the market back to the
//! pre-probe baseline.

use crate::decimal::{decimal_of_text, Decimal};
use crate::models::{CanonicalMarket, MarketStatus, QuoteLeg, RewardConfig, Side};
use crate::text::{join2, same_text};
use crate::time::Timestamp;
use vstd::prelude::*;
use vstd::string::*;

pub mod abort;
pub mod cleanup;
pub mod laws;
pub mod preflight;
pub mod trigger;
pub mod verdict;

verus! {

pub const LIVE_PROBE_ARM_ENV: &'static str = "SPREADEATER_HEDGE_LIVE_PROBE_ARM";

pub const LIVE_PROBE_ARM_TOKEN: &'static str = "I_UNDERSTAND_REAL_ORDERS";

pub const TRIGGER_VERIFICATION_RETRIES: u64 = 6;

pub const TRIGGER_VERIFICATION_DELAY_MS: u64 = 250;

pub const CLEANUP_VERIFICATION_RETRIES: u64 = 8;

pub const CLEANUP_VERIFICATION_DELAY_MS: u64 = 250;

pub const CLEANUP_STABILIZATION_RETRIES_AFTER_TRIGGER: u64 = 12;

pub const CLEANUP_STABILIZATION_DELAY_MS: u64 = 500;

#[derive(Debug)]
pub struct HedgeLiveProbeScenario {
    pub name: String,
    pub description: String,
    pub market: LiveProbeMarket,
    pub trigger: LiveProbeTrigger,
    pub safety: LiveProbeSafety,
    pub expected: LiveProbeExpected,
}

#[derive(Debug)]
pub struct LiveProbeMarket {
    pub condition_id: String,
    pub question: Option<String>,
    pub yes_token_id: String,
    pub no_token_id: String,
    pub tick_size: String,
    pub neg_risk: bool,
}

#[derive(Clone, Copy, Debug)]
pub struct LiveProbeTrigger {
    pub leg: QuoteLeg,
    pub shares: Decimal,
    pub max_trigger_limit_price: Decimal,
}

#[derive(Clone, Copy, Debug)]
pub struct LiveProbeSafety {
    pub require_clean_market: bool,
    pub max_planned_hedge_shares: Decimal,
    pub max_planned_sellback_shares: Decimal,
    pub max_planned_hedge_notional_usdc: Decimal,
    pub max_post_sync_net_exposure: Decimal,
    pub max_trigger_notional_usdc: Decimal,
    pub max_cleanup_notional_usdc: Decimal,
}

#[derive(Clone, Copy, Debug, PartialEq, Eq, Structural)]
pub enum CleanupStatus {
    Merged,
    Flattened,
}

#[derive(Clone, Copy, Debug, PartialEq, Eq, Structural)]
pub enum ExpectedCleanupStatus {
    Merged,
    Flattened,
    MergedOrFlattened,
}

impl ExpectedCleanupStatus {
    /// Whether a cleanup went as expected.
    pub fn matches(self, actual: CleanupStatus) -> (r: bool)
        ensures
            r == (self == ExpectedCleanupStatus::MergedOrFlattened || (self
                == ExpectedCleanupStatus::Merged && actual == CleanupStatus::Merged) || (self
                == ExpectedCleanupStatus::Flattened && actual == CleanupStatus::Flattened)),
    {
        match self {
            ExpectedCleanupStatus::Merged => actual == CleanupStatus::Merged,
            ExpectedCleanupStatus::Flattened => actual == CleanupStatus::Flattened,
            ExpectedCleanupStatus::MergedOrFlattened => true,
        }
    }
}

/// What a scenario leaves unsaid of a yes-or-no setting.
pub fn default_true() -> (r: bool)
    ensures
        r,
{
    true
}

#[derive(Debug)]
pub struct LiveProbeExpected {
    pub success: bool,
    pub halted: bool,
    pub hedge_side: Option<Side>,
    pub critical_event_types: Vec<String>,
    pub max_planned_hedge_shares: Option<Decimal>,
    pub max_planned_sellback_shares: Option<Decimal>,
    pub max_post_sync_net_exposure: Option<Decimal>,
    pub result_status: Option<String>,
    pub hedge_leg_status: Option<String>,
    pub sellback_leg_status: Option<String>,
    /// Deprecated: kept for fixture backward compatibility.
    pub cleanup_status: Option<ExpectedCleanupStatus>,
    /// Deprecated: kept for fixture backward compatibility.
    pub clean_end_state: bool,
}

#[derive(Debug)]
pub struct LiveProbeEventSummary {
    pub event_type: String,
}

/// Waiting times and retries of a probe.
#[derive(Clone, Copy, Debug)]
pub struct LiveProbeRuntimeOptions {
    pub ws_event_timeout_ms: u64,
    pub ws_prewarm_delay_ms: u64,
    pub ws_ambiguous_trigger_grace_ms: u64,
    pub cleanup_stabilization_retries_after_trigger: u64,
    pub cleanup_stabilization_delay_ms: u64,
    pub cleanup_trigger_recovery_timeout_ms: u64,
    pub cleanup_trigger_recovery_poll_ms: u64,
}

impl Default for LiveProbeRuntimeOptions {
    fn default() -> (r: LiveProbeRuntimeOptions)
        ensures
            r.ws_event_timeout_ms == 8_000,
            r.ws_prewarm_delay_ms == 750,
            r.ws_ambiguous_trigger_grace_ms == 10_000,
            r.cleanup_stabilization_retries_after_trigger
                == CLEANUP_STABILIZATION_RETRIES_AFTER_TRIGGER,
            r.cleanup_stabilization_delay_ms == CLEANUP_STABILIZATION_DELAY_MS,
            r.cleanup_trigger_recovery_timeout_ms == 10_000,
            r.cleanup_trigger_recovery_poll_ms == 500,
    {
        LiveProbeRuntimeOptions {
            ws_event_timeout_ms: 8_000,
            ws_prewarm_delay_ms: 750,
            ws_ambiguous_trigger_grace_ms: 10_000,
            cleanup_stabilization_retries_after_trigger: CLEANUP_STABILIZATION_RETRIES_AFTER_TRIGGER,
            cleanup_stabilization_delay_ms: CLEANUP_STABILIZATION_DELAY_MS,
            cleanup_trigger_recovery_timeout_ms: 10_000,
            cleanup_trigger_recovery_poll_ms: 500,
        }
    }
}

impl LiveProbeRuntimeOptions {
    /// Short waiting times, for runs against a simulated exchange.
    pub fn new_for_tests() -> (r: LiveProbeRuntimeOptions)
        ensures
            r.ws_event_timeout_ms == 1_000,
            r.ws_prewarm_delay_ms == 1,
            r.ws_ambiguous_trigger_grace_ms == 250,
            r.cleanup_stabilization_retries_after_trigger == 3,
            r.cleanup_stabilization_delay_ms == 1,
            r.cleanup_trigger_recovery_timeout_ms == 20,
            r.cleanup_trigger_recovery_poll_ms == 5,
    {
        LiveProbeRuntimeOptions {
            ws_event_timeout_ms: 1_000,
            ws_prewarm_delay_ms: 1,
            ws_ambiguous_trigger_grace_ms: 250,
            cleanup_stabilization_retries_after_trigger: 3,
            cleanup_stabilization_delay_ms: 1,
            cleanup_trigger_recovery_timeout_ms: 20,
            cleanup_trigger_recovery_poll_ms: 5,
        }
    }
}

/// A probe places real orders: it runs only with the right token in its environment variable.
pub fn ensure_live_probe_armed(value: &str) -> (r: Result<(), String>)
    ensures
        r is Ok == (value@ == "I_UNDERSTAND_REAL_ORDERS"@),
        r is Err ==> (r->Err_0)@
            == "SPREADEATER_HEDGE_LIVE_PROBE_ARM must be set to I_UNDERSTAND_REAL_ORDERS before hedge-live-probe can place real orders"@,
{
    if same_text(value, "I_UNDERSTAND_REAL_ORDERS") {
        Ok(())
    } else {
        Err(
            "SPREADEATER_HEDGE_LIVE_PROBE_ARM must be set to I_UNDERSTAND_REAL_ORDERS before hedge-live-probe can place real orders".to_owned(),
        )
    }
}

/// The number that decimal digits write.
pub open spec fn digits_value(s: Seq<char>) -> nat
    decreases s.len(),
{
    if s.len() == 0 {
        0
    } else {
        digits_value(s.drop_last()) * 10 + (s.last() as nat - '0' as nat) as nat
    }
}

pub open spec fn is_digit(c: char) -> bool {
    '0' <= c <= '9'
}

/// A decimal number that fits in 256 bits.
pub open spec fn is_uint256_text(s: Seq<char>) -> bool {
    &&& s.len() > 0
    &&& forall|i: int| 0 <= i < s.len() ==> is_digit(#[trigger] s[i])
    &&& digits_value(s) < two_to_256()
}

pub open spec fn two_to_256() -> nat {
    0x1_0000_0000_0000_0000_0000_0000_0000_0000_0000_0000_0000_0000_0000_0000_0000_0000nat
}

proof fn lemma_digits_grow(s: Seq<char>, i: int)
    requires
        0 <= i <= s.len(),
        forall|k: int| 0 <= k < s.len() ==> is_digit(#[trigger] s[k]),
    ensures
        digits_value(s.take(i)) <= digits_value(s),
    decreases s.len(),
{
    if i < s.len() {
        assert(s.drop_last().take(i) =~= s.take(i));
        assert forall|k: int| 0 <= k < s.drop_last().len() implies is_digit(
            #[trigger] s.drop_last()[k],
        ) by {
            assert(s.drop_last()[k] == s[k]);
        }
        lemma_digits_grow(s.drop_last(), i);
    } else {
        assert(s.take(i) =~= s);
    }
}

/// Whether a token id can be signed: a decimal number that fits in 256 bits.
pub fn validate_token_id_uint256_str(text: &str) -> (r: bool)
    ensures
        r == is_uint256_text(text@),
{
    let ghost s = text@;
    let len: usize = text.unicode_len();
    if len == 0 {
        return false;
    }
    let mut a: u64 = 0;
    let mut b: u64 = 0;
    let mut c: u64 = 0;
    let mut d: u64 = 0;
    let mut fits: bool = true;
    let mut i: usize = 0;
    assert(s.take(0) =~= Seq::empty());
    while i < len
        invariant
            i <= len,
            len == s.len(),
            s == text@,
            forall|k: int| 0 <= k < i ==> is_digit(#[trigger] s[k]),
            fits ==> digits_value(s.take(i as int)) == a + b * 0x1_0000_0000_0000_0000 + c
                * 0x1_0000_0000_0000_0000_0000_0000_0000_0000 + d
                * 0x1_0000_0000_0000_0000_0000_0000_0000_0000_0000_0000_0000_0000,
            !fits ==> digits_value(s.take(i as int)) >= two_to_256(),
        decreases len - i,
    {
        let ch: char = text.get_char(i);
        if !('0' <= ch && ch <= '9') {
            assert(!is_digit(s[i as int]));
            return false;
        }
        let digit: u128 = (ch as u32 - '0' as u32) as u128;
        proof {
            assert(s.take(i + 1).drop_last() =~= s.take(i as int));
            assert(s.take(i + 1).last() == ch);
        }
        if fits {
            let w: u128 = a as u128 * 10 + digit;
            let x: u128 = b as u128 * 10 + w / 0x1_0000_0000_0000_0000;
            let y: u128 = c as u128 * 10 + x / 0x1_0000_0000_0000_0000;
            let z: u128 = d as u128 * 10 + y / 0x1_0000_0000_0000_0000;
            a = (w % 0x1_0000_0000_0000_0000) as u64;
            b = (x % 0x1_0000_0000_0000_0000) as u64;
            c = (y % 0x1_0000_0000_0000_0000) as u64;
            d = (z % 0x1_0000_0000_0000_0000) as u64;
            fits = z < 0x1_0000_0000_0000_0000;
        }
        i = i + 1;
    }
    assert(s.take(i as int) =~= s);
    fits
}

/// Why a scenario cannot be run.
#[derive(Clone, Copy, Debug, PartialEq, Eq, Structural)]
pub enum ScenarioError {
    YesTokenId,
    NoTokenId,
    TickSize,
    TriggerShares,
    TriggerLimitPrice,
    HedgeShares,
    SellbackShares,
    HedgeNotional,
    NetExposure,
    TriggerNotional,
    CleanupNotional,
}

impl ScenarioError {
    pub open spec fn text(self, tick_size: Seq<char>) -> Seq<char> {
        match self {
            ScenarioError::YesTokenId => "Scenario market.yes_token_id must be a valid uint256 decimal string for order signing"@,
            ScenarioError::NoTokenId => "Scenario market.no_token_id must be a valid uint256 decimal string for order signing"@,
            ScenarioError::TickSize => "Scenario market.tick_size is invalid: "@ + tick_size,
            ScenarioError::TriggerShares => "Scenario trigger.shares must be > 0"@,
            ScenarioError::TriggerLimitPrice => "Scenario trigger.max_trigger_limit_price must be > 0"@,
            ScenarioError::HedgeShares => "Scenario safety.max_planned_hedge_shares must be >= 0"@,
            ScenarioError::SellbackShares => "Scenario safety.max_planned_sellback_shares must be >= 0"@,
            ScenarioError::HedgeNotional => "Scenario safety.max_planned_hedge_notional_usdc must be >= 0"@,
            ScenarioError::NetExposure => "Scenario safety.max_post_sync_net_exposure must be >= 0"@,
            ScenarioError::TriggerNotional => "Scenario safety.max_trigger_notional_usdc must be >= 0"@,
            ScenarioError::CleanupNotional => "Scenario safety.max_cleanup_notional_usdc must be >= 0"@,
        }
    }

    /// The complaint in words, for a market with that tick size.
    pub fn message(self, tick_size: &str) -> (r: String)
        ensures
            r@ == self.text(tick_size@),
    {
        match self {
            ScenarioError::YesTokenId => "Scenario market.yes_token_id must be a valid uint256 decimal string for order signing".to_owned(),
            ScenarioError::NoTokenId => "Scenario market.no_token_id must be a valid uint256 decimal string for order signing".to_owned(),
            ScenarioError::TickSize => join2("Scenario market.tick_size is invalid: ", tick_size),
            ScenarioError::TriggerShares => "Scenario trigger.shares must be > 0".to_owned(),
            ScenarioError::TriggerLimitPrice => "Scenario trigger.max_trigger_limit_price must be > 0".to_owned(),
            ScenarioError::HedgeShares => "Scenario safety.max_planned_hedge_shares must be >= 0".to_owned(),
            ScenarioError::SellbackShares => "Scenario safety.max_planned_sellback_shares must be >= 0".to_owned(),
            ScenarioError::HedgeNotional => "Scenario safety.max_planned_hedge_notional_usdc must be >= 0".to_owned(),
            ScenarioError::NetExposure => "Scenario safety.max_post_sync_net_exposure must be >= 0".to_owned(),
            ScenarioError::TriggerNotional => "Scenario safety.max_trigger_notional_usdc must be >= 0".to_owned(),
            ScenarioError::CleanupNotional => "Scenario safety.max_cleanup_notional_usdc must be >= 0".to_owned(),
        }
    }
}

/// What is wrong with a market, if anything.
pub open spec fn market_error(market: LiveProbeMarket) -> Option<ScenarioError> {
    if !is_uint256_text(market.yes_token_id@) {
        Some(ScenarioError::YesTokenId)
    } else if !is_uint256_text(market.no_token_id@) {
        Some(ScenarioError::NoTokenId)
    } else if decimal_of_text(market.tick_size@) is None {
        Some(ScenarioError::TickSize)
    } else {
        None
    }
}

/// The first thing wrong with a scenario, if anything.
pub open spec fn scenario_error(scenario: HedgeLiveProbeScenario) -> Option<ScenarioError> {
    let safety = scenario.safety;
    match market_error(scenario.market) {
        Some(e) => Some(e),
        None => if scenario.trigger.shares@ <= 0 {
            Some(ScenarioError::TriggerShares)
        } else if scenario.trigger.max_trigger_limit_price@ <= 0 {
            Some(ScenarioError::TriggerLimitPrice)
        } else if safety.max_planned_hedge_shares@ < 0 {
            Some(ScenarioError::HedgeShares)
        } else if safety.max_planned_sellback_shares@ < 0 {
            Some(ScenarioError::SellbackShares)
        } else if safety.max_planned_hedge_notional_usdc@ < 0 {
            Some(ScenarioError::HedgeNotional)
        } else if safety.max_post_sync_net_exposure@ < 0 {
            Some(ScenarioError::NetExposure)
        } else if safety.max_trigger_notional_usdc@ < 0 {
            Some(ScenarioError::TriggerNotional)
        } else if safety.max_cleanup_notional_usdc@ < 0 {
            Some(ScenarioError::CleanupNotional)
        } else {
            None
        },
    }
}

pub fn validate_market(market: &LiveProbeMarket) -> (r: Result<(), ScenarioError>)
    ensures
        match market_error(*market) {
            Some(e) => r == Err::<(), ScenarioError>(e),
            None => r is Ok,
        },
{
    if !validate_token_id_uint256_str(market.yes_token_id.as_str()) {
        return Err(ScenarioError::YesTokenId);
    }
    if !validate_token_id_uint256_str(market.no_token_id.as_str()) {
        return Err(ScenarioError::NoTokenId);
    }
    if Decimal::parse(market.tick_size.as_str()).is_none() {
        return Err(ScenarioError::TickSize);
    }
    Ok(())
}

pub fn validate_scenario(scenario: &HedgeLiveProbeScenario) -> (r: Result<(), ScenarioError>)
    ensures
        match scenario_error(*scenario) {
            Some(e) => r == Err::<(), ScenarioError>(e),
            None => r is Ok,
        },
{
    match validate_market(&scenario.market) {
        Ok(_) => {},
        Err(e) => {
            return Err(e);
        },
    }
    let zero = Decimal::zero();
    let safety = &scenario.safety;
    if scenario.trigger.shares <= zero {
        return Err(ScenarioError::TriggerShares);
    }
    if scenario.trigger.max_trigger_limit_price <= zero {
        return Err(ScenarioError::TriggerLimitPrice);
    }
    if safety.max_planned_hedge_shares < zero {
        return Err(ScenarioError::HedgeShares);
    }
    if safety.max_planned_sellback_shares < zero {
        return Err(ScenarioError::SellbackShares);
    }
    if safety.max_planned_hedge_notional_usdc < zero {
        return Err(ScenarioError::HedgeNotional);
    }
    if safety.max_post_sync_net_exposure < zero {
        return Err(ScenarioError::NetExposure);
    }
    if safety.max_trigger_notional_usdc < zero {
        return Err(ScenarioError::TriggerNotional);
    }
    if safety.max_cleanup_notional_usdc < zero {
        return Err(ScenarioError::CleanupNotional);
    }
    Ok(())
}

pub open spec fn leg_is_yes(leg: QuoteLeg) -> bool {
    leg == QuoteLeg::YesBid || leg == QuoteLeg::YesAsk
}

/// Token that a leg trades.
pub fn token_id_for_leg(leg: QuoteLeg, market: &LiveProbeMarket) -> (r: String)
    ensures
        r@ == if leg_is_yes(leg) {
            market.yes_token_id@
        } else {
            market.no_token_id@
        },
{
    match leg {
        QuoteLeg::YesBid | QuoteLeg::YesAsk => market.yes_token_id.clone(),
        QuoteLeg::NoBid | QuoteLeg::NoAsk => market.no_token_id.clone(),
    }
}

/// Token that hedges a leg.
pub fn opposite_token_id_for_leg(leg: QuoteLeg, market: &LiveProbeMarket) -> (r: String)
    ensures
        r@ == if leg_is_yes(leg) {
            market.no_token_id@
        } else {
            market.yes_token_id@
        },
{
    match leg {
        QuoteLeg::YesBid | QuoteLeg::YesAsk => market.no_token_id.clone(),
        QuoteLeg::NoBid | QuoteLeg::NoAsk => market.yes_token_id.clone(),
    }
}

/// Outcome that a leg trades.
pub fn outcome_for_leg(leg: QuoteLeg) -> (r: &'static str)
    ensures
        r@ == if leg_is_yes(leg) {
            "YES"@
        } else {
            "NO"@
        },
{
    match leg {
        QuoteLeg::YesBid | QuoteLeg::YesAsk => "YES",
        QuoteLeg::NoBid | QuoteLeg::NoAsk => "NO",
    }
}

/// The market of a probe as the engine knows markets: admitted, without rewards.
pub fn build_canonical_market(market: &LiveProbeMarket, now: Timestamp) -> (r: CanonicalMarket)
    ensures
        r.condition_id@ == market.condition_id@,
        r.market_slug@ == market.condition_id@ + "-live-probe"@,
        r.question@ == match market.question {
            Some(question) => question@,
            None => "Live probe market "@ + market.condition_id@,
        },
        r.yes_token_id@ == market.yes_token_id@,
        r.no_token_id@ == market.no_token_id@,
        r.reward_config.condition_id@ == market.condition_id@,
        r.reward_config.daily_reward_rates@.len() == 0,
        r.reward_config.daily_reward_total@ == 0,
        r.reward_config.min_size@ == 0,
        r.reward_config.max_spread@ == 0,
        r.neg_risk == market.neg_risk,
        r.tick_size@ == market.tick_size@,
        r.end_date is None,
        r.admitted_at == now,
        r.status == MarketStatus::Admitted,
{
    CanonicalMarket {
        condition_id: market.condition_id.clone(),
        market_slug: join2(market.condition_id.as_str(), "-live-probe"),
        question: match &market.question {
            Some(question) => question.clone(),
            None => join2("Live probe market ", market.condition_id.as_str()),
        },
        yes_token_id: market.yes_token_id.clone(),
        no_token_id: market.no_token_id.clone(),
        reward_config: RewardConfig {
            condition_id: market.condition_id.clone(),
            daily_reward_rates: Vec::new(),
            daily_reward_total: Decimal::zero(),
            min_size: Decimal::zero(),
            max_spread: Decimal::zero(),
        },
        neg_risk: market.neg_risk,
        tick_size: market.tick_size.clone(),
        end_date: None,
        admitted_at: now,
        status: MarketStatus::Admitted,
    }
}

} // verus!
