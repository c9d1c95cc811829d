//! Why a probe does not start, in words.

use crate::decimal::Decimal;
use crate::models::Outcome;
use crate::runtime::hedge_live_probe::preflight::{
    find_token, token_of, Market, PreflightError,
};
use crate::runtime::hedge_live_probe::LiveProbeMarket;
use crate::text::{
    bool_chars, bool_text, count_chars, count_text, join2, join_texts, joined, listed_if,
    push_text, texts,
};
use vstd::prelude::*;
use vstd::string::*;

verus! {

/// Where discovery disagrees with the scenario, one by one.
pub open spec fn mismatch_chars(
    market: LiveProbeMarket,
    live: Market,
    yes_token: bool,
    no_token: bool,
    tick_size: bool,
    neg_risk: bool,
) -> Seq<Seq<char>> {
    listed_if(
        yes_token,
        mismatch("yes_token_id"@, market.yes_token_id@, token_of(live.tokens@, Outcome::Yes)),
    ) + listed_if(
        no_token,
        mismatch("no_token_id"@, market.no_token_id@, token_of(live.tokens@, Outcome::No)),
    ) + listed_if(
        tick_size,
        mismatch("tick_size"@, market.tick_size@, live.minimum_tick_size@),
    ) + listed_if(
        neg_risk,
        mismatch("neg_risk"@, bool_chars(market.neg_risk), bool_chars(live.neg_risk)),
    )
}

pub open spec fn mismatch(name: Seq<char>, ours: Seq<char>, theirs: Seq<char>) -> Seq<char> {
    name + " mismatch: scenario="@ + ours + ", discovery="@ + theirs
}

fn push_mismatch(lines: &mut Vec<String>, differs: bool, name: &str, ours: &str, theirs: &str)
    ensures
        texts(final(lines)@) == texts(old(lines)@) + listed_if(
            differs,
            mismatch(name@, ours@, theirs@),
        ),
{
    let ghost before = texts(lines@);
    if differs {
        let mut line = join2(name, " mismatch: scenario=");
        line.append(ours);
        line.append(", discovery=");
        line.append(theirs);
        push_text(lines, line);
    } else {
        assert(before + listed_if(false, mismatch(name@, ours@, theirs@)) =~= before);
    }
}

/// A figure that exceeds its limit.
pub open spec fn excess_chars(
    name: Seq<char>,
    value: Decimal,
    limit_name: Seq<char>,
    limit: Decimal,
) -> Seq<char> {
    "live probe aborted: "@ + name + " "@ + value.text_spec() + " exceeded "@ + limit_name + " "@
        + limit.text_spec()
}

fn excess_text(name: &str, value: Decimal, limit_name: &str, limit: Decimal) -> (r: String)
    ensures
        r@ == excess_chars(name@, value, limit_name@, limit),
{
    let mut r = join2("live probe aborted: ", name);
    r.append(" ");
    r.append(value.to_text().as_str());
    r.append(" exceeded ");
    r.append(limit_name);
    r.append(" ");
    r.append(limit.to_text().as_str());
    r
}

impl PreflightError {
    /// Why a probe on `market` does not start. `live` is the market as discovery lists it.
    pub open spec fn message_chars(self, market: LiveProbeMarket, live: Option<Market>) -> Seq<
        char,
    > {
        match self {
            PreflightError::MarketMismatch { yes_token, no_token, tick_size, neg_risk } =>
                "live probe aborted: discovery metadata disagreed with scenario for "@
                    + market.condition_id@ + ": "@ + joined(
                    match live {
                        Some(live) => mismatch_chars(
                            market,
                            live,
                            yes_token,
                            no_token,
                            tick_size,
                            neg_risk,
                        ),
                        None => Seq::empty(),
                    },
                    "; "@,
                ),
            PreflightError::OpenOrders(n) => "live probe aborted: target market "@
                + market.condition_id@ + " has "@ + count_chars(n as nat)
                + " existing open orders"@,
            PreflightError::Inventory { yes, no } => "live probe aborted: target market "@
                + market.condition_id@ + " has existing inventory (yes="@ + yes.text_spec()
                + ", no="@ + no.text_spec() + ")"@,
            PreflightError::UnsupportedLeg(_) =>
                "live probe trigger creation currently only supports synthetic BUY triggers for YesBid/NoBid; ask-leg probes require pre-owned inventory and are outside the accepted probe scaffolding"@,
            PreflightError::TickSize => "Invalid tick_size: "@ + market.tick_size@,
            PreflightError::NoAskLiquidity =>
                "live probe aborted: trigger book had no ask liquidity"@,
            PreflightError::TriggerLimitPrice { derived, max } => excess_chars(
                "derived trigger_limit_price"@,
                derived,
                "trigger.max_trigger_limit_price"@,
                max,
            ),
            PreflightError::TriggerNotional { notional, max } => excess_chars(
                "trigger_notional_usdc"@,
                notional,
                "safety.max_trigger_notional_usdc"@,
                max,
            ),
            PreflightError::HedgeShares { planned, max } => excess_chars(
                "planned_hedge_shares"@,
                planned,
                "safety.max_planned_hedge_shares"@,
                max,
            ),
            PreflightError::SellbackShares { planned, max } => excess_chars(
                "planned_sellback_shares"@,
                planned,
                "safety.max_planned_sellback_shares"@,
                max,
            ),
            PreflightError::HedgeNotional { planned, max } => excess_chars(
                "planned_hedge_notional_usdc"@,
                planned,
                "safety.max_planned_hedge_notional_usdc"@,
                max,
            ),
            PreflightError::OutOfRange =>
                "live probe aborted: some number is too large to reckon with"@,
        }
    }

    /// Why a probe on `market` does not start, in words.
    pub fn message(&self, market: &LiveProbeMarket, live: Option<&Market>) -> (r: String)
        ensures
            r@ == self.message_chars(
                *market,
                match live {
                    Some(live) => Some(*live),
                    None => None,
                },
            ),
    {
        match self {
            PreflightError::MarketMismatch { yes_token, no_token, tick_size, neg_risk } => {
                let mut lines: Vec<String> = Vec::new();
                assert(texts(lines@) =~= Seq::empty());
                match live {
                    Some(live) => {
                        let live_yes = find_token(&live.tokens, Outcome::Yes);
                        let live_no = find_token(&live.tokens, Outcome::No);
                        push_mismatch(
                            &mut lines,
                            *yes_token,
                            "yes_token_id",
                            market.yes_token_id.as_str(),
                            live_yes.as_str(),
                        );
                        push_mismatch(
                            &mut lines,
                            *no_token,
                            "no_token_id",
                            market.no_token_id.as_str(),
                            live_no.as_str(),
                        );
                        push_mismatch(
                            &mut lines,
                            *tick_size,
                            "tick_size",
                            market.tick_size.as_str(),
                            live.minimum_tick_size.as_str(),
                        );
                        push_mismatch(
                            &mut lines,
                            *neg_risk,
                            "neg_risk",
                            bool_text(market.neg_risk),
                            bool_text(live.neg_risk),
                        );
                        assert(texts(lines@) =~= mismatch_chars(
                            *market,
                            *live,
                            *yes_token,
                            *no_token,
                            *tick_size,
                            *neg_risk,
                        ));
                    },
                    None => {},
                }
                let mut r = join2(
                    "live probe aborted: discovery metadata disagreed with scenario for ",
                    market.condition_id.as_str(),
                );
                r.append(": ");
                r.append(join_texts(&lines, "; ").as_str());
                r
            },
            PreflightError::OpenOrders(n) => {
                let mut r = join2(
                    "live probe aborted: target market ",
                    market.condition_id.as_str(),
                );
                r.append(" has ");
                r.append(count_text(*n as u64).as_str());
                r.append(" existing open orders");
                r
            },
            PreflightError::Inventory { yes, no } => {
                let mut r = join2(
                    "live probe aborted: target market ",
                    market.condition_id.as_str(),
                );
                r.append(" has existing inventory (yes=");
                r.append(yes.to_text().as_str());
                r.append(", no=");
                r.append(no.to_text().as_str());
                r.append(")");
                r
            },
            PreflightError::UnsupportedLeg(_) =>
                "live probe trigger creation currently only supports synthetic BUY triggers for YesBid/NoBid; ask-leg probes require pre-owned inventory and are outside the accepted probe scaffolding".to_owned(),
            PreflightError::TickSize => join2("Invalid tick_size: ", market.tick_size.as_str()),
            PreflightError::NoAskLiquidity =>
                "live probe aborted: trigger book had no ask liquidity".to_owned(),
            PreflightError::TriggerLimitPrice { derived, max } => excess_text(
                "derived trigger_limit_price",
                *derived,
                "trigger.max_trigger_limit_price",
                *max,
            ),
            PreflightError::TriggerNotional { notional, max } => excess_text(
                "trigger_notional_usdc",
                *notional,
                "safety.max_trigger_notional_usdc",
                *max,
            ),
            PreflightError::HedgeShares { planned, max } => excess_text(
                "planned_hedge_shares",
                *planned,
                "safety.max_planned_hedge_shares",
                *max,
            ),
            PreflightError::SellbackShares { planned, max } => excess_text(
                "planned_sellback_shares",
                *planned,
                "safety.max_planned_sellback_shares",
                *max,
            ),
            PreflightError::HedgeNotional { planned, max } => excess_text(
                "planned_hedge_notional_usdc",
                *planned,
                "safety.max_planned_hedge_notional_usdc",
                *max,
            ),
            PreflightError::OutOfRange =>
                "live probe aborted: some number is too large to reckon with".to_owned(),
        }
    }
}

} // verus!
