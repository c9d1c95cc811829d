//! Market data, orders and positions as plain values.

use crate::decimal::{difference, difference_fits, is_rounding, max_of, max_value, Decimal};
use crate::text::{clone_opt_text, clone_texts, texts};
use crate::time::Timestamp;
use vstd::prelude::*;

pub mod book;
pub mod events;

verus! {

/// Direction of an order.
#[derive(Clone, Copy, Debug, PartialEq, Eq, Structural)]
pub enum Side {
    Buy,
    Sell,
}

/// The two tokens of a market.
#[derive(Clone, Copy, Debug, PartialEq, Eq, Structural)]
pub enum Outcome {
    Yes,
    No,
}

#[derive(Clone, Copy, Debug, PartialEq, Eq, Structural)]
pub enum OrderType {
    GTC,
    GTD,
    FOK,
    FAK,
}

#[derive(Clone, Copy, Debug, PartialEq, Eq, Structural)]
pub enum OrderStatus {
    Live,
    Matched,
    Delayed,
    Cancelled,
    Invalid,
}

/// What the size of an order request counts.
#[derive(Clone, Copy, Debug, PartialEq, Eq, Structural)]
pub enum OrderAmountKind {
    Shares,
    UsdcNotional,
}

/// One of the four quotes a market maker can rest in a market.
#[derive(Clone, Copy, Debug, PartialEq, Eq, Structural)]
pub enum QuoteLeg {
    YesBid,
    YesAsk,
    NoBid,
    NoAsk,
}

impl QuoteLeg {
    pub open spec fn bids(self) -> bool {
        self == QuoteLeg::YesBid || self == QuoteLeg::NoBid
    }

    pub fn is_bid(self) -> (r: bool)
        ensures
            r == self.bids(),
    {
        match self {
            QuoteLeg::YesBid | QuoteLeg::NoBid => true,
            QuoteLeg::YesAsk | QuoteLeg::NoAsk => false,
        }
    }

    pub fn is_ask(self) -> (r: bool)
        ensures
            r == !self.bids(),
    {
        !self.is_bid()
    }
}

/// Price and size resting at one level of an order book.
#[derive(Clone, Copy, Debug, PartialEq)]
pub struct PriceLevel {
    pub price: Decimal,
    pub size: Decimal,
}

/// The asks and bids of one token.
#[derive(Debug)]
pub struct OrderBookSnapshot {
    pub token_id: String,
    pub bids: Vec<PriceLevel>,
    pub asks: Vec<PriceLevel>,
}

/// What the exchange answered to an order placement.
#[derive(Clone, Debug)]
pub struct OrderResult {
    pub order_id: String,
    pub status: OrderStatus,
    pub trade_ids: Vec<String>,
    pub transaction_hashes: Vec<String>,
    pub taking_amount: Option<Decimal>,
}

/// An order to be signed and sent.
#[derive(Clone, Debug)]
pub struct OrderRequest {
    pub token_id: String,
    pub price: Decimal,
    pub size: Decimal,
    pub amount_kind: OrderAmountKind,
    pub side: Side,
    pub order_type: OrderType,
    pub post_only: bool,
    pub neg_risk: bool,
    pub tick_size: String,
}

/// An order as the exchange reports it.
#[derive(Clone, Debug)]
pub struct LiveOrder {
    pub id: String,
    pub condition_id: String,
    pub asset_id: String,
    pub side: Side,
    pub price: Decimal,
    pub original_size: Decimal,
    pub size_matched: Decimal,
    pub outcome: Outcome,
    pub order_type: OrderType,
    pub status: OrderStatus,
    /// Seconds since the epoch.
    pub created_at: Timestamp,
    pub associated_trade_ids: Vec<String>,
}

pub struct LiveOrderView {
    pub id: Seq<char>,
    pub condition_id: Seq<char>,
    pub asset_id: Seq<char>,
    pub side: Side,
    pub price: int,
    pub original_size: int,
    pub size_matched: int,
    pub outcome: Outcome,
    pub order_type: OrderType,
    pub status: OrderStatus,
    pub created_at: Timestamp,
    pub associated_trade_ids: Seq<Seq<char>>,
}

impl View for LiveOrder {
    type V = LiveOrderView;

    open spec fn view(&self) -> LiveOrderView {
        LiveOrderView {
            id: self.id@,
            condition_id: self.condition_id@,
            asset_id: self.asset_id@,
            side: self.side,
            price: self.price@,
            original_size: self.original_size@,
            size_matched: self.size_matched@,
            outcome: self.outcome,
            order_type: self.order_type,
            status: self.status,
            created_at: self.created_at,
            associated_trade_ids: texts(self.associated_trade_ids@),
        }
    }
}

impl LiveOrder {
    /// The trades of the order, if any are known.
    pub fn associated_trade_ids(&self) -> (r: Option<Vec<String>>)
        ensures
            match r {
                Some(ids) => texts(ids@) == self@.associated_trade_ids && ids@.len() > 0,
                None => self@.associated_trade_ids.len() == 0,
            },
    {
        if self.associated_trade_ids.len() == 0 {
            None
        } else {
            Some(clone_texts(&self.associated_trade_ids))
        }
    }

    /// No share of the order is left to be matched.
    pub fn is_fully_filled(&self) -> (r: bool)
        ensures
            r == (self.size_matched@ >= self.original_size@),
    {
        self.size_matched >= self.original_size
    }

    /// Shares of the order that have not been matched.
    pub fn remaining_size(&self) -> (r: Decimal)
        requires
            -max_value() <= self.original_size@ - self.size_matched@ <= max_value(),
        ensures
            r@ == difference(self.original_size@, self.size_matched@),
            is_rounding(r@, self.original_size@ - self.size_matched@, 1),
    {
        self.original_size.minus(self.size_matched)
    }
}

#[derive(Clone, Copy, Debug, PartialEq, Eq, Structural)]
pub enum QuoteStatus {
    Approved,
    Rejected,
    SimulatedOnly,
    Suppressed,
}

/// A quote that the strategy proposes for one leg.
#[derive(Debug)]
pub struct QuoteCandidate {
    pub condition_id: String,
    pub leg: QuoteLeg,
    pub price: Decimal,
    pub size: Decimal,
    pub status: QuoteStatus,
    pub reason: Option<String>,
}

impl Clone for QuoteCandidate {
    fn clone(&self) -> (r: QuoteCandidate)
        ensures
            r == *self,
    {
        QuoteCandidate {
            condition_id: self.condition_id.clone(),
            leg: self.leg,
            price: self.price,
            size: self.size,
            status: self.status,
            reason: clone_opt_text(&self.reason),
        }
    }
}

/// The quotes that the strategy proposes for a market.
#[derive(Debug)]
pub struct QuoteSet {
    pub condition_id: String,
    pub candidates: Vec<QuoteCandidate>,
}

/// Terms of the liquidity rewards of a market.
#[derive(Debug)]
pub struct RewardConfig {
    pub condition_id: String,
    pub daily_reward_rates: Vec<Decimal>,
    pub daily_reward_total: Decimal,
    pub min_size: Decimal,
    pub max_spread: Decimal,
}

#[derive(Clone, Copy, Debug, PartialEq, Eq, Structural)]
pub enum MarketStatus {
    Admitted,
    Rejected,
}

/// A market that quotes may be placed in.
#[derive(Debug)]
pub struct CanonicalMarket {
    pub condition_id: String,
    pub market_slug: String,
    pub question: String,
    pub yes_token_id: String,
    pub no_token_id: String,
    pub reward_config: RewardConfig,
    pub neg_risk: bool,
    pub tick_size: String,
    pub end_date: Option<Timestamp>,
    /// Seconds since the epoch.
    pub admitted_at: Timestamp,
    pub status: MarketStatus,
}

/// Why an order was cancelled.
#[derive(Clone, Copy, Debug, PartialEq, Eq, Structural)]
pub enum CancelReasonCode {
    QuoteDrift,
    RiskHalt,
    HedgeDepthPartialDownsize,
}

/// Shares held of the two tokens of a market.
#[derive(Debug)]
pub struct Position {
    pub condition_id: String,
    pub yes_size: Decimal,
    pub no_size: Decimal,
    pub avg_yes_price: Decimal,
    pub avg_no_price: Decimal,
}

impl Clone for Position {
    fn clone(&self) -> (r: Position)
        ensures
            r == *self,
    {
        Position {
            condition_id: self.condition_id.clone(),
            yes_size: self.yes_size,
            no_size: self.no_size,
            avg_yes_price: self.avg_yes_price,
            avg_no_price: self.avg_no_price,
        }
    }
}

impl Position {
    /// The two sizes differ by no more than a decimal can hold.
    pub open spec fn comparable(self) -> bool {
        -max_value() <= self.yes_size@ - self.no_size@ <= max_value()
    }

    /// Shares of YES beyond those of NO.
    pub open spec fn exposure(self) -> int {
        difference(self.yes_size@, self.no_size@)
    }

    /// YES shares that are not paired with NO shares.
    pub open spec fn unpaired_yes(self) -> int {
        max_of(difference(self.yes_size@, self.no_size@), 0)
    }

    /// NO shares that are not paired with YES shares.
    pub open spec fn unpaired_no(self) -> int {
        max_of(difference(self.no_size@, self.yes_size@), 0)
    }

    /// A position without shares.
    pub fn new(condition_id: String) -> (r: Position)
        ensures
            r.condition_id == condition_id,
            r.yes_size@ == 0,
            r.no_size@ == 0,
            r.avg_yes_price@ == 0,
            r.avg_no_price@ == 0,
    {
        Position {
            condition_id,
            yes_size: Decimal::zero(),
            no_size: Decimal::zero(),
            avg_yes_price: Decimal::zero(),
            avg_no_price: Decimal::zero(),
        }
    }

    /// Shares of YES beyond those of NO.
    pub fn net_exposure(&self) -> (r: Decimal)
        requires
            self.comparable(),
        ensures
            r@ == self.exposure(),
    {
        self.yes_size.minus(self.no_size)
    }

    /// YES shares that are not paired with NO shares, unless they are too many.
    pub fn sellable_yes(&self) -> (r: Option<Decimal>)
        ensures
            r is Some == difference_fits(self.yes_size@, self.no_size@),
            r matches Some(shares) ==> shares@ == self.unpaired_yes(),
    {
        Some(self.yes_size.checked_minus(self.no_size)?.max(Decimal::zero()))
    }

    /// NO shares that are not paired with YES shares, unless they are too many.
    pub fn sellable_no(&self) -> (r: Option<Decimal>)
        ensures
            r is Some == difference_fits(self.no_size@, self.yes_size@),
            r matches Some(shares) ==> shares@ == self.unpaired_no(),
    {
        Some(self.no_size.checked_minus(self.yes_size)?.max(Decimal::zero()))
    }

    pub fn has_yes_inventory(&self, size: Decimal) -> (r: bool)
        ensures
            r == (self.yes_size@ >= size@),
    {
        self.yes_size >= size
    }

    pub fn has_no_inventory(&self, size: Decimal) -> (r: bool)
        ensures
            r == (self.no_size@ >= size@),
    {
        self.no_size >= size
    }
}

/// Only one side of a position is unpaired, by as many shares as it is beyond the other; and that is
/// the exposure, counted from the YES side.
pub proof fn law_one_side_is_unpaired(p: Position)
    requires
        crate::decimal::representable(p.yes_size@ - p.no_size@),
        crate::decimal::representable(p.no_size@ - p.yes_size@),
    ensures
        p.exposure() == p.yes_size@ - p.no_size@,
        p.unpaired_yes() - p.unpaired_no() == p.yes_size@ - p.no_size@,
        p.unpaired_yes() == 0 || p.unpaired_no() == 0,
        p.unpaired_yes() >= 0 && p.unpaired_no() >= 0,
{
}

} // verus!
