//! What the account's event stream reports.

use crate::decimal::Decimal;
use crate::models::Side;
use crate::text::opt_text;
use crate::time::Timestamp;
use vstd::prelude::*;

verus! {

#[derive(Clone, Copy, Debug, PartialEq, Eq, Structural)]
pub enum TradeStatus {
    Matched,
    Mined,
    Confirmed,
    Retrying,
    Failed,
}

/// A trade of one of our orders.
#[derive(Clone, Debug)]
pub struct TradeEvent {
    pub id: String,
    pub condition_id: String,
    pub asset_id: String,
    pub side: Side,
    pub price: Decimal,
    pub size: Decimal,
    pub outcome: String,
    pub status: TradeStatus,
    pub timestamp: Timestamp,
    pub maker_order_id: Option<String>,
    pub taker_order_id: Option<String>,
}

pub struct TradeView {
    pub id: Seq<char>,
    pub condition_id: Seq<char>,
    pub asset_id: Seq<char>,
    pub side: Side,
    pub price: int,
    pub size: int,
    pub outcome: Seq<char>,
    pub status: TradeStatus,
    pub timestamp: Timestamp,
    pub maker_order_id: Option<Seq<char>>,
    pub taker_order_id: Option<Seq<char>>,
}

impl View for TradeEvent {
    type V = TradeView;

    open spec fn view(&self) -> TradeView {
        TradeView {
            id: self.id@,
            condition_id: self.condition_id@,
            asset_id: self.asset_id@,
            side: self.side,
            price: self.price@,
            size: self.size@,
            outcome: self.outcome@,
            status: self.status,
            timestamp: self.timestamp,
            maker_order_id: opt_text(self.maker_order_id),
            taker_order_id: opt_text(self.taker_order_id),
        }
    }
}

pub open spec fn opt_trade(t: Option<TradeEvent>) -> Option<TradeView> {
    match t {
        Some(t) => Some(t@),
        None => None,
    }
}

#[derive(Clone, Copy, Debug, PartialEq, Eq, Structural)]
pub enum OrderEventType {
    Placement,
    Update,
    Cancellation,
}

/// A change of one of our orders.
#[derive(Clone, Debug)]
pub struct OrderEvent {
    pub order_id: String,
    pub condition_id: String,
    pub asset_id: String,
    pub event_type: OrderEventType,
    pub side: Side,
    pub price: Decimal,
    pub original_size: Decimal,
    pub size_matched: Decimal,
    pub outcome: String,
    pub timestamp: Timestamp,
}

pub struct OrderEventView {
    pub order_id: Seq<char>,
    pub condition_id: Seq<char>,
    pub asset_id: Seq<char>,
    pub event_type: OrderEventType,
    pub side: Side,
    pub price: int,
    pub original_size: int,
    pub size_matched: int,
    pub outcome: Seq<char>,
    pub timestamp: Timestamp,
}

impl View for OrderEvent {
    type V = OrderEventView;

    open spec fn view(&self) -> OrderEventView {
        OrderEventView {
            order_id: self.order_id@,
            condition_id: self.condition_id@,
            asset_id: self.asset_id@,
            event_type: self.event_type,
            side: self.side,
            price: self.price@,
            original_size: self.original_size@,
            size_matched: self.size_matched@,
            outcome: self.outcome@,
            timestamp: self.timestamp,
        }
    }
}

pub open spec fn opt_order_event(t: Option<OrderEvent>) -> Option<OrderEventView> {
    match t {
        Some(t) => Some(t@),
        None => None,
    }
}

/// What the stream of account events hands on.
#[derive(Clone, Debug)]
pub enum UserEvent {
    Connected { reconnect: bool },
    Disconnected,
    RawActivity,
    Trade(TradeEvent),
    Order(OrderEvent),
}

pub enum UserEventView {
    Connected(bool),
    Disconnected,
    RawActivity,
    Trade(TradeView),
    Order(OrderEventView),
}

impl View for UserEvent {
    type V = UserEventView;

    open spec fn view(&self) -> UserEventView {
        match self {
            UserEvent::Connected { reconnect } => UserEventView::Connected(*reconnect),
            UserEvent::Disconnected => UserEventView::Disconnected,
            UserEvent::RawActivity => UserEventView::RawActivity,
            UserEvent::Trade(t) => UserEventView::Trade(t@),
            UserEvent::Order(o) => UserEventView::Order(o@),
        }
    }
}

} // verus!
