//! Trades as the interfaces of the exchange write them.

use crate::decimal::{decimal_of_text, Decimal};
use crate::models::events::{opt_trade, TradeEvent, TradeStatus, TradeView};
use crate::models::Side;
use crate::text::{caseless, opt_text, same_ignoring_ascii_case, text_ignoring_case};
use crate::time::{parse_rfc3339, rfc3339_time, utc_now, Timestamp};
use vstd::prelude::*;

verus! {

/// The fields of a trade as texts.
#[derive(Debug)]
pub struct TradeEventInput {
    pub id: String,
    pub condition_id: String,
    pub asset_id: String,
    pub side: String,
    pub price: String,
    pub size: String,
    pub outcome: String,
    pub status: Option<String>,
    pub timestamp: Option<String>,
    pub maker_order_id: Option<String>,
    pub taker_order_id: Option<String>,
}

pub open spec fn side_of(text: Seq<char>) -> Option<Side> {
    if text_ignoring_case(text, "BUY"@) {
        Some(Side::Buy)
    } else if text_ignoring_case(text, "SELL"@) {
        Some(Side::Sell)
    } else {
        None
    }
}

/// The status that a text names, in whatever case; `Matched` where it names none.
pub open spec fn status_of(text: Option<Seq<char>>) -> TradeStatus {
    match text {
        Some(status) => if text_ignoring_case(status, "MATCHED"@) {
            TradeStatus::Matched
        } else if text_ignoring_case(status, "MINED"@) {
            TradeStatus::Mined
        } else if text_ignoring_case(status, "CONFIRMED"@) {
            TradeStatus::Confirmed
        } else if text_ignoring_case(status, "RETRYING"@) {
            TradeStatus::Retrying
        } else if text_ignoring_case(status, "FAILED"@) {
            TradeStatus::Failed
        } else {
            TradeStatus::Matched
        },
        None => TradeStatus::Matched,
    }
}

/// The time that a text names; the present where it names none.
pub open spec fn time_of(text: Option<Seq<char>>, now: Timestamp) -> Timestamp {
    match text {
        Some(raw) => match rfc3339_time(raw) {
            Some(t) => t,
            None => now,
        },
        None => now,
    }
}

/// The trade that the fields write: none without a side, or with a price or size that is no number.
pub open spec fn trade_of(input: TradeEventInput, now: Timestamp) -> Option<TradeView> {
    match (side_of(input.side@), decimal_of_text(input.price@), decimal_of_text(input.size@)) {
        (Some(side), Some(price), Some(size)) => Some(
            TradeView {
                id: input.id@,
                condition_id: input.condition_id@,
                asset_id: input.asset_id@,
                side,
                price,
                size,
                outcome: input.outcome@,
                status: status_of(opt_text(input.status)),
                timestamp: time_of(opt_text(input.timestamp), now),
                maker_order_id: opt_text(input.maker_order_id),
                taker_order_id: opt_text(input.taker_order_id),
            },
        ),
        _ => None,
    }
}

/// The trade that the fields write.
pub fn build_trade_event(input: TradeEventInput) -> (r: Option<TradeEvent>)
    ensures
        exists|now: Timestamp| opt_trade(r) == #[trigger] trade_of(input, now),
{
    let now = utc_now();
    build_trade_event_at(input, now)
}

/// The trade that the fields write, as read at `now`.
pub fn build_trade_event_at(input: TradeEventInput, now: Timestamp) -> (r: Option<TradeEvent>)
    ensures
        opt_trade(r) == trade_of(input, now),
{
    let side = match parse_trade_side(input.side.as_str()) {
        Some(side) => side,
        None => return None,
    };
    let price = match Decimal::parse(input.price.as_str()) {
        Some(price) => price,
        None => return None,
    };
    let size = match Decimal::parse(input.size.as_str()) {
        Some(size) => size,
        None => return None,
    };
    let status = match &input.status {
        Some(text) => parse_trade_status(Some(text.as_str())),
        None => parse_trade_status(None),
    };
    let timestamp = match &input.timestamp {
        Some(text) => parse_trade_timestamp(Some(text.as_str()), now),
        None => parse_trade_timestamp(None, now),
    };
    Some(
        TradeEvent {
            id: input.id,
            condition_id: input.condition_id,
            asset_id: input.asset_id,
            side,
            price,
            size,
            outcome: input.outcome,
            status,
            timestamp,
            maker_order_id: input.maker_order_id,
            taker_order_id: input.taker_order_id,
        },
    )
}

pub fn parse_trade_side(value: &str) -> (r: Option<Side>)
    ensures
        r == side_of(value@),
{
    if same_ignoring_ascii_case(value, "BUY") {
        Some(Side::Buy)
    } else if same_ignoring_ascii_case(value, "SELL") {
        Some(Side::Sell)
    } else {
        None
    }
}

pub open spec fn text_of(o: Option<&str>) -> Option<Seq<char>> {
    match o {
        Some(s) => Some(s@),
        None => None,
    }
}

pub fn parse_trade_status(value: Option<&str>) -> (r: TradeStatus)
    ensures
        r == status_of(text_of(value)),
{
    match value {
        Some(status) => if same_ignoring_ascii_case(status, "MATCHED") {
            TradeStatus::Matched
        } else if same_ignoring_ascii_case(status, "MINED") {
            TradeStatus::Mined
        } else if same_ignoring_ascii_case(status, "CONFIRMED") {
            TradeStatus::Confirmed
        } else if same_ignoring_ascii_case(status, "RETRYING") {
            TradeStatus::Retrying
        } else if same_ignoring_ascii_case(status, "FAILED") {
            TradeStatus::Failed
        } else {
            TradeStatus::Matched
        },
        None => TradeStatus::Matched,
    }
}

/// The time that a text names; `now` where it names none.
pub fn parse_trade_timestamp(value: Option<&str>, now: Timestamp) -> (r: Timestamp)
    ensures
        r == time_of(text_of(value), now),
{
    match value {
        Some(raw) => match parse_rfc3339(raw) {
            Some(t) => t,
            None => now,
        },
        None => now,
    }
}

/// The case of side and status makes no difference to the trade.
pub proof fn law_case_makes_no_difference(a: TradeEventInput, b: TradeEventInput, now: Timestamp)
    requires
        text_ignoring_case(a.side@, b.side@),
        match (a.status, b.status) {
            (Some(x), Some(y)) => text_ignoring_case(x@, y@),
            (None, None) => true,
            _ => false,
        },
        a.id@ == b.id@ && a.condition_id@ == b.condition_id@ && a.asset_id@ == b.asset_id@,
        a.price@ == b.price@ && a.size@ == b.size@ && a.outcome@ == b.outcome@,
        opt_text(a.timestamp) == opt_text(b.timestamp),
        opt_text(a.maker_order_id) == opt_text(b.maker_order_id),
        opt_text(a.taker_order_id) == opt_text(b.taker_order_id),
    ensures
        trade_of(a, now) == trade_of(b, now),
{
    lemma_same_reading(a.side@, b.side@, "BUY"@);
    lemma_same_reading(a.side@, b.side@, "SELL"@);
    if a.status is Some {
        let x = a.status->0@;
        let y = b.status->0@;
        lemma_same_reading(x, y, "MATCHED"@);
        lemma_same_reading(x, y, "MINED"@);
        lemma_same_reading(x, y, "CONFIRMED"@);
        lemma_same_reading(x, y, "RETRYING"@);
        lemma_same_reading(x, y, "FAILED"@);
    }
}

proof fn lemma_same_reading(a: Seq<char>, b: Seq<char>, c: Seq<char>)
    requires
        text_ignoring_case(a, b),
    ensures
        text_ignoring_case(a, c) == text_ignoring_case(b, c),
{
    if text_ignoring_case(a, c) {
        assert forall|i: int| 0 <= i < b.len() implies caseless(#[trigger] b[i]) == caseless(
            c[i],
        ) by {
            assert(caseless(a[i]) == caseless(b[i]));
        }
    }
    if text_ignoring_case(b, c) {
        assert forall|i: int| 0 <= i < a.len() implies caseless(#[trigger] a[i]) == caseless(
            c[i],
        ) by {
            assert(caseless(a[i]) == caseless(b[i]));
        }
    }
}

} // verus!
