//! What the exchange's order interface says, and what it is asked.

use crate::decimal::{
    decimal_of_text, lemma_inv_representable, max_value, quotient, unit, Decimal,
};
use crate::json::canonical::{
    canonical_of, canonicalize_json_value, lemma_set_field_is_well_named, well_named,
};
use crate::json::encode::{comma_before, fields_chars, json_chars, json_quoted};
use crate::json::{
    field_at, field_of, find_field, lemma_field_at, lemma_field_pushed, lemma_field_updated, Json,
};
use crate::keyed::{find, lemma_find, lemma_found, lemma_not_found};
use crate::models::{
    LiveOrder, LiveOrderView, OrderAmountKind, OrderRequest, OrderResult, OrderStatus, OrderType,
    Outcome, Side,
};
use crate::text::parts::{count_of, parse_count, replace_all, with_replaced};
use crate::text::{join2, opt_text, same_text, texts};
use crate::time::{secs_or_now, time_or, utc_now, Timestamp};
use crate::trading::order_manager::placement::{fresh_trace_id, is_uuid_text};
use crate::watchdog::health::{elapsed_secs, secs_between};
use vstd::prelude::*;
use vstd::string::*;

pub mod laws;

verus! {

/// How long cached fee rates remain valid before they are fetched again, in seconds.
pub const FEE_CACHE_TTL_SECS: u64 = 300;

/// What became of a request to cancel an order.
#[derive(Debug, Clone, PartialEq, Eq)]
pub enum CancelOrderOutcome {
    Confirmed,
    Rejected(String),
    Unknown(String),
}

pub enum CancelView {
    Confirmed,
    Rejected(Seq<char>),
    Unknown(Seq<char>),
}

impl View for CancelOrderOutcome {
    type V = CancelView;

    open spec fn view(&self) -> CancelView {
        match self {
            CancelOrderOutcome::Confirmed => CancelView::Confirmed,
            CancelOrderOutcome::Rejected(reason) => CancelView::Rejected(reason@),
            CancelOrderOutcome::Unknown(reason) => CancelView::Unknown(reason@),
        }
    }
}

pub open spec fn opt_cancel(o: Option<CancelOrderOutcome>) -> Option<CancelView> {
    match o {
        Some(c) => Some(c@),
        None => None,
    }
}

/// Why an order request is not sent.
#[derive(Clone, Copy, Debug, PartialEq, Eq, Structural)]
pub enum OrderRequestError {
    UsdcNotional,
    BuyMarketStyle,
}

impl OrderRequestError {
    pub fn message(self) -> (r: &'static str)
        ensures
            r@ == match self {
                OrderRequestError::UsdcNotional =>
                    "USDC-notional order requests are not supported here; use an explicit market-order implementation"@,
                OrderRequestError::BuyMarketStyle =>
                    "BUY FOK/FAK orders must use explicit USDC-notional semantics; use an aggressive share-sized limit order instead"@,
            },
    {
        match self {
            OrderRequestError::UsdcNotional =>
                "USDC-notional order requests are not supported here; use an explicit market-order implementation",
            OrderRequestError::BuyMarketStyle =>
                "BUY FOK/FAK orders must use explicit USDC-notional semantics; use an aggressive share-sized limit order instead",
        }
    }
}

/// The fault of an order request, if it has one.
pub open spec fn request_fault(request: OrderRequest) -> Option<OrderRequestError> {
    if request.amount_kind == OrderAmountKind::UsdcNotional {
        Some(OrderRequestError::UsdcNotional)
    } else if request.side == Side::Buy && (request.order_type == OrderType::FOK
        || request.order_type == OrderType::FAK) {
        Some(OrderRequestError::BuyMarketStyle)
    } else {
        None
    }
}

pub fn validate_order_request(request: &OrderRequest) -> (r: Result<(), OrderRequestError>)
    ensures
        match r {
            Ok(_) => request_fault(*request) is None,
            Err(e) => request_fault(*request) == Some(e),
        },
{
    let is_market_style = match request.order_type {
        OrderType::FOK | OrderType::FAK => true,
        _ => false,
    };
    if request.amount_kind == OrderAmountKind::UsdcNotional {
        return Err(OrderRequestError::UsdcNotional);
    }
    if request.side == Side::Buy && is_market_style {
        return Err(OrderRequestError::BuyMarketStyle);
    }
    Ok(())
}

/// The answer to an order placement.
#[derive(Debug)]
pub struct RawOrderResponse {
    pub order_id: Option<String>,
    pub status: Option<String>,
    pub transaction_hashes: Option<Vec<String>>,
    pub trade_ids: Option<Vec<String>>,
}

/// An order as the interface writes it.
#[derive(Debug)]
pub struct RawOrder {
    pub id: Option<String>,
    pub status: Option<String>,
    pub market: Option<String>,
    pub asset_id: Option<String>,
    pub side: Option<String>,
    pub price: Option<String>,
    pub original_size: Option<String>,
    pub size_matched: Option<String>,
    pub outcome: Option<String>,
    pub order_type: Option<String>,
    pub created_at: Option<i64>,
    pub associated_trade_ids: Option<Vec<String>>,
}

pub open spec fn status_named(text: Seq<char>) -> OrderStatus {
    if text == "ORDER_STATUS_LIVE"@ || text == "live"@ {
        OrderStatus::Live
    } else if text == "ORDER_STATUS_MATCHED"@ || text == "matched"@ {
        OrderStatus::Matched
    } else if text == "ORDER_STATUS_DELAYED"@ || text == "delayed"@ {
        OrderStatus::Delayed
    } else if text == "ORDER_STATUS_CANCELLED"@ || text == "cancelled"@ {
        OrderStatus::Cancelled
    } else {
        OrderStatus::Invalid
    }
}

pub open spec fn side_named(text: Seq<char>) -> Option<Side> {
    if text == "BUY"@ {
        Some(Side::Buy)
    } else if text == "SELL"@ {
        Some(Side::Sell)
    } else {
        None
    }
}

pub open spec fn outcome_named(text: Seq<char>) -> Option<Outcome> {
    if text == "YES"@ {
        Some(Outcome::Yes)
    } else if text == "NO"@ {
        Some(Outcome::No)
    } else {
        None
    }
}

/// The order type that a text names; good till cancelled where it names none.
pub open spec fn order_type_named(text: Option<Seq<char>>) -> OrderType {
    if text == Some("GTD"@) {
        OrderType::GTD
    } else if text == Some("FOK"@) {
        OrderType::FOK
    } else if text == Some("FAK"@) {
        OrderType::FAK
    } else {
        OrderType::GTC
    }
}

/// The text, or an empty one.
pub open spec fn text_or_empty(text: Option<Seq<char>>) -> Seq<char> {
    match text {
        Some(t) => t,
        None => Seq::empty(),
    }
}

/// The number that a text writes; zero where there is no text.
pub open spec fn size_written(text: Option<Seq<char>>) -> Option<int> {
    match text {
        Some(t) => decimal_of_text(t),
        None => decimal_of_text("0"@),
    }
}

pub open spec fn opt_secs(o: Option<i64>) -> int {
    match o {
        Some(t) => t as int,
        None => 0,
    }
}

pub open spec fn opt_texts(o: Option<Vec<String>>) -> Seq<Seq<char>> {
    match o {
        Some(v) => texts(v@),
        None => Seq::empty(),
    }
}

/// The order that the fields write: none without id, status, side, outcome and price, or with a
/// number that is none.
pub open spec fn live_order_of(raw: RawOrder, now: Timestamp) -> Option<LiveOrderView> {
    match (raw.status, raw.side, raw.outcome, raw.id, raw.price) {
        (Some(status), Some(side), Some(outcome), Some(id), Some(price)) => match (
            side_named(side@),
            outcome_named(outcome@),
            decimal_of_text(price@),
            size_written(opt_text(raw.original_size)),
            size_written(opt_text(raw.size_matched)),
        ) {
            (Some(side), Some(outcome), Some(price), Some(original_size), Some(size_matched)) =>
                Some(
                LiveOrderView {
                    id: id@,
                    condition_id: text_or_empty(opt_text(raw.market)),
                    asset_id: text_or_empty(opt_text(raw.asset_id)),
                    side,
                    price,
                    original_size,
                    size_matched,
                    outcome,
                    order_type: order_type_named(opt_text(raw.order_type)),
                    status: status_named(status@),
                    created_at: secs_or_now(Some(opt_secs(raw.created_at)), now),
                    associated_trade_ids: opt_texts(raw.associated_trade_ids),
                },
            ),
            _ => None,
        },
        _ => None,
    }
}

pub open spec fn opt_live_order(o: Option<LiveOrder>) -> Option<LiveOrderView> {
    match o {
        Some(o) => Some(o@),
        None => None,
    }
}

fn status_from(text: &str) -> (r: OrderStatus)
    ensures
        r == status_named(text@),
{
    if same_text(text, "ORDER_STATUS_LIVE") || same_text(text, "live") {
        OrderStatus::Live
    } else if same_text(text, "ORDER_STATUS_MATCHED") || same_text(text, "matched") {
        OrderStatus::Matched
    } else if same_text(text, "ORDER_STATUS_DELAYED") || same_text(text, "delayed") {
        OrderStatus::Delayed
    } else if same_text(text, "ORDER_STATUS_CANCELLED") || same_text(text, "cancelled") {
        OrderStatus::Cancelled
    } else {
        OrderStatus::Invalid
    }
}

pub(crate) fn side_from(text: &str) -> (r: Option<Side>)
    ensures
        r == side_named(text@),
{
    if same_text(text, "BUY") {
        Some(Side::Buy)
    } else if same_text(text, "SELL") {
        Some(Side::Sell)
    } else {
        None
    }
}

fn order_type_from(text: &Option<String>) -> (r: OrderType)
    ensures
        r == order_type_named(opt_text(*text)),
{
    match text {
        Some(t) => if same_text(t.as_str(), "GTD") {
            OrderType::GTD
        } else if same_text(t.as_str(), "FOK") {
            OrderType::FOK
        } else if same_text(t.as_str(), "FAK") {
            OrderType::FAK
        } else {
            OrderType::GTC
        },
        None => OrderType::GTC,
    }
}

pub(crate) fn or_empty(text: Option<String>) -> (r: String)
    ensures
        r@ == text_or_empty(opt_text(text)),
{
    match text {
        Some(t) => t,
        None => String::new(),
    }
}

pub(crate) fn size_from(text: &Option<String>) -> (r: Option<Decimal>)
    ensures
        crate::decimal::value_of(r) == size_written(opt_text(*text)),
{
    match text {
        Some(t) => Decimal::parse(t.as_str()),
        None => Decimal::parse("0"),
    }
}

/// The order that the fields write.
pub fn parse_raw_order(raw: RawOrder) -> (r: Option<LiveOrder>)
    ensures
        exists|now: Timestamp| opt_live_order(r) == #[trigger] live_order_of(raw, now),
{
    parse_raw_order_at(raw, utc_now())
}

/// The order that the fields write, as read at `now`.
pub fn parse_raw_order_at(raw: RawOrder, now: Timestamp) -> (r: Option<LiveOrder>)
    ensures
        opt_live_order(r) == live_order_of(raw, now),
{
    let status = match &raw.status {
        Some(text) => status_from(text.as_str()),
        None => return None,
    };
    let side = match &raw.side {
        Some(text) => match side_from(text.as_str()) {
            Some(side) => side,
            None => return None,
        },
        None => return None,
    };
    let outcome = match &raw.outcome {
        Some(text) => if same_text(text.as_str(), "YES") {
            Outcome::Yes
        } else if same_text(text.as_str(), "NO") {
            Outcome::No
        } else {
            return None;
        },
        None => return None,
    };
    let order_type = order_type_from(&raw.order_type);
    let price = match &raw.price {
        Some(text) => match Decimal::parse(text.as_str()) {
            Some(price) => price,
            None => return None,
        },
        None => return None,
    };
    let original_size = match size_from(&raw.original_size) {
        Some(size) => size,
        None => return None,
    };
    let size_matched = match size_from(&raw.size_matched) {
        Some(size) => size,
        None => return None,
    };
    let created_at = match raw.created_at {
        Some(secs) => time_or(Some(secs), now),
        None => time_or(Some(0), now),
    };
    let id = match raw.id {
        Some(id) => id,
        None => return None,
    };
    let associated_trade_ids = match raw.associated_trade_ids {
        Some(ids) => ids,
        None => Vec::new(),
    };
    assert(raw.associated_trade_ids is None ==> texts(associated_trade_ids@) =~= Seq::<
        Seq<char>,
    >::empty());
    Some(
        LiveOrder {
            id,
            condition_id: or_empty(raw.market),
            asset_id: or_empty(raw.asset_id),
            side,
            price,
            original_size,
            size_matched,
            outcome,
            order_type,
            status,
            created_at,
            associated_trade_ids,
        },
    )
}

/// The order that a lookup answers with: none where the answer is null.
pub fn parse_order_response(body: Option<RawOrder>) -> (r: Option<LiveOrder>)
    ensures
        match body {
            Some(raw) => exists|now: Timestamp| opt_live_order(r) == #[trigger] live_order_of(raw, now),
            None => r is None,
        },
{
    match body {
        Some(raw) => parse_raw_order(raw),
        None => None,
    }
}

/// The orders of a page that can be read, in order.
pub open spec fn readable_orders(page: Seq<RawOrder>, now: Timestamp) -> Seq<LiveOrderView>
    decreases page.len(),
{
    if page.len() == 0 {
        Seq::empty()
    } else {
        match live_order_of(page.last(), now) {
            Some(order) => readable_orders(page.drop_last(), now).push(order),
            None => readable_orders(page.drop_last(), now),
        }
    }
}

pub open spec fn live_orders(v: Seq<LiveOrder>) -> Seq<LiveOrderView> {
    v.map_values(|o: LiveOrder| o@)
}

/// What follows a page: the cursor of the next one, unless it is empty or the end marker `LTE=`.
pub open spec fn cursor_after(next_cursor: Option<Seq<char>>) -> Option<Seq<char>> {
    match next_cursor {
        Some(c) => if c.len() > 0 && c != "LTE="@ {
            Some(c)
        } else {
            None
        },
        None => None,
    }
}

/// Open orders gathered page by page.
#[derive(Debug)]
pub struct OpenOrderPages {
    pub orders: Vec<LiveOrder>,
    pub cursor: Option<String>,
}

impl OpenOrderPages {
    pub fn new() -> (r: OpenOrderPages)
        ensures
            r.orders@.len() == 0,
            r.cursor is None,
    {
        OpenOrderPages { orders: Vec::new(), cursor: None }
    }

    /// Where the page at the cursor is found.
    pub open spec fn path_chars(self, condition_id: Option<Seq<char>>) -> Seq<char> {
        match (condition_id, self.cursor) {
            (Some(id), Some(c)) => "/data/orders?market="@ + id + "&next_cursor="@ + c@,
            (Some(id), None) => "/data/orders?market="@ + id,
            (None, Some(c)) => "/data/orders?next_cursor="@ + c@,
            (None, None) => "/data/orders"@,
        }
    }

    /// Where the page at the cursor is found: all open orders, or those of a market.
    pub fn path(&self, condition_id: Option<&str>) -> (r: String)
        ensures
            r@ == self.path_chars(
                match condition_id {
                    Some(id) => Some(id@),
                    None => None,
                },
            ),
    {
        match (condition_id, &self.cursor) {
            (Some(id), Some(c)) => {
                let mut path = join2("/data/orders?market=", id);
                path.append("&next_cursor=");
                path.append(c.as_str());
                path
            },
            (Some(id), None) => join2("/data/orders?market=", id),
            (None, Some(c)) => join2("/data/orders?next_cursor=", c.as_str()),
            (None, None) => "/data/orders".to_owned(),
        }
    }

    /// Takes a page in, and says whether another one follows.
    pub fn take_page(
        &mut self,
        page: Vec<RawOrder>,
        next_cursor: Option<String>,
        now: Timestamp,
    ) -> (r: bool)
        ensures
            live_orders(final(self).orders@) == live_orders(old(self).orders@) + readable_orders(
                page@,
                now,
            ),
            opt_text(final(self).cursor) == cursor_after(opt_text(next_cursor)),
            r == (final(self).cursor is Some),
    {
        let ghost items = page@;
        let ghost start = live_orders(self.orders@);
        let mut page = page;
        let mut rest: Vec<RawOrder> = Vec::new();
        // Turn the page round so that its orders can be taken from the end.
        while page.len() > 0
            invariant
                page@.len() + rest@.len() == items.len(),
                page@ == items.take(page@.len() as int),
                rest@ == items.skip(page@.len() as int).reverse(),
                self.orders == old(self).orders,
            decreases page@.len(),
        {
            let ghost n = page@.len() as int;
            let item = page.pop().unwrap();
            assert(items.skip(n - 1) =~= seq![item] + items.skip(n));
            assert(items.skip(n - 1).reverse() =~= items.skip(n).reverse().push(item));
            rest.push(item);
            assert(page@ =~= items.take(n - 1));
        }
        assert(items.skip(0) =~= items);
        assert(items.take(0).len() == 0);
        let ghost mut done: int = 0;
        assert(live_orders(self.orders@) =~= start + readable_orders(items.take(0), now));
        while rest.len() > 0
            invariant
                0 <= done,
                done + rest@.len() == items.len(),
                rest@ == items.skip(done).reverse(),
                live_orders(self.orders@) == start + readable_orders(items.take(done), now),
            decreases rest@.len(),
        {
            let ghost before = live_orders(self.orders@);
            let item = rest.pop().unwrap();
            assert(item == items[done]);
            assert(items.take(done + 1).drop_last() =~= items.take(done));
            match parse_raw_order_at(item, now) {
                Some(order) => {
                    let ghost view = order@;
                    self.orders.push(order);
                    assert(live_orders(self.orders@) =~= before.push(view));
                    assert(before.push(view) =~= start + readable_orders(
                        items.take(done),
                        now,
                    ).push(view));
                },
                None => {},
            }
            proof {
                assert(rest@ =~= items.skip(done + 1).reverse());
                done = done + 1;
            }
        }
        assert(items.take(done) =~= items);
        self.cursor = match next_cursor {
            Some(c) => if !c.as_str().is_empty() && !same_text(c.as_str(), "LTE=") {
                Some(c)
            } else {
                None
            },
            None => None,
        };
        self.cursor.is_some()
    }
}

pub open spec fn lists_id(v: Seq<Json>, id: Seq<char>) -> bool {
    exists|i: int| 0 <= i < v.len() && (#[trigger] v[i]).as_text() == Some(id)
}

fn list_has_id(v: &Vec<Json>, id: &str) -> (r: bool)
    ensures
        r == lists_id(v@, id@),
{
    let mut i: usize = 0;
    while i < v.len()
        invariant
            i <= v.len(),
            forall|j: int| 0 <= j < i ==> (#[trigger] v@[j]).as_text() != Some(id@),
        decreases v.len() - i,
    {
        match v[i].as_str() {
            Some(text) => if same_text(text, id) {
                return true;
            },
            None => {},
        }
        i += 1;
    }
    false
}

/// The text of a field, if the value has it and it is a text.
pub open spec fn text_field(j: Json, name: Seq<char>) -> Option<Seq<char>> {
    match field_of(j, name) {
        Some(v) => v.as_text(),
        None => None,
    }
}

/// Why a cancellation was refused: a text, the first field that says it, or the whole value.
pub open spec fn refusal_of(value: Json) -> Seq<char> {
    match value.as_text() {
        Some(reason) => reason,
        None => match text_field(value, "reason"@) {
            Some(reason) => reason,
            None => match text_field(value, "message"@) {
                Some(reason) => reason,
                None => match text_field(value, "error"@) {
                    Some(reason) => reason,
                    None => match text_field(value, "errorMsg"@) {
                        Some(reason) => reason,
                        None => json_chars(value),
                    },
                },
            },
        },
    }
}

fn text_of_field<'a>(j: &'a Json, name: &str) -> (r: Option<&'a str>)
    ensures
        match r {
            Some(s) => text_field(*j, name@) == Some(s@),
            None => text_field(*j, name@) is None,
        },
{
    match j.get(name) {
        Some(v) => v.as_str(),
        None => None,
    }
}

pub fn cancel_reason_from_value(value: &Json) -> (r: String)
    ensures
        r@ == refusal_of(*value),
{
    if let Some(reason) = value.as_str() {
        return reason.to_owned();
    }
    if let Some(reason) = text_of_field(value, "reason") {
        return reason.to_owned();
    }
    if let Some(reason) = text_of_field(value, "message") {
        return reason.to_owned();
    }
    if let Some(reason) = text_of_field(value, "error") {
        return reason.to_owned();
    }
    if let Some(reason) = text_of_field(value, "errorMsg") {
        return reason.to_owned();
    }
    value.to_text()
}

/// What a cancellation's answer says of an order: confirmed where it is among the cancelled,
/// refused where it is among the others.
pub open spec fn cancel_answer(order_id: Seq<char>, body: Json) -> Option<CancelView> {
    if field_of(body, "canceled"@) matches Some(Json::Array(v)) && lists_id(v@, order_id) {
        Some(CancelView::Confirmed)
    } else {
        match field_of(body, "not_canceled"@) {
            Some(refused) => match field_of(refused, order_id) {
                Some(reason) => Some(CancelView::Rejected(refusal_of(reason))),
                None => None,
            },
            None => None,
        }
    }
}

pub fn parse_cancel_order_response(order_id: &str, body: &Json) -> (r: Option<CancelOrderOutcome>)
    ensures
        opt_cancel(r) == cancel_answer(order_id@, *body),
{
    match body.get("canceled") {
        Some(Json::Array(canceled)) => {
            if list_has_id(canceled, order_id) {
                return Some(CancelOrderOutcome::Confirmed);
            }
        },
        _ => {},
    }
    match body.get("not_canceled") {
        Some(refused) => match refused.get(order_id) {
            Some(reason) => Some(CancelOrderOutcome::Rejected(cancel_reason_from_value(reason))),
            None => None,
        },
        None => None,
    }
}

/// What a lookup of the order says of a cancellation whose answer said nothing: only an order that
/// is found and not live any more is cancelled for certain.
pub open spec fn cancel_by_lookup(order_id: Seq<char>, status: Option<OrderStatus>) -> CancelView {
    match status {
        Some(OrderStatus::Live) => CancelView::Unknown(
            "cancel response ambiguous and order "@ + order_id + " is still live"@,
        ),
        Some(_) => CancelView::Confirmed,
        None => CancelView::Unknown(
            "cancel response ambiguous and order "@ + order_id + " could not be verified"@,
        ),
    }
}

pub fn fallback_cancel_outcome_from_lookup(order_id: &str, order: Option<&LiveOrder>) -> (r:
    CancelOrderOutcome)
    ensures
        r@ == cancel_by_lookup(
            order_id@,
            match order {
                Some(o) => Some(o.status),
                None => None,
            },
        ),
{
    match order {
        Some(order) => if order.status == OrderStatus::Live {
            let mut reason = join2("cancel response ambiguous and order ", order_id);
            reason.append(" is still live");
            CancelOrderOutcome::Unknown(reason)
        } else {
            CancelOrderOutcome::Confirmed
        },
        None => {
            let mut reason = join2("cancel response ambiguous and order ", order_id);
            reason.append(" could not be verified");
            CancelOrderOutcome::Unknown(reason)
        },
    }
}

/// Whether an order is scoring, as the answer says; not where it does not say.
pub open spec fn says_scoring(body: Json) -> bool {
    field_of(body, "scoring"@) == Some(Json::Bool(true))
}

pub fn scoring_status(body: &Json) -> (r: bool)
    ensures
        r == says_scoring(*body),
{
    match body.get("scoring") {
        Some(Json::Bool(b)) => *b,
        _ => false,
    }
}

/// The fee rate that an answer gives in basis points: zero where it gives none.
pub open spec fn fee_in(body: Json) -> int {
    match field_of(body, "base_fee"@) {
        Some(Json::String(s)) => match count_of(s@) {
            Some(n) => n,
            None => 0,
        },
        Some(Json::Number(s)) => match count_of(s@) {
            Some(n) => n,
            None => 0,
        },
        _ => 0,
    }
}

pub fn fee_rate_in(body: &Json) -> (r: u64)
    ensures
        r == fee_in(*body),
{
    match body.get("base_fee") {
        Some(Json::String(s)) => match parse_count(s.as_str()) {
            Some(n) => n,
            None => 0,
        },
        Some(Json::Number(s)) => match parse_count(s.as_str()) {
            Some(n) => n,
            None => 0,
        },
        _ => 0,
    }
}

/// The balance that an answer gives, in millionths of USDC: zero where it gives none.
pub open spec fn atomic_balance(body: Json) -> int {
    let value = match field_of(body, "balance"@) {
        Some(v) => Some(v),
        None => field_of(body, "available"@),
    };
    let text = match value {
        Some(Json::String(s)) => Some(s@),
        Some(Json::Number(s)) => Some(s@),
        _ => None,
    };
    match text {
        Some(t) => match decimal_of_text(t) {
            Some(v) => v,
            None => 0,
        },
        None => 0,
    }
}

/// The balance that an answer gives, in USDC.
pub open spec fn usdc_balance(body: Json) -> int {
    quotient(atomic_balance(body), 1_000_000 * unit())
}

/// The balance that an answer gives, in USDC.
pub fn balance_in(body: &Json) -> (r: Decimal)
    ensures
        r@ == usdc_balance(*body),
{
    let value = match body.get("balance") {
        Some(v) => Some(v),
        None => body.get("available"),
    };
    let parsed = match value {
        Some(Json::String(s)) => Decimal::parse(s.as_str()),
        Some(Json::Number(s)) => Decimal::parse(s.as_str()),
        _ => None,
    };
    let raw_balance = match parsed {
        Some(v) => v,
        None => Decimal::zero(),
    };
    let atoms = Decimal::from_u64(1_000_000);
    proof {
        use_type_invariant(&raw_balance);
        lemma_inv_representable(raw_balance);
        let raw = raw_balance@;
        assert(-max_value() * (1_000_000 * unit()) <= raw * unit() <= max_value() * (1_000_000
            * unit())) by (nonlinear_arith)
            requires
                -max_value() <= raw <= max_value(),
        ;
    }
    raw_balance.over(atoms)
}

/// A fee rate, and when it was fetched.
#[derive(Debug)]
pub struct FeeEntry {
    pub token_id: String,
    pub rate_bps: u64,
    pub fetched_at: u64,
}

pub struct FeeView {
    pub token_id: Seq<char>,
    pub rate_bps: int,
    pub fetched_at: int,
}

impl View for FeeEntry {
    type V = FeeView;

    open spec fn view(&self) -> FeeView {
        FeeView {
            token_id: self.token_id@,
            rate_bps: self.rate_bps as int,
            fetched_at: self.fetched_at as int,
        }
    }
}

pub open spec fn fee_views(v: Seq<FeeEntry>) -> Seq<FeeView> {
    v.map_values(|e: FeeEntry| e@)
}

pub open spec fn fee_of_token(token_id: Seq<char>) -> spec_fn(FeeView) -> bool {
    |e: FeeView| e.token_id == token_id
}

/// The rate of a token that was fetched less than the time limit ago.
pub open spec fn fresh_fee(s: Seq<FeeView>, token_id: Seq<char>, now: int) -> Option<int> {
    match find(s, fee_of_token(token_id)) {
        Some(i) => if secs_between(s[i].fetched_at, now) < FEE_CACHE_TTL_SECS {
            Some(s[i].rate_bps)
        } else {
            None
        },
        None => None,
    }
}

pub open spec fn with_fee(s: Seq<FeeView>, e: FeeView) -> Seq<FeeView> {
    match find(s, fee_of_token(e.token_id)) {
        Some(i) => s.update(i, e),
        None => s.push(e),
    }
}

/// What becomes of an order request.
#[derive(Debug)]
pub enum PlaceStep {
    /// In dry-run mode nothing is submitted.
    DryRun(OrderResult),
    /// The order is to be signed and submitted.
    Submit,
}

/// Trading client for the CLOB interface of the exchange.
#[derive(Debug)]
pub struct TradingClient {
    pub base_url: String,
    pub api_key: String,
    pub dry_run: bool,
    /// Cached fee rates by token.
    /// Avoids a round-trip on every order placement (critical for hedge speed).
    pub fee_cache: Vec<FeeEntry>,
}

impl TradingClient {
    pub fn new(base_url: String, api_key: &str, dry_run: bool) -> (r: TradingClient)
        ensures
            r.base_url == base_url,
            r.api_key@ == api_key@,
            r.dry_run == dry_run,
            r.fee_cache@.len() == 0,
    {
        TradingClient { base_url, api_key: api_key.to_owned(), dry_run, fee_cache: Vec::new() }
    }

    pub fn is_dry_run(&self) -> (r: bool)
        ensures
            r == self.dry_run,
    {
        self.dry_run
    }

    pub fn url(&self, path: &str) -> (r: String)
        ensures
            r@ == self.base_url@ + path@,
    {
        join2(self.base_url.as_str(), path)
    }

    /// Place an order. In dry-run mode nothing is submitted.
    pub fn place_order(&self, request: &OrderRequest) -> (r: Result<PlaceStep, OrderRequestError>)
        ensures
            match r {
                Err(e) => request_fault(*request) == Some(e),
                Ok(PlaceStep::Submit) => request_fault(*request) is None && !self.dry_run,
                Ok(PlaceStep::DryRun(result)) => request_fault(*request) is None && self.dry_run
                    && exists|id: Seq<char>| #[trigger] dry_run_answer(result, id) && is_uuid_text(id),
            },
    {
        match validate_order_request(request) {
            Ok(_) => {},
            Err(e) => return Err(e),
        }
        if self.dry_run {
            let id = fresh_trace_id();
            return Ok(PlaceStep::DryRun(dry_run_result(id.as_str())));
        }
        Ok(PlaceStep::Submit)
    }

    /// The body under which a signed order is submitted: the payload, owned by the API key, with
    /// its salt as a number. Fields stand in the order of their names.
    pub fn order_body(&self, payload: Json, post_only: bool) -> (r: String)
        requires
            payload is Object,
            well_named(payload),
        ensures
            exists|body: Json, ordered: Json| #[trigger]
                submits(payload, body, self.api_key@, post_only) && well_named(body) && #[trigger]
                canonical_of(body, ordered) && r@ == with_plain_salt(
                    json_chars(ordered),
                    salt_of(body),
                ),
    {
        let owned = set_field(payload, "owner", Json::String(self.api_key.clone()));
        let body = set_field(owned, "postOnly", Json::Bool(post_only));
        let salt = match body.get("order") {
            Some(order) => match order.get("salt") {
                Some(salt) => match salt.as_str() {
                    Some(text) => text.to_owned(),
                    None => "0".to_owned(),
                },
                None => "0".to_owned(),
            },
            None => "0".to_owned(),
        };
        let ordered = canonicalize_json_value(&body);
        let text = ordered.to_text();
        let mut quoted = join2("\"salt\":\"", salt.as_str());
        quoted.append("\"");
        let plain = join2("\"salt\":", salt.as_str());
        proof {
            reveal_strlit("\"");
            assert(quoted@.len() > 0);
            reveal_strlit("owner");
            reveal_strlit("postOnly");
            assert("owner"@.len() != "postOnly"@.len());
            assert(submits(payload, body, self.api_key@, post_only));
            assert(canonical_of(body, ordered));
        }
        replace_all(text.as_str(), quoted.as_str(), plain.as_str())
    }

    /// Cancel a specific order: confirmed at once in dry-run mode, else to be asked for.
    pub fn cancel_order(&self) -> (r: Option<CancelOrderOutcome>)
        ensures
            opt_cancel(r) == if self.dry_run {
                Some(CancelView::Confirmed)
            } else {
                None
            },
    {
        if self.dry_run {
            Some(CancelOrderOutcome::Confirmed)
        } else {
            None
        }
    }

    /// A cached fee rate that is still valid at `now`.
    pub fn cached_fee_rate_bps(&self, token_id: &str, now: u64) -> (r: Option<u64>)
        ensures
            match r {
                Some(rate) => fresh_fee(fee_views(self.fee_cache@), token_id@, now as int) == Some(
                    rate as int,
                ),
                None => fresh_fee(fee_views(self.fee_cache@), token_id@, now as int) is None,
            },
    {
        match self.fee_place(token_id) {
            Some(i) => {
                let entry = &self.fee_cache[i];
                assert(fee_views(self.fee_cache@)[i as int] == entry@);
                if elapsed_secs(entry.fetched_at, now) < FEE_CACHE_TTL_SECS {
                    Some(entry.rate_bps)
                } else {
                    None
                }
            },
            None => None,
        }
    }

    fn fee_place(&self, token_id: &str) -> (r: Option<usize>)
        ensures
            match r {
                Some(i) => i < self.fee_cache@.len() && find(
                    fee_views(self.fee_cache@),
                    fee_of_token(token_id@),
                ) == Some(i as int),
                None => find(fee_views(self.fee_cache@), fee_of_token(token_id@)) is None,
            },
    {
        let ghost all = fee_views(self.fee_cache@);
        let mut i: usize = 0;
        while i < self.fee_cache.len()
            invariant
                i <= self.fee_cache@.len(),
                all == fee_views(self.fee_cache@),
                forall|j: int| 0 <= j < i ==> !fee_of_token(token_id@)(#[trigger] all[j]),
            decreases self.fee_cache@.len() - i,
        {
            assert(all[i as int] == self.fee_cache@[i as int]@);
            if same_text(self.fee_cache[i].token_id.as_str(), token_id) {
                proof {
                    lemma_found(all, fee_of_token(token_id@), i as int);
                }
                return Some(i);
            }
            i += 1;
        }
        proof {
            lemma_not_found(all, fee_of_token(token_id@));
        }
        None
    }

    /// The fee rate that was answered at `now`, zero where the request failed. It is cached either
    /// way.
    pub fn fee_rate_fetched(&mut self, token_id: &str, body: Option<&Json>, now: u64) -> (r: u64)
        ensures
            r == match body {
                Some(body) => fee_in(*body),
                None => 0,
            },
            fee_views(final(self).fee_cache@) == with_fee(
                fee_views(old(self).fee_cache@),
                FeeView { token_id: token_id@, rate_bps: r as int, fetched_at: now as int },
            ),
            final(self).base_url == old(self).base_url,
            final(self).api_key == old(self).api_key,
            final(self).dry_run == old(self).dry_run,
    {
        let rate: u64 = match body {
            Some(body) => fee_rate_in(body),
            None => 0,
        };
        let ghost before = fee_views(self.fee_cache@);
        let entry = FeeEntry { token_id: token_id.to_owned(), rate_bps: rate, fetched_at: now };
        match self.fee_place(token_id) {
            Some(i) => {
                self.fee_cache.set(i, entry);
                assert(fee_views(self.fee_cache@) =~= before.update(i as int, entry@));
            },
            None => {
                self.fee_cache.push(entry);
                assert(fee_views(self.fee_cache@) =~= before.push(entry@));
            },
        }
        rate
    }
}

/// A fetched fee rate serves until the time limit has passed, and then no more.
pub proof fn law_fee_is_cached(s: Seq<FeeView>, e: FeeView, now: int)
    ensures
        fresh_fee(with_fee(s, e), e.token_id, now) == if secs_between(e.fetched_at, now)
            < FEE_CACHE_TTL_SECS {
            Some(e.rate_bps)
        } else {
            None
        },
{
    let t = with_fee(s, e);
    let p = fee_of_token(e.token_id);
    lemma_find(s, p);
    match find(s, p) {
        Some(i) => {
            assert forall|j: int| 0 <= j < i implies !p(#[trigger] t[j]) by {
                assert(!p(s[j]));
            }
            lemma_found(t, p, i);
        },
        None => {
            assert forall|j: int| 0 <= j < s.len() implies !p(#[trigger] t[j]) by {
                assert(!p(s[j]));
            }
            lemma_found(t, p, s.len() as int);
        },
    }
}

/// What a dry run answers to a placement.
pub open spec fn dry_run_answer(result: OrderResult, id: Seq<char>) -> bool {
    &&& result.order_id@ == "dry-run-"@ + id
    &&& result.status == OrderStatus::Live
    &&& result.trade_ids@.len() == 0
    &&& result.transaction_hashes@.len() == 0
    &&& result.taking_amount is None
}

pub fn dry_run_result(id: &str) -> (r: OrderResult)
    ensures
        dry_run_answer(r, id@),
{
    OrderResult {
        order_id: join2("dry-run-", id),
        status: OrderStatus::Live,
        trade_ids: Vec::new(),
        transaction_hashes: Vec::new(),
        taking_amount: None,
    }
}

/// The status that the answer to a placement names.
pub open spec fn placed_status(text: Option<Seq<char>>) -> OrderStatus {
    if text == Some("live"@) {
        OrderStatus::Live
    } else if text == Some("matched"@) {
        OrderStatus::Matched
    } else if text == Some("delayed"@) {
        OrderStatus::Delayed
    } else {
        OrderStatus::Invalid
    }
}

/// The result that the answer to a placement gives.
pub fn order_result_of(raw: RawOrderResponse) -> (r: OrderResult)
    ensures
        r.order_id@ == text_or_empty(opt_text(raw.order_id)),
        r.status == placed_status(opt_text(raw.status)),
        texts(r.trade_ids@) == opt_texts(raw.trade_ids),
        texts(r.transaction_hashes@) == opt_texts(raw.transaction_hashes),
        r.taking_amount is None,
{
    let status = match &raw.status {
        Some(text) => if same_text(text.as_str(), "live") {
            OrderStatus::Live
        } else if same_text(text.as_str(), "matched") {
            OrderStatus::Matched
        } else if same_text(text.as_str(), "delayed") {
            OrderStatus::Delayed
        } else {
            OrderStatus::Invalid
        },
        None => OrderStatus::Invalid,
    };
    let none: Vec<String> = Vec::new();
    assert(texts(none@) =~= Seq::<Seq<char>>::empty());
    let trade_ids = match raw.trade_ids {
        Some(ids) => ids,
        None => none,
    };
    let none: Vec<String> = Vec::new();
    assert(texts(none@) =~= Seq::<Seq<char>>::empty());
    let transaction_hashes = match raw.transaction_hashes {
        Some(hashes) => hashes,
        None => none,
    };
    OrderResult {
        order_id: or_empty(raw.order_id),
        status,
        trade_ids,
        transaction_hashes,
        taking_amount: None,
    }
}

/// `after` is the object `before` with one field set.
pub open spec fn field_set(before: Json, after: Json, name: Seq<char>, value: Json) -> bool {
    &&& before is Object && after is Object
    &&& field_of(after, name) == Some(value)
    &&& forall|other: Seq<char>|
        other != name ==> #[trigger] field_of(after, other) == field_of(before, other)
}

/// The object with one field set.
fn set_field(j: Json, name: &str, value: Json) -> (r: Json)
    requires
        j is Object,
        well_named(j),
        well_named(value),
    ensures
        field_set(j, r, name@, value),
        well_named(r),
{
    match j {
        Json::Object(fields) => {
            let ghost before = fields@;
            let mut fields = fields;
            let at = find_field(&fields, name);
            let field = (name.to_owned(), value);
            if at < fields.len() {
                proof {
                    lemma_field_updated(before, at as int, field);
                }
                fields.set(at, field);
            } else {
                proof {
                    lemma_field_pushed(before, field);
                }
                fields.push(field);
            }
            let r = Json::Object(fields);
            proof {
                let after = fields@;
                lemma_field_at(before, name@);
                lemma_set_field_is_well_named(before, after, at as int);
                assert forall|other: Seq<char>| other != name@ implies #[trigger] field_of(r, other)
                    == field_of(j, other) by {
                    lemma_field_at(before, other);
                    assert(field_at(after, other) == field_at(after, other));
                }
            }
            r
        },
        other => other,
    }
}

/// `body` is the signed payload with owner and post-only mark set.
pub open spec fn submits(
    payload: Json,
    body: Json,
    api_key: Seq<char>,
    post_only: bool,
) -> bool {
    &&& payload is Object && body is Object
    &&& text_field(body, "owner"@) == Some(api_key)
    &&& field_of(body, "postOnly"@) == Some(Json::Bool(post_only))
    &&& forall|other: Seq<char>|
        other != "owner"@ && other != "postOnly"@ ==> #[trigger] field_of(body, other) == field_of(
            payload,
            other,
        )
}

/// The salt of the order in a body, `0` where it has none.
pub open spec fn salt_of(body: Json) -> Seq<char> {
    match field_of(body, "order"@) {
        Some(order) => match text_field(order, "salt"@) {
            Some(salt) => salt,
            None => "0"@,
        },
        None => "0"@,
    }
}

/// The salt must be a JSON number, not a string.
pub open spec fn with_plain_salt(text: Seq<char>, salt: Seq<char>) -> Seq<char> {
    with_replaced(text, "\"salt\":\""@ + salt + "\""@, "\"salt\":"@ + salt)
}

/// The body that asks for the cancellation of an order.
pub fn cancel_body(order_id: &str) -> (r: String)
    ensures
        r@ == "{"@ + json_quoted("orderID"@) + ":"@ + json_quoted(order_id@) + "}"@,
{
    let mut fields: Vec<(String, Json)> = Vec::new();
    fields.push(("orderID".to_owned(), Json::String(order_id.to_owned())));
    let body = Json::Object(fields);
    proof {
        reveal_with_fuel(fields_chars, 2);
        reveal_with_fuel(json_chars, 2);
        assert(json_chars(body) =~= "{"@ + json_quoted("orderID"@) + ":"@ + json_quoted(order_id@)
            + "}"@);
    }
    body.to_text()
}

/// The body that asks for the cancellation of all orders in a market and asset.
pub fn cancel_market_orders_body(condition_id: &str, asset_id: &str) -> (r: String)
    ensures
        r@ == "{"@ + json_quoted("asset_id"@) + ":"@ + json_quoted(asset_id@) + ","@ + json_quoted(
            "market"@,
        ) + ":"@ + json_quoted(condition_id@) + "}"@,
{
    let mut fields: Vec<(String, Json)> = Vec::new();
    fields.push(("asset_id".to_owned(), Json::String(asset_id.to_owned())));
    fields.push(("market".to_owned(), Json::String(condition_id.to_owned())));
    let ghost all = fields@;
    let body = Json::Object(fields);
    proof {
        reveal_with_fuel(json_chars, 2);
        assert(fields_chars(all, 0) =~= Seq::<char>::empty());
        assert(json_chars(all[0].1) == json_quoted(asset_id@));
        assert(json_chars(all[1].1) == json_quoted(condition_id@));
        assert(fields_chars(all, 1) == fields_chars(all, 0) + comma_before(1) + json_quoted(
            all[0].0@,
        ) + ":"@ + json_chars(all[0].1));
        assert(fields_chars(all, 2) == fields_chars(all, 1) + comma_before(2) + json_quoted(
            all[1].0@,
        ) + ":"@ + json_chars(all[1].1));
        assert(fields_chars(all, 1) =~= json_quoted("asset_id"@) + ":"@ + json_quoted(asset_id@));
        assert(fields_chars(all, 2) =~= fields_chars(all, 1) + ","@ + json_quoted("market"@) + ":"@
            + json_quoted(condition_id@));
        assert(json_chars(body) =~= "{"@ + json_quoted("asset_id"@) + ":"@ + json_quoted(asset_id@)
            + ","@ + json_quoted("market"@) + ":"@ + json_quoted(condition_id@) + "}"@);
    }
    body.to_text()
}

/// A cancellation is confirmed only by an answer that lists the order, or by a lookup that finds
/// it no longer live.
pub proof fn law_confirmed_cancel_has_evidence(
    order_id: Seq<char>,
    body: Json,
    status: Option<OrderStatus>,
)
    ensures
        cancel_answer(order_id, body) == Some(CancelView::Confirmed) ==> (field_of(
            body,
            "canceled"@,
        ) matches Some(Json::Array(v)) && lists_id(v@, order_id)),
        cancel_by_lookup(order_id, status) == CancelView::Confirmed ==> (status matches Some(s)
            && s != OrderStatus::Live),
{
}

} // verus!
