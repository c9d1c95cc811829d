//! The stream of account events: what its messages mean, and how its connection is kept.

use crate::decimal::{decimal_of_text, Decimal};
use crate::json::encode::{comma_before, fields_chars, json_chars, json_quoted};
use crate::json::Json;
use crate::models::events::{
    opt_order_event, opt_trade, OrderEvent, OrderEventType, OrderEventView, TradeEvent,
    TradeStatus, TradeView, UserEvent, UserEventView,
};
use crate::text::{
    clone_opt_text, join2, opt_text, same_ignoring_ascii_case, same_text, text_ignoring_case,
};
use crate::time::{utc_now, Timestamp};
use crate::trading::client::{
    or_empty, side_from, side_named, size_from, size_written, text_or_empty,
};
use crate::trading::trade_parser::{parse_trade_timestamp, time_of};
use vstd::prelude::*;
use vstd::string::*;

pub mod laws;

verus! {

/// Nanoseconds of silence after which a connection counts as dead.
pub const HEARTBEAT_TIMEOUT_NANOS: u64 = 90_000_000_000;

/// What authenticates an account.
#[derive(Clone, Debug)]
pub struct ApiCredentials {
    pub api_key: String,
    pub secret: String,
    pub passphrase: String,
    pub address: String,
    pub private_key: Option<String>,
    pub funder: Option<String>,
}

/// The stream of an account's order and trade events.
#[derive(Debug)]
pub struct UserStream {
    pub credentials: ApiCredentials,
}

impl UserStream {
    pub fn new(credentials: ApiCredentials) -> (r: UserStream)
        ensures
            r.credentials == credentials,
    {
        UserStream { credentials }
    }
}

/// A message of the stream, its fields as texts.
#[derive(Debug)]
pub struct RawUserMessage {
    pub msg_type: Option<String>,
    pub id: Option<String>,
    pub market: Option<String>,
    pub asset_id: Option<String>,
    pub side: Option<String>,
    pub price: Option<String>,
    pub size: Option<String>,
    pub outcome: Option<String>,
    pub status: Option<String>,
    pub timestamp: Option<String>,
    pub maker_order_id: Option<String>,
    pub taker_order_id: Option<String>,
    pub order_id: Option<String>,
    pub original_size: Option<String>,
    pub size_matched: Option<String>,
    pub event_type: Option<String>,
}

/// A field with a text.
pub open spec fn text_field_chars(name: Seq<char>, value: Seq<char>) -> Seq<char> {
    json_quoted(name) + ":"@ + json_quoted(value)
}

/// The text that authenticates a stream.
pub open spec fn auth_chars(credentials: ApiCredentials) -> Seq<char> {
    let auth = "{"@ + (text_field_chars("apiKey"@, credentials.api_key@) + ","@ + text_field_chars(
        "passphrase"@,
        credentials.passphrase@,
    ) + ","@ + text_field_chars("secret"@, credentials.secret@)) + "}"@;
    "{"@ + (json_quoted("auth"@) + ":"@ + auth + ","@ + text_field_chars("type"@, "user"@)) + "}"@
}

/// The text that authenticates a stream for all events of the account.
pub fn build_user_ws_auth_message(credentials: &ApiCredentials) -> (r: String)
    ensures
        r@ == auth_chars(*credentials),
{
    let mut auth: Vec<(String, Json)> = Vec::new();
    auth.push(("apiKey".to_owned(), Json::String(credentials.api_key.clone())));
    auth.push(("passphrase".to_owned(), Json::String(credentials.passphrase.clone())));
    auth.push(("secret".to_owned(), Json::String(credentials.secret.clone())));
    let ghost inner = auth@;
    let mut fields: Vec<(String, Json)> = Vec::new();
    fields.push(("auth".to_owned(), Json::Object(auth)));
    fields.push(("type".to_owned(), Json::String("user".to_owned())));
    let ghost outer = fields@;
    let message = Json::Object(fields);
    proof {
        lemma_three_fields(inner);
        lemma_two_fields(outer);
        assert(json_chars(inner[0].1) == json_quoted(credentials.api_key@));
        assert(json_chars(inner[1].1) == json_quoted(credentials.passphrase@));
        assert(json_chars(inner[2].1) == json_quoted(credentials.secret@));
        assert(json_chars(outer[0].1) == "{"@ + fields_chars(inner, 3) + "}"@);
        assert(json_chars(outer[1].1) == json_quoted("user"@));
        assert(json_chars(message) == "{"@ + fields_chars(outer, 2) + "}"@);
    }
    message.to_text()
}

proof fn lemma_two_fields(v: Seq<(String, Json)>)
    requires
        v.len() == 2,
    ensures
        fields_chars(v, 2) == json_quoted(v[0].0@) + ":"@ + json_chars(v[0].1) + ","@ + (
        json_quoted(v[1].0@) + ":"@ + json_chars(v[1].1)),
{
    assert(fields_chars(v, 0) =~= Seq::<char>::empty());
    assert(fields_chars(v, 1) == fields_chars(v, 0) + comma_before(1) + json_quoted(v[0].0@) + ":"@
        + json_chars(v[0].1));
    assert(fields_chars(v, 2) == fields_chars(v, 1) + comma_before(2) + json_quoted(v[1].0@) + ":"@
        + json_chars(v[1].1));
    assert(fields_chars(v, 2) =~= json_quoted(v[0].0@) + ":"@ + json_chars(v[0].1) + ","@ + (
    json_quoted(v[1].0@) + ":"@ + json_chars(v[1].1)));
}

proof fn lemma_three_fields(v: Seq<(String, Json)>)
    requires
        v.len() == 3,
    ensures
        fields_chars(v, 3) == json_quoted(v[0].0@) + ":"@ + json_chars(v[0].1) + ","@ + (
        json_quoted(v[1].0@) + ":"@ + json_chars(v[1].1)) + ","@ + (json_quoted(v[2].0@) + ":"@
            + json_chars(v[2].1)),
{
    assert(fields_chars(v, 0) =~= Seq::<char>::empty());
    assert(fields_chars(v, 1) == fields_chars(v, 0) + comma_before(1) + json_quoted(v[0].0@) + ":"@
        + json_chars(v[0].1));
    assert(fields_chars(v, 2) == fields_chars(v, 1) + comma_before(2) + json_quoted(v[1].0@) + ":"@
        + json_chars(v[1].1));
    assert(fields_chars(v, 3) == fields_chars(v, 2) + comma_before(3) + json_quoted(v[2].0@) + ":"@
        + json_chars(v[2].1));
    assert(fields_chars(v, 3) =~= json_quoted(v[0].0@) + ":"@ + json_chars(v[0].1) + ","@ + (
    json_quoted(v[1].0@) + ":"@ + json_chars(v[1].1)) + ","@ + (json_quoted(v[2].0@) + ":"@
        + json_chars(v[2].1)));
}

/// Whether a text answers a heartbeat.
pub fn user_ws_text_is_pong(text: &str) -> (r: bool)
    ensures
        r == text_ignoring_case(text@, "PONG"@),
{
    same_ignoring_ascii_case(text, "PONG")
}

/// The status of a trade message; `Matched` where it names no other.
pub open spec fn trade_status_named(text: Seq<char>) -> TradeStatus {
    if text == "MINED"@ {
        TradeStatus::Mined
    } else if text == "CONFIRMED"@ {
        TradeStatus::Confirmed
    } else if text == "RETRYING"@ {
        TradeStatus::Retrying
    } else if text == "FAILED"@ {
        TradeStatus::Failed
    } else {
        TradeStatus::Matched
    }
}

fn trade_status_from(text: &str) -> (r: TradeStatus)
    ensures
        r == trade_status_named(text@),
{
    if same_text(text, "MINED") {
        TradeStatus::Mined
    } else if same_text(text, "CONFIRMED") {
        TradeStatus::Confirmed
    } else if same_text(text, "RETRYING") {
        TradeStatus::Retrying
    } else if same_text(text, "FAILED") {
        TradeStatus::Failed
    } else {
        TradeStatus::Matched
    }
}

/// The trade that a message reports: none without side, status, price and size.
pub open spec fn trade_in(raw: RawUserMessage, now: Timestamp) -> Option<TradeView> {
    match (raw.side, raw.status, raw.price, raw.size) {
        (Some(side), Some(status), Some(price), Some(size)) => match (
            side_named(side@),
            decimal_of_text(price@),
            decimal_of_text(size@),
        ) {
            (Some(side), Some(price), Some(size)) => Some(
                TradeView {
                    id: text_or_empty(opt_text(raw.id)),
                    condition_id: text_or_empty(opt_text(raw.market)),
                    asset_id: text_or_empty(opt_text(raw.asset_id)),
                    side,
                    price,
                    size,
                    outcome: text_or_empty(opt_text(raw.outcome)),
                    status: trade_status_named(status@),
                    timestamp: time_of(opt_text(raw.timestamp), now),
                    maker_order_id: opt_text(raw.maker_order_id),
                    taker_order_id: opt_text(raw.taker_order_id),
                },
            ),
            _ => None,
        },
        _ => None,
    }
}

fn timestamp_in(raw: &RawUserMessage, now: Timestamp) -> (r: Timestamp)
    ensures
        r == time_of(opt_text(raw.timestamp), now),
{
    match &raw.timestamp {
        Some(text) => parse_trade_timestamp(Some(text.as_str()), now),
        None => parse_trade_timestamp(None, now),
    }
}

pub fn parse_trade_event(raw: &RawUserMessage, now: Timestamp) -> (r: Option<TradeEvent>)
    ensures
        opt_trade(r) == trade_in(*raw, now),
{
    let side = match &raw.side {
        Some(text) => match side_from(text.as_str()) {
            Some(side) => side,
            None => return None,
        },
        None => return None,
    };
    let status = match &raw.status {
        Some(text) => trade_status_from(text.as_str()),
        None => return None,
    };
    let price = match &raw.price {
        Some(text) => match Decimal::parse(text.as_str()) {
            Some(price) => price,
            None => return None,
        },
        None => return None,
    };
    let size = match &raw.size {
        Some(text) => match Decimal::parse(text.as_str()) {
            Some(size) => size,
            None => return None,
        },
        None => return None,
    };
    Some(
        TradeEvent {
            id: or_empty(clone_opt_text(&raw.id)),
            condition_id: or_empty(clone_opt_text(&raw.market)),
            asset_id: or_empty(clone_opt_text(&raw.asset_id)),
            side,
            price,
            size,
            outcome: or_empty(clone_opt_text(&raw.outcome)),
            status,
            timestamp: timestamp_in(raw, now),
            maker_order_id: clone_opt_text(&raw.maker_order_id),
            taker_order_id: clone_opt_text(&raw.taker_order_id),
        },
    )
}

/// The kind of change that an order message names, in whatever case; a placement where it names
/// none.
pub open spec fn change_named(text: Seq<char>) -> OrderEventType {
    if text_ignoring_case(text, "PLACEMENT"@) || text_ignoring_case(text, "ORDER"@) {
        OrderEventType::Placement
    } else if text_ignoring_case(text, "UPDATE"@) {
        OrderEventType::Update
    } else if text_ignoring_case(text, "CANCELLATION"@) || text_ignoring_case(text, "CANCEL"@) {
        OrderEventType::Cancellation
    } else {
        OrderEventType::Placement
    }
}

fn change_from(text: &str) -> (r: OrderEventType)
    ensures
        r == change_named(text@),
{
    if same_ignoring_ascii_case(text, "PLACEMENT") || same_ignoring_ascii_case(text, "ORDER") {
        OrderEventType::Placement
    } else if same_ignoring_ascii_case(text, "UPDATE") {
        OrderEventType::Update
    } else if same_ignoring_ascii_case(text, "CANCELLATION") || same_ignoring_ascii_case(
        text,
        "CANCEL",
    ) {
        OrderEventType::Cancellation
    } else {
        OrderEventType::Placement
    }
}

/// The first of two optional texts.
pub open spec fn first_text(a: Option<Seq<char>>, b: Option<Seq<char>>) -> Option<Seq<char>> {
    match a {
        Some(t) => Some(t),
        None => b,
    }
}

/// The change of an order that a message reports: none without side and price, or with a number
/// that is none.
pub open spec fn order_change_in(raw: RawUserMessage, now: Timestamp) -> Option<OrderEventView> {
    match (raw.side, raw.price, first_text(opt_text(raw.event_type), opt_text(raw.msg_type))) {
        (Some(side), Some(price), Some(change)) => match (
            side_named(side@),
            decimal_of_text(price@),
            size_written(opt_text(raw.original_size)),
            size_written(opt_text(raw.size_matched)),
        ) {
            (Some(side), Some(price), Some(original_size), Some(size_matched)) => Some(
                OrderEventView {
                    order_id: text_or_empty(first_text(opt_text(raw.id), opt_text(raw.order_id))),
                    condition_id: text_or_empty(opt_text(raw.market)),
                    asset_id: text_or_empty(opt_text(raw.asset_id)),
                    event_type: change_named(change),
                    side,
                    price,
                    original_size,
                    size_matched,
                    outcome: text_or_empty(opt_text(raw.outcome)),
                    timestamp: time_of(opt_text(raw.timestamp), now),
                },
            ),
            _ => None,
        },
        _ => None,
    }
}

pub fn parse_order_event(raw: &RawUserMessage, now: Timestamp) -> (r: Option<OrderEvent>)
    ensures
        opt_order_event(r) == order_change_in(*raw, now),
{
    let side = match &raw.side {
        Some(text) => match side_from(text.as_str()) {
            Some(side) => side,
            None => return None,
        },
        None => return None,
    };
    let event_type = match &raw.event_type {
        Some(text) => change_from(text.as_str()),
        None => match &raw.msg_type {
            Some(text) => change_from(text.as_str()),
            None => return None,
        },
    };
    let price = match &raw.price {
        Some(text) => match Decimal::parse(text.as_str()) {
            Some(price) => price,
            None => return None,
        },
        None => return None,
    };
    let original_size = match size_from(&raw.original_size) {
        Some(size) => size,
        None => return None,
    };
    let size_matched = match size_from(&raw.size_matched) {
        Some(size) => size,
        None => return None,
    };
    let order_id = match &raw.id {
        Some(id) => id.clone(),
        None => or_empty(clone_opt_text(&raw.order_id)),
    };
    Some(
        OrderEvent {
            order_id,
            condition_id: or_empty(clone_opt_text(&raw.market)),
            asset_id: or_empty(clone_opt_text(&raw.asset_id)),
            event_type,
            side,
            price,
            original_size,
            size_matched,
            outcome: or_empty(clone_opt_text(&raw.outcome)),
            timestamp: timestamp_in(raw, now),
        },
    )
}

/// The event that a message reports, if it reports one: its type, in whatever case, says whether it
/// is a trade or a change of an order.
pub open spec fn event_in(raw: RawUserMessage, now: Timestamp) -> Option<UserEventView> {
    match raw.msg_type {
        Some(t) => if text_ignoring_case(t@, "TRADE"@) {
            match trade_in(raw, now) {
                Some(trade) => Some(UserEventView::Trade(trade)),
                None => None,
            }
        } else if text_ignoring_case(t@, "ORDER"@) || text_ignoring_case(t@, "PLACEMENT"@)
            || text_ignoring_case(t@, "CANCELLATION"@) {
            match order_change_in(raw, now) {
                Some(order) => Some(UserEventView::Order(order)),
                None => None,
            }
        } else {
            None
        },
        None => None,
    }
}

pub open spec fn opt_event(e: Option<UserEvent>) -> Option<UserEventView> {
    match e {
        Some(e) => Some(e@),
        None => None,
    }
}

/// The event that a message reports, if it reports one.
pub fn parse_user_message(raw: &RawUserMessage) -> (r: Option<UserEvent>)
    ensures
        exists|now: Timestamp| opt_event(r) == #[trigger] event_in(*raw, now),
{
    let now = utc_now();
    parse_user_message_at(raw, now)
}

/// The event that a message reports, if it reports one, as read at `now`.
pub fn parse_user_message_at(raw: &RawUserMessage, now: Timestamp) -> (r: Option<UserEvent>)
    ensures
        opt_event(r) == event_in(*raw, now),
{
    let msg_type = match &raw.msg_type {
        Some(t) => t.as_str(),
        None => return None,
    };
    if same_ignoring_ascii_case(msg_type, "TRADE") {
        match parse_trade_event(raw, now) {
            Some(event) => Some(UserEvent::Trade(event)),
            None => None,
        }
    } else if same_ignoring_ascii_case(msg_type, "ORDER") || same_ignoring_ascii_case(
        msg_type,
        "PLACEMENT",
    ) || same_ignoring_ascii_case(msg_type, "CANCELLATION") {
        match parse_order_event(raw, now) {
            Some(event) => Some(UserEvent::Order(event)),
            None => None,
        }
    } else {
        None
    }
}

/// What comes in over a connection.
#[derive(Debug)]
pub enum Frame {
    /// The answer to a heartbeat.
    PongText,
    /// A text, with the event that it reports, if any.
    Text(Option<UserEvent>),
    Ping,
    Pong,
    /// Anything else that is not an end.
    Other,
    Closed,
    Failed,
    Ended,
}

/// Why a connection is given up.
#[derive(Clone, Copy, Debug, PartialEq, Eq, Structural)]
pub enum StreamEnd {
    ServerClosed,
    WebSocketError,
    StreamEnded,
    HeartbeatTimeout,
    PingFailed,
}

impl StreamEnd {
    /// The end in words; `cause` is the error of the connection, where there is one.
    pub fn message(self, cause: &str) -> (r: String)
        ensures
            r@ == match self {
                StreamEnd::ServerClosed => "Server closed connection"@,
                StreamEnd::WebSocketError => "WebSocket error: "@ + cause@,
                StreamEnd::StreamEnded => "WebSocket stream ended"@,
                StreamEnd::HeartbeatTimeout => "Heartbeat timeout — WS silent for 90s"@,
                StreamEnd::PingFailed => "Failed to send ping"@,
            },
    {
        match self {
            StreamEnd::ServerClosed => "Server closed connection".to_owned(),
            StreamEnd::WebSocketError => join2("WebSocket error: ", cause),
            StreamEnd::StreamEnded => "WebSocket stream ended".to_owned(),
            StreamEnd::HeartbeatTimeout => "Heartbeat timeout — WS silent for 90s".to_owned(),
            StreamEnd::PingFailed => "Failed to send ping".to_owned(),
        }
    }
}

/// What a frame calls for.
#[derive(Debug)]
pub struct FrameActions {
    /// Events to hand on, in order. `Connected` is handed on whether or not it is received; where
    /// another one is not received, the stream is over.
    pub events: Vec<UserEvent>,
    /// A ping is to be answered.
    pub answer_ping: bool,
    /// The connection is to be given up.
    pub end: Option<StreamEnd>,
}

pub open spec fn event_views(v: Seq<UserEvent>) -> Seq<UserEventView> {
    v.map_values(|e: UserEvent| e@)
}

/// A connection of the stream.
#[derive(Clone, Copy, Debug)]
pub struct UserSession {
    /// This is not the first connection.
    pub reconnect: bool,
    /// The first frame has come in.
    pub connected: bool,
    /// When a frame came in last, in nanoseconds.
    pub last_message_at: u64,
}

/// The frame shows that the connection is alive.
pub open spec fn is_alive(frame: Frame) -> bool {
    frame is PongText || frame is Text || frame is Ping || frame is Pong
}

/// The event that a frame is handed on as.
pub open spec fn event_for(frame: Frame) -> UserEventView {
    match frame {
        Frame::Text(Some(event)) => event@,
        Frame::Closed | Frame::Failed | Frame::Ended => UserEventView::Disconnected,
        _ => UserEventView::RawActivity,
    }
}

/// The events that a frame is handed on as: the first sign of life comes after `Connected`.
pub open spec fn events_for(session: UserSession, frame: Frame) -> Seq<UserEventView> {
    if frame is Other {
        Seq::empty()
    } else if is_alive(frame) && !session.connected {
        seq![UserEventView::Connected(session.reconnect), event_for(frame)]
    } else {
        seq![event_for(frame)]
    }
}

pub open spec fn end_for(frame: Frame) -> Option<StreamEnd> {
    match frame {
        Frame::Closed => Some(StreamEnd::ServerClosed),
        Frame::Failed => Some(StreamEnd::WebSocketError),
        Frame::Ended => Some(StreamEnd::StreamEnded),
        _ => None,
    }
}

impl UserSession {
    pub fn new(reconnect: bool, now: u64) -> (r: UserSession)
        ensures
            r == (UserSession { reconnect, connected: false, last_message_at: now }),
    {
        UserSession { reconnect, connected: false, last_message_at: now }
    }

    /// What a frame that comes in at `now` calls for.
    pub fn frame(&mut self, frame: Frame, now: u64) -> (r: FrameActions)
        ensures
            *final(self) == if is_alive(frame) {
                (UserSession { connected: true, last_message_at: now, ..*old(self) })
            } else {
                *old(self)
            },
            event_views(r.events@) == events_for(*old(self), frame),
            r.answer_ping == (frame is Ping),
            r.end == end_for(frame),
    {
        let mut events: Vec<UserEvent> = Vec::new();
        let alive = match &frame {
            Frame::PongText | Frame::Text(_) | Frame::Ping | Frame::Pong => true,
            _ => false,
        };
        let ghost before = *self;
        if alive {
            if !self.connected {
                events.push(UserEvent::Connected { reconnect: self.reconnect });
            }
            self.connected = true;
            self.last_message_at = now;
        }
        let (event, answer_ping, end) = match frame {
            Frame::Text(Some(event)) => (Some(event), false, None),
            Frame::Text(None) | Frame::PongText | Frame::Pong => (
                Some(UserEvent::RawActivity),
                false,
                None,
            ),
            Frame::Ping => (Some(UserEvent::RawActivity), true, None),
            Frame::Other => (None, false, None),
            Frame::Closed => (Some(UserEvent::Disconnected), false, Some(StreamEnd::ServerClosed)),
            Frame::Failed => (Some(UserEvent::Disconnected), false, Some(StreamEnd::WebSocketError)),
            Frame::Ended => (Some(UserEvent::Disconnected), false, Some(StreamEnd::StreamEnded)),
        };
        match event {
            Some(event) => {
                events.push(event);
            },
            None => {},
        }
        assert(event_views(events@) =~= events_for(before, frame));
        FrameActions { events, answer_ping, end }
    }

    /// Whether the heartbeat at `now` finds the connection silent for too long.
    pub fn is_dead(&self, now: u64) -> (r: bool)
        ensures
            r == (now - self.last_message_at > HEARTBEAT_TIMEOUT_NANOS),
    {
        now > self.last_message_at && now - self.last_message_at > HEARTBEAT_TIMEOUT_NANOS
    }
}

/// `Connected` is handed on once for each connection, before anything else of it.
pub proof fn law_connected_comes_first(session: UserSession, frame: Frame, next: Frame)
    requires
        !session.connected,
        is_alive(frame),
        !(frame matches Frame::Text(Some(e)) && e is Connected),
        !(next matches Frame::Text(Some(e)) && e is Connected),
    ensures
        events_for(session, frame)[0] == UserEventView::Connected(session.reconnect),
        !(events_for(session, frame)[1] is Connected),
        forall|i: int|
            0 <= i < events_for(UserSession { connected: true, ..session }, next).len() ==> !(
            #[trigger] events_for(UserSession { connected: true, ..session }, next)[i]
                is Connected),
{
}

/// The wait that is due after one of so many seconds.
pub open spec fn next_wait(wait_secs: int) -> int {
    if wait_secs * 2 > 30 {
        30
    } else {
        wait_secs * 2
    }
}

/// How long to wait before the next connection.
#[derive(Clone, Copy, Debug)]
pub struct Backoff {
    pub backoff_secs: u64,
    pub reconnect: bool,
}

impl Backoff {
    pub open spec fn well_formed(self) -> bool {
        1 <= self.backoff_secs <= 30
    }

    /// The wait after a connection that lasted so long.
    pub open spec fn wait_after(self, lasted_secs: int) -> int {
        if lasted_secs > 60 {
            1
        } else {
            self.backoff_secs as int
        }
    }

    pub fn new() -> (r: Backoff)
        ensures
            r == (Backoff { backoff_secs: 1, reconnect: false }),
            r.well_formed(),
    {
        Backoff { backoff_secs: 1, reconnect: false }
    }

    /// Seconds to wait after a connection failed that had lasted `lasted_secs`: doubled each time up
    /// to half a minute, and from the start again after a connection of more than a minute.
    pub fn failed(&mut self, lasted_secs: u64) -> (wait_secs: u64)
        requires
            old(self).well_formed(),
        ensures
            wait_secs == old(self).wait_after(lasted_secs as int),
            final(self).backoff_secs == next_wait(wait_secs as int),
            final(self).reconnect,
            final(self).well_formed(),
    {
        if lasted_secs > 60 {
            self.backoff_secs = 1;
        }
        let wait_secs: u64 = self.backoff_secs;
        let doubled: u64 = wait_secs * 2;
        self.backoff_secs = if doubled > 30 {
            30
        } else {
            doubled
        };
        self.reconnect = true;
        wait_secs
    }
}

} // verus!
