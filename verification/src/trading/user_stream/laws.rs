//! How messages of the account's stream are read, and how long reconnecting waits.

use crate::decimal::decimal_of_text;
use crate::models::events::{OrderEventType, TradeStatus, UserEventView};
use crate::models::Side;
use crate::text::{opt_text, text_ignoring_case};
use crate::time::Timestamp;
use crate::trading::client::side_named;
use crate::trading::trade_parser::{side_of, trade_of, TradeEventInput};
use crate::trading::user_stream::{
    end_for, event_in, events_for, is_alive, next_wait, order_change_in, trade_in,
    trade_status_named, Backoff, Frame, RawUserMessage, UserSession,
};
use vstd::prelude::*;

verus! {

/// A trade is read field by field: price and size are the numbers that their own texts write.
pub proof fn law_trades_are_read_field_by_field(
    raw: RawUserMessage,
    input: TradeEventInput,
    now: Timestamp,
)
    ensures
        trade_in(raw, now) matches Some(t) ==> {
            &&& raw.side is Some && raw.status is Some && raw.price is Some && raw.size is Some
            &&& Some(t.price) == decimal_of_text(raw.price->0@)
            &&& Some(t.size) == decimal_of_text(raw.size->0@)
            &&& Some(t.side) == side_named(raw.side->0@)
            &&& raw.id matches Some(id) ==> t.id == id@
            &&& raw.market matches Some(id) ==> t.condition_id == id@
            &&& raw.asset_id matches Some(id) ==> t.asset_id == id@
            &&& t.maker_order_id == opt_text(raw.maker_order_id)
            &&& t.taker_order_id == opt_text(raw.taker_order_id)
        },
        trade_of(input, now) matches Some(t) ==> {
            &&& Some(t.price) == decimal_of_text(input.price@)
            &&& Some(t.size) == decimal_of_text(input.size@)
            &&& Some(t.side) == side_of(input.side@)
            &&& t.id == input.id@ && t.condition_id == input.condition_id@ && t.asset_id
                == input.asset_id@
            &&& t.maker_order_id == opt_text(input.maker_order_id)
            &&& t.taker_order_id == opt_text(input.taker_order_id)
        },
        trade_of(input, now) is Some <==> side_of(input.side@) is Some && decimal_of_text(
            input.price@,
        ) is Some && decimal_of_text(input.size@) is Some,
{
}

/// A side is bought or sold by its name, in whatever case.
pub proof fn law_sides_are_read_in_any_case(text: Seq<char>)
    ensures
        side_of(text) == Some(Side::Buy) <==> text_ignoring_case(text, "BUY"@),
        side_of(text) == Some(Side::Sell) <==> text_ignoring_case(text, "SELL"@),
{
    reveal_strlit("BUY");
    reveal_strlit("SELL");
    assert("BUY"@.len() == 3 && "SELL"@.len() == 4);
}

/// A trade is as far along as its name says; one without a name that is known counts as matched.
pub proof fn law_trade_statuses_are_told_by_name(text: Seq<char>)
    ensures
        trade_status_named(text) == TradeStatus::Mined <==> text == "MINED"@,
        trade_status_named(text) == TradeStatus::Confirmed <==> text == "CONFIRMED"@,
        trade_status_named(text) == TradeStatus::Retrying <==> text == "RETRYING"@,
        trade_status_named(text) == TradeStatus::Failed <==> text == "FAILED"@,
{
    reveal_strlit("MINED");
    reveal_strlit("CONFIRMED");
    reveal_strlit("RETRYING");
    reveal_strlit("FAILED");
    assert("MINED"@.len() == 5 && "CONFIRMED"@.len() == 9 && "RETRYING"@.len() == 8
        && "FAILED"@.len() == 6);
}

/// A change of an order is read field by field, and is of the kind that its event type says, or else
/// its message type.
pub proof fn law_order_changes_are_read_field_by_field(raw: RawUserMessage, now: Timestamp)
    ensures
        order_change_in(raw, now) matches Some(e) ==> {
            let kind = if raw.event_type is Some {
                raw.event_type->0@
            } else {
                raw.msg_type->0@
            };
            &&& raw.side is Some && raw.price is Some
            &&& Some(e.price) == decimal_of_text(raw.price->0@)
            &&& Some(e.side) == side_named(raw.side->0@)
            &&& raw.original_size matches Some(t) ==> Some(e.original_size) == decimal_of_text(t@)
            &&& raw.size_matched matches Some(t) ==> Some(e.size_matched) == decimal_of_text(t@)
            &&& raw.id matches Some(id) ==> e.order_id == id@
            &&& raw.id is None && raw.order_id is Some ==> e.order_id == raw.order_id->0@
            &&& e.event_type == OrderEventType::Update <==> text_ignoring_case(kind, "UPDATE"@)
            &&& e.event_type == OrderEventType::Cancellation <==> text_ignoring_case(
                kind,
                "CANCELLATION"@,
            ) || text_ignoring_case(kind, "CANCEL"@)
        },
{
    reveal_strlit("UPDATE");
    reveal_strlit("CANCELLATION");
    reveal_strlit("CANCEL");
    reveal_strlit("PLACEMENT");
    reveal_strlit("ORDER");
    assert("UPDATE"@.len() == 6 && "CANCELLATION"@.len() == 12 && "CANCEL"@.len() == 6
        && "PLACEMENT"@.len() == 9 && "ORDER"@.len() == 5);
    assert("UPDATE"@[0] == 'U' && "CANCEL"@[0] == 'C');
    let kind = if raw.event_type is Some {
        raw.event_type->0@
    } else {
        raw.msg_type->0@
    };
    if text_ignoring_case(kind, "UPDATE"@) && text_ignoring_case(kind, "CANCEL"@) {
        assert(crate::text::caseless(kind[0]) == crate::text::caseless("UPDATE"@[0]));
        assert(crate::text::caseless(kind[0]) == crate::text::caseless("CANCEL"@[0]));
    }
}

/// A message of a trade tells of a trade, one of an order of a change, and no other of anything.
pub proof fn law_messages_tell_what_their_type_says(raw: RawUserMessage, now: Timestamp)
    ensures
        event_in(raw, now) matches Some(e) ==> {
            &&& raw.msg_type is Some
            &&& e is Trade ==> text_ignoring_case(raw.msg_type->0@, "TRADE"@) && trade_in(
                raw,
                now,
            ) is Some
            &&& e is Order ==> order_change_in(raw, now) is Some
            &&& e is Trade || e is Order
        },
        raw.msg_type is None ==> event_in(raw, now) is None,
        raw.msg_type is Some && text_ignoring_case(raw.msg_type->0@, "TRADE"@) && trade_in(
            raw,
            now,
        ) is Some ==> event_in(raw, now) == Some(UserEventView::Trade(trade_in(raw, now)->0)),
{
}

/// A frame that shows life is handed on, behind the news of the connection where it is the first; one
/// that ends the stream is handed on as its end.
pub proof fn law_frames_are_handed_on(session: UserSession, frame: Frame)
    ensures
        end_for(frame) is Some <==> frame is Closed || frame is Failed || frame is Ended,
        end_for(frame) is Some ==> events_for(session, frame) == seq![UserEventView::Disconnected],
        is_alive(frame) ==> events_for(session, frame).len() == if session.connected {
            1int
        } else {
            2
        },
        frame is Other ==> events_for(session, frame).len() == 0,
        frame matches Frame::Text(Some(event)) ==> events_for(session, frame).last() == event@,
{
}

/// Waits double from one second up to thirty and stay there; a connection of more than a minute brings
/// the wait back to one second.
pub proof fn law_waits_double_up_to_half_a_minute(b: Backoff, lasted: int, wait: int)
    requires
        b.well_formed(),
        1 <= wait <= 30,
    ensures
        lasted > 60 ==> b.wait_after(lasted) == 1,
        lasted <= 60 ==> b.wait_after(lasted) == b.backoff_secs,
        wait <= 15 ==> next_wait(wait) == wait + wait,
        wait > 15 ==> next_wait(wait) == 30,
        next_wait(next_wait(next_wait(next_wait(next_wait(1))))) == 30,
{
}

} // verus!
