//! What requests are sent and how answers are read.

use crate::decimal::{decimal_of_text, lemma_exact_quotient, representable, unit};
use crate::json::Json;
use crate::keyed::{find, lemma_find, lemma_found, lemma_not_found};
use crate::models::{
    OrderAmountKind, OrderRequest, OrderStatus, OrderType, Outcome, Side,
};
use crate::text::opt_text;
use crate::time::Timestamp;
use crate::trading::client::{
    atomic_balance, cancel_answer, cancel_by_lookup, cursor_after, fee_of_token, fresh_fee,
    live_order_of, order_type_named, outcome_named, placed_status, readable_orders, request_fault,
    side_named, status_named, usdc_balance, with_fee, CancelView, FeeView, RawOrder,
};
use vstd::prelude::*;

verus! {

/// A request is sent exactly where it counts shares and is not a purchase that must fill at once.
pub proof fn law_share_sized_requests_are_sent(request: OrderRequest)
    ensures
        request_fault(request) is None == (request.amount_kind == OrderAmountKind::Shares && !(
        request.side == Side::Buy && (request.order_type == OrderType::FOK || request.order_type
            == OrderType::FAK))),
{
}

/// A balance is counted in millionths of a dollar.
pub proof fn law_balances_count_millionths(body: Json, usdc: int)
    requires
        usdc * 1_000_000 == atomic_balance(body),
        representable(usdc),
    ensures
        usdc_balance(body) == usdc,
{
    assert(atomic_balance(body) * unit() == usdc * (1_000_000 * unit())) by (nonlinear_arith)
        requires
            usdc * 1_000_000 == atomic_balance(body),
    ;
    lemma_exact_quotient(atomic_balance(body), 1_000_000 * unit(), usdc);
}

/// A rate that was fetched serves for three hundred seconds, whatever became of other tokens; a token
/// without one has none.
pub proof fn law_fees_serve_for_their_token(
    s: Seq<FeeView>,
    e: FeeView,
    other: Seq<char>,
    now: int,
)
    requires
        other != e.token_id,
    ensures
        fresh_fee(with_fee(s, e), e.token_id, now) is Some <==> now - e.fetched_at < 300_000_000_000,
        now - e.fetched_at < 300_000_000_000 ==> fresh_fee(with_fee(s, e), e.token_id, now) == Some(
            e.rate_bps,
        ),
        fresh_fee(with_fee(s, e), other, now) == fresh_fee(s, other, now),
        fresh_fee(Seq::empty(), other, now) is None,
{
    crate::trading::client::law_fee_is_cached(s, e, now);
    let t = with_fee(s, e);
    let p = fee_of_token(other);
    lemma_find(s, fee_of_token(e.token_id));
    lemma_find(s, p);
    lemma_not_found(Seq::<FeeView>::empty(), p);
    match find(s, p) {
        Some(i) => {
            assert(t[i] == s[i]);
            assert forall|j: int| 0 <= j < i implies !p(#[trigger] t[j]) by {
                assert(!p(s[j]));
            }
            lemma_found(t, p, i);
        },
        None => {
            assert forall|j: int| 0 <= j < t.len() implies !p(#[trigger] t[j]) by {
                if j < s.len() {
                    assert(!p(s[j]));
                }
            }
            lemma_not_found(t, p);
        },
    }
}

/// What is named is told by its name, and every other name is that of none.
pub proof fn law_names_are_told_apart(text: Seq<char>)
    ensures
        side_named(text) == Some(Side::Buy) <==> text == "BUY"@,
        side_named(text) == Some(Side::Sell) <==> text == "SELL"@,
        outcome_named(text) == Some(Outcome::Yes) <==> text == "YES"@,
        outcome_named(text) == Some(Outcome::No) <==> text == "NO"@,
        status_named(text) == OrderStatus::Live <==> text == "live"@ || text
            == "ORDER_STATUS_LIVE"@,
        status_named(text) == OrderStatus::Matched <==> text == "matched"@ || text
            == "ORDER_STATUS_MATCHED"@,
        status_named(text) == OrderStatus::Delayed <==> text == "delayed"@ || text
            == "ORDER_STATUS_DELAYED"@,
        status_named(text) == OrderStatus::Cancelled <==> text == "cancelled"@ || text
            == "ORDER_STATUS_CANCELLED"@,
        placed_status(Some(text)) == OrderStatus::Live <==> text == "live"@,
        placed_status(Some(text)) == OrderStatus::Matched <==> text == "matched"@,
        placed_status(Some(text)) == OrderStatus::Delayed <==> text == "delayed"@,
        placed_status(None) == OrderStatus::Invalid,
        order_type_named(Some(text)) == OrderType::GTD <==> text == "GTD"@,
        order_type_named(Some(text)) == OrderType::FOK <==> text == "FOK"@,
        order_type_named(Some(text)) == OrderType::FAK <==> text == "FAK"@,
        order_type_named(None) == OrderType::GTC,
{
    reveal_strlit("BUY");
    reveal_strlit("SELL");
    reveal_strlit("YES");
    reveal_strlit("NO");
    reveal_strlit("live");
    reveal_strlit("matched");
    reveal_strlit("delayed");
    reveal_strlit("cancelled");
    reveal_strlit("ORDER_STATUS_LIVE");
    reveal_strlit("ORDER_STATUS_MATCHED");
    reveal_strlit("ORDER_STATUS_DELAYED");
    reveal_strlit("ORDER_STATUS_CANCELLED");
    reveal_strlit("GTD");
    reveal_strlit("FOK");
    reveal_strlit("FAK");
    assert("BUY"@.len() == 3 && "SELL"@.len() == 4 && "YES"@.len() == 3 && "NO"@.len() == 2);
    assert("live"@.len() == 4 && "matched"@.len() == 7 && "delayed"@.len() == 7
        && "cancelled"@.len() == 9);
    assert("ORDER_STATUS_LIVE"@.len() == 17 && "ORDER_STATUS_MATCHED"@.len() == 20
        && "ORDER_STATUS_DELAYED"@.len() == 20 && "ORDER_STATUS_CANCELLED"@.len() == 22);
    assert("matched"@[0] != "delayed"@[0]);
    assert("ORDER_STATUS_MATCHED"@[13] != "ORDER_STATUS_DELAYED"@[13]);
    assert("GTD"@[0] != "FOK"@[0] && "GTD"@[0] != "FAK"@[0] && "FOK"@[1] != "FAK"@[1]);
}

/// An order is read field by field: each number is the one that its own text writes, zero for a size
/// that is not written. Without an id, a status, a side, an outcome and a price it is not read.
pub proof fn law_orders_are_read_field_by_field(raw: RawOrder, now: Timestamp)
    ensures
        live_order_of(raw, now) is Some ==> raw.id is Some && raw.status is Some && raw.side is Some
            && raw.outcome is Some && raw.price is Some,
        live_order_of(raw, now) matches Some(o) ==> {
            &&& o.id == raw.id->0@
            &&& Some(o.price) == decimal_of_text(raw.price->0@)
            &&& raw.original_size matches Some(t) ==> Some(o.original_size) == decimal_of_text(t@)
            &&& raw.size_matched matches Some(t) ==> Some(o.size_matched) == decimal_of_text(t@)
            &&& raw.original_size is None ==> Some(o.original_size) == decimal_of_text("0"@)
            &&& raw.size_matched is None ==> Some(o.size_matched) == decimal_of_text("0"@)
            &&& Some(o.side) == side_named(raw.side->0@)
            &&& Some(o.outcome) == outcome_named(raw.outcome->0@)
            &&& o.status == status_named(raw.status->0@)
            &&& raw.market matches Some(t) ==> o.condition_id == t@
            &&& raw.asset_id matches Some(t) ==> o.asset_id == t@
        },
{
}

/// The orders of a page are those that can be read, in order, and no other.
pub proof fn law_pages_keep_what_can_be_read(page: Seq<RawOrder>, now: Timestamp)
    ensures
        readable_orders(page, now).len() <= page.len(),
        forall|i: int|
            0 <= i < page.len() && live_order_of(#[trigger] page[i], now) is Some
                ==> readable_orders(page, now).contains(live_order_of(page[i], now)->0),
        forall|k: int|
            0 <= k < readable_orders(page, now).len() ==> exists|i: int|
                0 <= i < page.len() && live_order_of(#[trigger] page[i], now) == Some(
                    #[trigger] readable_orders(page, now)[k],
                ),
    decreases page.len(),
{
    let all = readable_orders(page, now);
    if page.len() > 0 {
        let rest = page.drop_last();
        let before = readable_orders(rest, now);
        law_pages_keep_what_can_be_read(rest, now);
        assert forall|i: int|
            0 <= i < page.len() && live_order_of(#[trigger] page[i], now) is Some implies all.contains(
            live_order_of(page[i], now)->0,
        ) by {
            if i < rest.len() {
                assert(rest[i] == page[i]);
                let k = choose|k: int|
                    0 <= k < before.len() && before[k] == live_order_of(rest[i], now)->0;
                assert(all[k] == before[k]);
            } else {
                assert(all[all.len() - 1] == live_order_of(page.last(), now)->0);
            }
        }
        assert forall|k: int| 0 <= k < all.len() implies exists|i: int|
            0 <= i < page.len() && live_order_of(#[trigger] page[i], now) == Some(
                #[trigger] all[k],
            ) by {
            if k < before.len() {
                assert(all[k] == before[k]);
                let i = choose|i: int|
                    0 <= i < rest.len() && live_order_of(#[trigger] rest[i], now) == Some(
                        before[k],
                    );
                assert(page[i] == rest[i]);
            } else {
                assert(live_order_of(page[page.len() - 1], now) == Some(all[k]));
            }
        }
    }
}

/// A page is followed by the one that it names, unless that name is empty or marks the end.
pub proof fn law_pages_end_at_the_marker(next: Option<Seq<char>>)
    ensures
        cursor_after(next) is None <==> next is None || next->0.len() == 0 || next == Some("LTE="@),
        cursor_after(next) is Some ==> cursor_after(next) == next,
{
}

/// A cancellation is confirmed by an answer that lists the order as cancelled, whatever else it says;
/// one that lists it as refused refuses it; any other tells nothing.
pub proof fn law_answers_name_what_was_cancelled(order_id: Seq<char>, body: Json)
    ensures
        ({
            let cancelled = match crate::json::field_of(body, "canceled"@) {
                Some(Json::Array(v)) => exists|i: int|
                    0 <= i < v@.len() && (#[trigger] v@[i]).as_text() == Some(order_id),
                _ => false,
            };
            let refused = match crate::json::field_of(body, "not_canceled"@) {
                Some(list) => crate::json::field_of(list, order_id) is Some,
                None => false,
            };
            &&& cancel_answer(order_id, body) == Some(CancelView::Confirmed) <==> cancelled
            &&& (cancel_answer(order_id, body) is Some && cancel_answer(order_id, body)->0
                is Rejected) == (!cancelled && refused)
            &&& cancel_answer(order_id, body) is None <==> !cancelled && !refused
        }),
{
}

/// Where the answer tells nothing, an order that is found and no longer live is cancelled; one that is
/// live, or not found, is not known to be.
pub proof fn law_lookups_confirm_what_is_not_live(order_id: Seq<char>, status: Option<OrderStatus>)
    ensures
        cancel_by_lookup(order_id, status) == CancelView::Confirmed <==> status is Some && status
            != Some(OrderStatus::Live),
        !(cancel_by_lookup(order_id, status) is Rejected),
{
}

} // verus!
