//! How a fill is offset, and what is known of it afterwards.

use crate::decimal::{unit, Decimal};
use crate::models::{
    LiveOrder, OrderAmountKind, OrderRequest, OrderResult, OrderType, PriceLevel, QuoteLeg, Side,
};
use crate::trading::hedge_executor::{
    asks_for, begins_hedge, hedge_params, hedge_terms, lookup_state, plan_input, unlimited_input,
    verified_metadata, CancelOrderOutcome, HedgeAction, HedgeIntent, HedgeResolution,
    HedgeVerificationState, PlanInput,
};
use vstd::prelude::*;

verus! {

/// What was bought is offset by buying the other token, what was sold by selling it.
pub proof fn law_fills_are_offset_by_the_other_token(
    leg: QuoteLeg,
    yes_token_id: Seq<char>,
    no_token_id: Seq<char>,
)
    ensures
        ({
            let (token, side) = hedge_params(leg, yes_token_id, no_token_id);
            let swapped = hedge_params(leg, no_token_id, yes_token_id).0;
            &&& leg == QuoteLeg::YesBid ==> token == no_token_id && side == Side::Buy
            &&& leg == QuoteLeg::YesAsk ==> token == no_token_id && side == Side::Sell
            &&& leg == QuoteLeg::NoBid ==> token == yes_token_id && side == Side::Buy
            &&& leg == QuoteLeg::NoAsk ==> token == yes_token_id && side == Side::Sell
            &&& token == yes_token_id ==> swapped == no_token_id
            &&& token == no_token_id ==> swapped == yes_token_id
        }),
{
}

/// A hedge asks for the planned shares, or those of the fill where nothing was planned, less what is
/// below a hundredth. It pays up to the planned limit, or ninety-nine hundredths.
pub proof fn law_hedges_ask_for_the_planned_shares(
    intent: HedgeIntent,
    resolution: Option<HedgeResolution>,
    shares: int,
)
    requires
        shares == match resolution {
            Some(plan) => plan.hedge_shares@,
            None => intent.fill_size@,
        },
        shares >= 0,
    ensures
        ({
            let (size, limit) = hedge_terms(intent, resolution);
            &&& size <= shares && shares - size < 100_000_000_000_000_000_000_000_000
            &&& size % 100_000_000_000_000_000_000_000_000 == 0
            &&& resolution matches Some(plan) ==> limit == plan.hedge_limit_price@
            &&& resolution is None ==> limit * 100 == 99 * unit()
        }),
{
}

/// A hedge buy is known to have filled exactly where its order was found with shares matched, and
/// known not to have where it was found with none. An order that was not found, or not looked up,
/// says nothing. What was found of it is kept, and so is why it was not cancelled.
pub proof fn law_lookups_decide_on_hedges(
    result: OrderResult,
    cancel: Result<CancelOrderOutcome, String>,
    lookup: Result<Option<LiveOrder>, String>,
)
    ensures
        ({
            let state = lookup_state(lookup);
            let m = verified_metadata(result, cancel, lookup);
            let found = lookup is Ok && lookup->Ok_0 is Some;
            let order = lookup->Ok_0->0;
            &&& (state == HedgeVerificationState::VerifiedFilled) == (found && order.size_matched@
                > 0)
            &&& (state == HedgeVerificationState::VerifiedZeroFill) == (found
                && order.size_matched@ <= 0)
            &&& (state == HedgeVerificationState::Unknown) == !found
            &&& m.lookup_matched_shares == if found {
                Some(order.size_matched@)
            } else {
                None
            }
            &&& m.lookup_error is Some == lookup is Err
            &&& (m.cancel_reason is None) == (cancel is Ok && cancel->Ok_0 is Confirmed)
            &&& m.trade_ids == result.trade_ids@
        }),
{
}

/// The planner is given the fill, the asks of the other token to hedge with, the bids of the filled one
/// to sell back to, the shares, and what may be spent; without a limit that is all that decimals
/// reach.
pub proof fn law_planner_is_given_what_was_filled(
    fill_price: Decimal,
    hedge_asks: Seq<PriceLevel>,
    sellback_bids: Seq<PriceLevel>,
    total_size: Decimal,
    budget: Decimal,
    tick_size: Decimal,
)
    ensures
        ({
            let inp = plan_input(
                fill_price,
                hedge_asks,
                sellback_bids,
                total_size,
                budget,
                tick_size,
            );
            let free = unlimited_input(fill_price, hedge_asks, sellback_bids, total_size, tick_size);
            &&& inp.fill == fill_price@ && inp.total == total_size@ && inp.tick == tick_size@
            &&& inp.asks == hedge_asks && inp.bids == sellback_bids
            &&& inp.budget == budget@
            &&& free == (PlanInput { budget: free.budget, ..inp })
            &&& free.budget == 79_228_162_514_264_337_593_543_950_335 * unit()
        }),
{
}

/// A hedge order asks for the hedge token on the terms given, as a count of shares that may take what
/// rests.
pub proof fn law_hedge_orders_are_as_intended(
    request: OrderRequest,
    intent: HedgeIntent,
    side: Side,
    order_type: OrderType,
    price: int,
    size: int,
)
    requires
        asks_for(request, intent, side, order_type, price, size),
    ensures
        request.token_id@ == intent.hedge_token_id@,
        request.side == side && request.order_type == order_type,
        request.price@ == price && request.size@ == size,
        request.amount_kind == OrderAmountKind::Shares && !request.post_only,
        request.neg_risk == intent.neg_risk && request.tick_size@ == intent.tick_size@,
{
}

/// A hedge of at least a hundredth of a share is placed on the side intended: a purchase that may rest, up
/// to its limit, or a sale at any price from a hundredth on that fills at once. One of less is not
/// placed, and has failed.
pub proof fn law_hedges_begin_on_the_side_intended(
    action: HedgeAction,
    intent: HedgeIntent,
    resolution: Option<HedgeResolution>,
    shares: int,
)
    requires
        begins_hedge(action, intent, resolution),
        shares == match resolution {
            Some(plan) => plan.hedge_shares@,
            None => intent.fill_size@,
        },
        shares >= 0,
    ensures
        ({
            let least = 100_000_000_000_000_000_000_000_000int;
            &&& action is Finish <==> shares < least
            &&& action matches HedgeAction::Finish(result) ==> !result.success
                && result.order_result is None
            &&& action is PlaceBuy <==> shares >= least && intent.hedge_side == Side::Buy
            &&& action is PlaceSell <==> shares >= least && intent.hedge_side == Side::Sell
            &&& action matches HedgeAction::PlaceBuy(request) ==> {
                &&& request.side == Side::Buy && request.order_type == OrderType::GTC
                &&& request.size@ <= shares < request.size@ + least
                &&& resolution matches Some(plan) ==> request.price@ == plan.hedge_limit_price@
                &&& resolution is None ==> 100 * request.price@ == 99 * unit()
                &&& request.token_id@ == intent.hedge_token_id@
            }
            &&& action matches HedgeAction::PlaceSell(request) ==> {
                &&& request.side == Side::Sell && request.order_type == OrderType::FOK
                &&& request.size@ <= shares < request.size@ + least
                &&& 100 * request.price@ == unit()
                &&& request.token_id@ == intent.hedge_token_id@
            }
        }),
{
}

} // verus!
