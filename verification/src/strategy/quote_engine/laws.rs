//! Where the quotes of a market must lie.

use crate::config::StrategyConfig;
use crate::decimal::{
    decimal_of_text, floor_value, lemma_exact_product, lemma_exact_product_fits,
    lemma_exact_quotient, lemma_representable_bound, lemma_whole, mantissa_bound, max_value,
    representable, unit,
};
use crate::models::{
    CanonicalMarket, OrderBookSnapshot, QuoteLeg, QuoteSet, QuoteStatus,
};
use crate::strategy::quote_engine::{
    ask_fits, ask_quote, bid_fits, bid_quote, market_tick, quotes_market, tick_floor,
    tick_floor_fits, wanted_size,
};
use vstd::prelude::*;

verus! {

/// The number of ticks in a price is a decimal, and so is the value of its whole ticks.
pub open spec fn ticks_exactly(price: int, tick: int) -> bool {
    &&& tick > 0
    &&& (price * unit()) % tick == 0
    &&& representable((price * unit()) / tick)
    &&& -mantissa_bound() < price / tick < mantissa_bound()
    &&& representable((price / tick) * tick)
}

/// A price is rounded to the highest multiple of the tick that is not above it.
pub proof fn law_prices_round_down_to_whole_ticks(price: int, tick: int)
    requires
        ticks_exactly(price, tick),
    ensures
        tick_floor(price, tick) == (price / tick) * tick,
        tick_floor(price, tick) <= price < tick_floor(price, tick) + tick,
        tick_floor_fits(price, tick),
{
    let u = unit();
    let n = price / tick;
    let q = (price * u) / tick;
    assert(price * u == q * tick) by (nonlinear_arith)
        requires
            (price * u) % tick == 0,
            q == (price * u) / tick,
            tick > 0,
    ;
    lemma_exact_quotient(price, tick, q);
    assert(n * tick <= price < n * tick + tick) by (nonlinear_arith)
        requires
            n == price / tick,
            tick > 0,
    ;
    assert(n * u <= q < (n + 1) * u) by (nonlinear_arith)
        requires
            n * tick <= price < n * tick + tick,
            price * u == q * tick,
            tick > 0,
            u > 0,
    ;
    assert(q / u == n);
    assert(floor_value(q) == n * u);
    assert((n * u) * tick == (n * tick) * u) by (nonlinear_arith);
    lemma_exact_product(n * u, tick, n * tick);
    lemma_representable_bound(q);
    lemma_representable_bound(n * tick);
    let m = max_value();
    assert(-m * tick <= price * u <= m * tick) by (nonlinear_arith)
        requires
            price * u == q * tick,
            -m <= q <= m,
            tick > 0,
    ;
    assert(-m * u <= (n * u) * tick <= m * u) by (nonlinear_arith)
        requires
            (n * u) * tick == (n * tick) * u,
            -m <= n * tick <= m,
            u > 0,
    ;
}

/// A price on the tick stays as it is.
pub proof fn law_prices_on_the_tick_stay(ticks: int, tick: int)
    requires
        tick > 0,
        -mantissa_bound() < ticks < mantissa_bound(),
        representable(ticks * tick),
    ensures
        tick_floor(ticks * tick, tick) == ticks * tick,
        tick_floor_fits(ticks * tick, tick),
{
    let p = ticks * tick;
    assert(p * unit() == (ticks * unit()) * tick) by (nonlinear_arith)
        requires
            p == ticks * tick,
    ;
    assert(((ticks * unit()) * tick) % tick == 0 && ((ticks * unit()) * tick) / tick == ticks
        * unit() && (ticks * tick) / tick == ticks) by (nonlinear_arith)
        requires
            tick > 0,
    ;
    lemma_whole(ticks);
    law_prices_round_down_to_whole_ticks(p, tick);
}

/// Over prices on the tick an ask rests in the book: above the best bid and not above the best ask.
/// It stands at the best ask where the spread is within the largest one, and that far above the best
/// bid where it is wider. It is approved outside shadow mode.
pub proof fn law_ask_rests_in_the_book(
    bid: int,
    ask: int,
    max_spread: int,
    tick: int,
    shadow_mode: bool,
    bid_ticks: int,
    ask_ticks: int,
    spread_ticks: int,
)
    requires
        tick > 0,
        bid == bid_ticks * tick && ask == ask_ticks * tick && max_spread == spread_ticks * tick,
        bid < ask,
        max_spread > 0,
        -mantissa_bound() < ask_ticks < mantissa_bound(),
        -mantissa_bound() < bid_ticks + spread_ticks < mantissa_bound(),
        representable(ask),
        representable(ask - bid),
        representable(bid + max_spread),
    ensures
        ({
            let q = ask_quote(Some(bid), Some(ask), max_spread, tick, shadow_mode);
            &&& bid < q.price <= ask
            &&& ask - bid <= max_spread ==> q.price == ask
            &&& ask - bid > max_spread ==> q.price == bid + max_spread
            &&& q.status == if shadow_mode {
                QuoteStatus::SimulatedOnly
            } else {
                QuoteStatus::Approved
            }
            &&& q.reason is Some == shadow_mode
        }),
        ask_fits(Some(bid), Some(ask), max_spread, tick),
{
    lemma_representable_bound(ask - bid);
    lemma_representable_bound(bid + max_spread);
    assert((bid_ticks + spread_ticks) * tick == bid_ticks * tick + spread_ticks * tick)
        by (nonlinear_arith);
    law_prices_on_the_tick_stay(ask_ticks, tick);
    law_prices_on_the_tick_stay(bid_ticks + spread_ticks, tick);
}

/// In a book with one side an ask stands at the best ask, or as far above the best bid as earns
/// rewards.
pub proof fn law_one_sided_asks(
    price: int,
    max_spread: int,
    tick: int,
    shadow_mode: bool,
    price_ticks: int,
    spread_ticks: int,
)
    requires
        tick > 0,
        price == price_ticks * tick && max_spread == spread_ticks * tick,
        -mantissa_bound() < price_ticks < mantissa_bound(),
        -mantissa_bound() < price_ticks + spread_ticks < mantissa_bound(),
        representable(price),
        representable(price + max_spread),
    ensures
        ask_fits(None, Some(price), max_spread, tick),
        ask_fits(Some(price), None, max_spread, tick),
        ask_quote(None, Some(price), max_spread, tick, shadow_mode).price == price,
        ask_quote(Some(price), None, max_spread, tick, shadow_mode).price == price + max_spread,
        !shadow_mode ==> ask_quote(None, Some(price), max_spread, tick, shadow_mode).status
            == QuoteStatus::Approved && ask_quote(
            Some(price),
            None,
            max_spread,
            tick,
            shadow_mode,
        ).status == QuoteStatus::Approved,
{
    lemma_representable_bound(price + max_spread);
    assert((price_ticks + spread_ticks) * tick == price_ticks * tick + spread_ticks * tick)
        by (nonlinear_arith);
    law_prices_on_the_tick_stay(price_ticks, tick);
    law_prices_on_the_tick_stay(price_ticks + spread_ticks, tick);
}

/// The lowest price that earns rewards: the largest spread below the ask, but at least a tick.
pub open spec fn lowest_rewarded(floor: int, ask: int, max_spread: int, tick: int) -> bool {
    &&& floor >= ask - max_spread && floor >= tick
    &&& floor == ask - max_spread || floor == tick
}

/// From a mid that lies above the lowest rewarded price, a bid goes down the given part of the way
/// between the two and is then rounded down to the tick. It is approved where the mid is not below
/// the least price and the rounded price is positive, and it never stands above the mid.
pub proof fn law_bid_stands_part_of_the_way_down(
    bid: int,
    ask: int,
    max_spread: int,
    depth: int,
    tick: int,
    min_price: int,
    mid: int,
    floor: int,
    down: int,
)
    requires
        2 * mid == bid + ask,
        lowest_rewarded(floor, ask, max_spread, tick),
        mid > floor,
        0 <= depth <= unit(),
        down * unit() == depth * (mid - floor),
        representable(bid + ask) && representable(mid) && representable(ask - max_spread),
        representable(mid - floor) && representable(down) && representable(mid - down),
        ticks_exactly(mid - down, tick),
    ensures
        ({
            let q = bid_quote(Some(bid), Some(ask), max_spread, depth, tick, min_price);
            let price = ((mid - down) / tick) * tick;
            &&& mid < min_price ==> q.status == QuoteStatus::Rejected && q.price == mid
            &&& mid >= min_price && price > 0 ==> q.status == QuoteStatus::Approved && q.price
                == price && q.reason is None
            &&& mid >= min_price && price <= 0 ==> q.status == QuoteStatus::Rejected && q.price == 0
            &&& floor <= mid - down <= mid
            &&& price <= mid - down < price + tick
        }),
        bid_fits(Some(bid), Some(ask), max_spread, depth, tick, min_price),
{
    lemma_representable_bound(bid + ask);
    lemma_representable_bound(ask - max_spread);
    lemma_representable_bound(mid - floor);
    lemma_representable_bound(mid - down);
    lemma_exact_product_fits(depth, mid - floor, down);
    lemma_middle(bid, ask, mid);
    lemma_part_of_the_way(mid, floor, depth, down);
    law_prices_round_down_to_whole_ticks(mid - down, tick);
    lemma_exact_product(depth, mid - floor, down);
}

proof fn lemma_middle(bid: int, ask: int, mid: int)
    requires
        2 * mid == bid + ask,
        representable(bid + ask),
        representable(mid),
    ensures
        crate::models::book::middle(bid, ask) == mid,
{
    assert((bid + ask) * unit() == mid * (2 * unit())) by (nonlinear_arith)
        requires
            2 * mid == bid + ask,
    ;
    lemma_exact_quotient(bid + ask, 2 * unit(), mid);
}

proof fn lemma_part_of_the_way(top: int, floor: int, depth: int, down: int)
    requires
        top > floor,
        0 <= depth <= unit(),
        down * unit() == depth * (top - floor),
    ensures
        0 <= down <= top - floor,
{
    let r = top - floor;
    let u = unit();
    assert(0 <= depth * r <= r * u) by (nonlinear_arith)
        requires
            0 <= depth <= u,
            r > 0,
    ;
}

/// Where the mid is no higher than the lowest rewarded price, the bid is the best bid, raised to that
/// price and rounded down to the tick.
pub proof fn law_bid_below_the_rewarded_range(
    bid: int,
    ask: int,
    max_spread: int,
    depth: int,
    tick: int,
    min_price: int,
    mid: int,
    floor: int,
    target: int,
)
    requires
        2 * mid == bid + ask,
        lowest_rewarded(floor, ask, max_spread, tick),
        mid <= floor,
        mid >= min_price,
        target >= bid && target >= floor && (target == bid || target == floor),
        representable(bid + ask) && representable(mid) && representable(ask - max_spread),
        representable(mid - floor),
        ticks_exactly(target, tick),
        (target / tick) * tick > 0,
    ensures
        ({
            let q = bid_quote(Some(bid), Some(ask), max_spread, depth, tick, min_price);
            &&& q.status == QuoteStatus::Approved
            &&& q.price == (target / tick) * tick
        }),
        bid_fits(Some(bid), Some(ask), max_spread, depth, tick, min_price),
{
    lemma_representable_bound(bid + ask);
    lemma_representable_bound(ask - max_spread);
    lemma_representable_bound(mid - floor);
    lemma_middle(bid, ask, mid);
    law_prices_round_down_to_whole_ticks(target, tick);
}

/// With no bid in the book, a bid goes the given part of the way from the best ask down to the
/// lowest rewarded price; with no ask, it joins the best bid. Neither quotes an outcome that is too
/// cheap.
pub proof fn law_one_sided_bids(
    price: int,
    max_spread: int,
    depth: int,
    tick: int,
    min_price: int,
    floor: int,
    down: int,
)
    requires
        lowest_rewarded(floor, price, max_spread, tick),
        price > floor,
        0 <= depth <= unit(),
        down * unit() == depth * (price - floor),
        representable(price - max_spread),
        representable(price - floor) && representable(down) && representable(price - down),
        ticks_exactly(price - down, tick),
    ensures
        bid_fits(None, Some(price), max_spread, depth, tick, min_price),
        bid_fits(Some(price), None, max_spread, depth, tick, min_price),
        ({
            let q = bid_quote(None, Some(price), max_spread, depth, tick, min_price);
            let rounded = ((price - down) / tick) * tick;
            &&& price < min_price ==> q.status == QuoteStatus::Rejected && q.price == price
            &&& price >= min_price && rounded > 0 ==> q.status == QuoteStatus::Approved && q.price
                == rounded
            &&& price >= min_price && rounded <= 0 ==> q.status == QuoteStatus::Rejected
        }),
        ({
            let q = bid_quote(Some(price), None, max_spread, depth, tick, min_price);
            &&& q.price == price
            &&& q.status == if price < min_price {
                QuoteStatus::Rejected
            } else {
                QuoteStatus::Approved
            }
        }),
{
    lemma_representable_bound(price - max_spread);
    lemma_representable_bound(price - floor);
    lemma_representable_bound(price - down);
    lemma_exact_product_fits(depth, price - floor, down);
    lemma_part_of_the_way(price, floor, depth, down);
    law_prices_round_down_to_whole_ticks(price - down, tick);
    lemma_exact_product(depth, price - floor, down);
}

/// Four quotes are made, in the order bid and ask on YES, bid and ask on NO, all of the wanted size
/// or as much as earns rewards. Each is priced from the book of its own token: the ask by the law of
/// asks, the bid of a book without asks at its best bid.
pub proof fn law_each_leg_is_quoted_from_its_own_book(
    r: QuoteSet,
    market: CanonicalMarket,
    yes_book: OrderBookSnapshot,
    no_book: OrderBookSnapshot,
    config: StrategyConfig,
    shadow_mode: bool,
    wanted: int,
    tick: int,
    on_yes: bool,
    bid_ticks: int,
    ask_ticks: int,
    spread_ticks: int,
)
    requires
        quotes_market(r, market, yes_book, no_book, config, shadow_mode, wanted, tick),
        ({
            let book = if on_yes {
                yes_book
            } else {
                no_book
            };
            &&& tick > 0
            &&& book.bids@.len() > 0
            &&& book.bids@[0].price@ == bid_ticks * tick
            &&& book.asks@.len() > 0 ==> {
                let (bid, ask) = (book.bids@[0].price@, book.asks@[0].price@);
                let spread = market.reward_config.max_spread@;
                &&& ask == ask_ticks * tick && spread == spread_ticks * tick
                &&& bid < ask && spread > 0
                &&& -mantissa_bound() < ask_ticks < mantissa_bound()
                &&& -mantissa_bound() < bid_ticks + spread_ticks < mantissa_bound()
                &&& representable(ask) && representable(ask - bid) && representable(bid + spread)
            }
        }),
    ensures
        r.condition_id@ == market.condition_id@,
        r.candidates@.len() == 4,
        r.candidates@[0].leg == QuoteLeg::YesBid && r.candidates@[1].leg == QuoteLeg::YesAsk,
        r.candidates@[2].leg == QuoteLeg::NoBid && r.candidates@[3].leg == QuoteLeg::NoAsk,
        forall|i: int|
            0 <= i < 4 ==> (#[trigger] r.candidates@[i]).condition_id@ == market.condition_id@
                && r.candidates@[i].size@ >= wanted && r.candidates@[i].size@
                >= market.reward_config.min_size@ && (r.candidates@[i].size@ == wanted
                || r.candidates@[i].size@ == market.reward_config.min_size@),
        ({
            let book = if on_yes {
                yes_book
            } else {
                no_book
            };
            let ours = if on_yes {
                r.candidates@[1]
            } else {
                r.candidates@[3]
            };
            let our_bid = if on_yes {
                r.candidates@[0]
            } else {
                r.candidates@[2]
            };
            let bid = book.bids@[0].price@;
            &&& book.asks@.len() == 0 ==> our_bid.price@ == bid && our_bid.status == if bid
                < config.min_outcome_price@ {
                QuoteStatus::Rejected
            } else {
                QuoteStatus::Approved
            }
            &&& book.asks@.len() > 0 ==> {
                let ask = book.asks@[0].price@;
                let spread = market.reward_config.max_spread@;
                &&& bid < ours.price@ <= ask
                &&& ask - bid <= spread ==> ours.price@ == ask
                &&& ask - bid > spread ==> ours.price@ == bid + spread
                &&& ours.status == if shadow_mode {
                    QuoteStatus::SimulatedOnly
                } else {
                    QuoteStatus::Approved
                }
            }
        }),
{
    let book = if on_yes {
        yes_book
    } else {
        no_book
    };
    let bid = book.bids@[0].price@;
    if book.asks@.len() > 0 {
        law_ask_rests_in_the_book(
            bid,
            book.asks@[0].price@,
            market.reward_config.max_spread@,
            tick,
            shadow_mode,
            bid_ticks,
            ask_ticks,
            spread_ticks,
        );
    }
}

/// On two-sided books the bid of each token is priced from the mid of its own book, as
/// `law_bid_stands_part_of_the_way_down` says of one leg.
pub proof fn law_each_bid_follows_its_own_mid(
    r: QuoteSet,
    market: CanonicalMarket,
    yes_book: OrderBookSnapshot,
    no_book: OrderBookSnapshot,
    config: StrategyConfig,
    shadow_mode: bool,
    wanted: int,
    tick: int,
    on_yes: bool,
    mid: int,
    floor: int,
    down: int,
)
    requires
        quotes_market(r, market, yes_book, no_book, config, shadow_mode, wanted, tick),
        ({
            let book = if on_yes {
                yes_book
            } else {
                no_book
            };
            let (bid, ask) = (book.bids@[0].price@, book.asks@[0].price@);
            let spread = market.reward_config.max_spread@;
            &&& book.bids@.len() > 0 && book.asks@.len() > 0
            &&& 2 * mid == bid + ask
            &&& lowest_rewarded(floor, ask, spread, tick)
            &&& mid > floor && mid >= config.min_outcome_price@
            &&& 0 <= config.bid_depth_pct@ <= unit()
            &&& down * unit() == config.bid_depth_pct@ * (mid - floor)
            &&& representable(bid + ask) && representable(mid) && representable(ask - spread)
            &&& representable(mid - floor) && representable(down) && representable(mid - down)
            &&& ticks_exactly(mid - down, tick)
            &&& ((mid - down) / tick) * tick > 0
        }),
    ensures
        ({
            let ours = if on_yes {
                r.candidates@[0]
            } else {
                r.candidates@[2]
            };
            ours.status == QuoteStatus::Approved && ours.price@ == ((mid - down) / tick) * tick
        }),
{
    let book = if on_yes {
        yes_book
    } else {
        no_book
    };
    law_bid_stands_part_of_the_way_down(
        book.bids@[0].price@,
        book.asks@[0].price@,
        market.reward_config.max_spread@,
        config.bid_depth_pct@,
        tick,
        config.min_outcome_price@,
        mid,
        floor,
        down,
    );
}

/// The tick is the one that the market writes down; a cent where that is no number.
pub proof fn law_tick_is_the_markets(market: CanonicalMarket)
    ensures
        match decimal_of_text(market.tick_size@) {
            Some(tick) => market_tick(market) == tick,
            None => 100 * market_tick(market) == unit(),
        },
{
}

/// The wanted size is the one that is given, or else the configured one.
pub proof fn law_sizes_are_given_or_configured(
    config: StrategyConfig,
    given: crate::decimal::Decimal,
)
    ensures
        wanted_size(config, Some(given)) == given@,
        wanted_size(config, None) == config.default_quote_size@,
{
}

/// Nothing is quoted on an empty book.
pub proof fn law_empty_books_are_not_quoted(
    max_spread: int,
    depth: int,
    tick: int,
    min_price: int,
    shadow_mode: bool,
)
    ensures
        bid_quote(None, None, max_spread, depth, tick, min_price).status == QuoteStatus::Rejected,
        bid_quote(None, None, max_spread, depth, tick, min_price).reason is Some,
        ask_quote(None, None, max_spread, tick, shadow_mode).status == QuoteStatus::Rejected,
        ask_quote(None, None, max_spread, tick, shadow_mode).reason is Some,
{
}

} // verus!
