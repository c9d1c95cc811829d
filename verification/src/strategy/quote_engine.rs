//! Prices of the four quotes of a market.

use crate::config::StrategyConfig;
use crate::decimal::{
    cent, cents_chars, decimal_of_text, difference, difference_fits, floor_value, is_rounding,
    lemma_inv_representable, lemma_pow10_28, lemma_whole, lemma_whole_cents, mantissa_bound, max_of,
    on_grid, pow10, product, product_fits, quotient, quotient_fits, representable, sum, sum_fits,
    unit, Decimal,
};
use crate::models::book::{first_price, mid_price, middle};
use crate::models::{
    CanonicalMarket, OrderBookSnapshot, QuoteCandidate, QuoteLeg, QuoteSet, QuoteStatus,
};
use crate::text::{join2, opt_text};
use vstd::pervasive::unreached;
use vstd::prelude::*;
use vstd::string::*;

pub mod laws;

verus! {

/// A price rounded down to a multiple of the tick.
pub open spec fn tick_floor(price: int, tick: int) -> int {
    product(floor_value(quotient(price, tick)), tick)
}

/// The tick is not zero, and neither the number of ticks nor their value too large for a decimal.
pub open spec fn tick_floor_fits(price: int, tick: int) -> bool {
    quotient_fits(price, tick) && product_fits(floor_value(quotient(price, tick)), tick)
}

/// `r` is no higher than the price, unless the number of ticks was rounded up to a whole one, and
/// no more than a tick below it.
pub open spec fn rounds_down(price: int, tick: int, r: int) -> bool {
    let ticks = quotient(price, tick);
    &&& r <= price || ticks % unit() == 0 && ticks * tick > price * unit()
    &&& -mantissa_bound() < price / tick < mantissa_bound() && representable(price - tick) ==> r
        >= price - tick
}

/// Round price down to the nearest tick size, where that can be done.
pub fn round_down_to_tick(price: Decimal, tick_size: Decimal) -> (r: Option<Decimal>)
    ensures
        r is Some == tick_floor_fits(price@, tick_size@),
        r matches Some(rounded) ==> {
            &&& rounded@ == tick_floor(price@, tick_size@)
            &&& tick_size@ > 0 ==> rounds_down(price@, tick_size@, rounded@)
        },
{
    let ticks = price.checked_over(tick_size)?;
    let whole = ticks.floor();
    let rounded = whole.checked_times(tick_size)?;
    proof {
        use_type_invariant(&price);
        lemma_inv_representable(price);
        use_type_invariant(&whole);
        lemma_inv_representable(whole);
        if tick_size@ > 0 {
            lemma_rounds_down(price@, tick_size@, ticks@, whole@, rounded@);
        }
    }
    Some(rounded)
}

proof fn lemma_rounds_down(p: int, t: int, q: int, f: int, r: int)
    requires
        t > 0,
        representable(p),
        representable(f),
        q == quotient(p, t),
        f == floor_value(q),
        is_rounding(q, p * unit(), t),
        is_rounding(r, f * t, unit()),
    ensures
        rounds_down(p, t, r),
{
    let u = unit();
    if p < r {
        assert(f * t > p * u);
        assert(q <= f);
        assert(q == f);
    }
    let w = p / t;
    if -mantissa_bound() < w < mantissa_bound() && representable(p - t) {
        lemma_whole(w);
        vstd::arithmetic::div_mod::lemma_fundamental_div_mod(p, t);
        assert(0 <= p % t < t);
        assert(t * w == w * t) by (nonlinear_arith);
        assert((w * u) * t == (w * t) * u) by (nonlinear_arith);
        assert((w * u) * t <= p * u);
        assert(w * u <= q);
        assert(w * u <= f);
        assert((w * u) * t <= f * t) by (nonlinear_arith)
            requires
                w * u <= f,
                t > 0,
        ;
        assert((p - t) * u <= f * t);
    }
}

/// A quote: its price, whether it is placed, and why not.
pub struct Quote {
    pub price: int,
    pub status: QuoteStatus,
    pub reason: Option<Seq<char>>,
}

pub open spec fn rejected(price: int, reason: Seq<char>) -> Quote {
    Quote { price, status: QuoteStatus::Rejected, reason: Some(reason) }
}

/// Rejected because a price is too low.
pub open spec fn too_low(what: Seq<char>, price: int, least: int) -> Quote {
    rejected(
        price,
        what + " $"@ + cents_chars(price) + " below min_outcome_price $"@ + cents_chars(least),
    )
}

/// A price between the top, `top`, and the reward floor below it: the given part of the way down,
/// rounded down to the tick.
pub open spec fn bid_between(
    top: int,
    floor: int,
    otherwise: int,
    depth: int,
    tick: int,
) -> int {
    tick_floor(bid_target(top, floor, otherwise, depth), tick)
}

/// The price that is rounded down.
pub open spec fn bid_target(top: int, floor: int, otherwise: int, depth: int) -> int {
    let range = difference(top, floor);
    let target = if range > 0 {
        difference(top, product(depth, range))
    } else {
        otherwise
    };
    max_of(target, floor)
}

/// Where the top lies above the floor, the bid is rounded down from a price between the two.
pub open spec fn lies_between(
    top: int,
    floor: int,
    otherwise: int,
    depth: int,
    tick: int,
) -> bool {
    let target = bid_target(top, floor, otherwise, depth);
    0 <= depth <= unit() && tick > 0 && difference(top, floor) > 0 ==> {
        &&& floor <= target <= top
        &&& rounds_down(target, tick, bid_between(top, floor, otherwise, depth, tick))
    }
}

/// The lowest price that still earns rewards, at least a tick.
pub open spec fn reward_floor(ask: int, max_spread: int, tick: int) -> int {
    max_of(difference(ask, max_spread), tick)
}

/// The quote on the bid side, from the best bid and the best ask.
pub open spec fn bid_quote(
    bid: Option<int>,
    ask: Option<int>,
    max_spread: int,
    depth: int,
    tick: int,
    min_price: int,
) -> Quote {
    match (bid, ask) {
        (Some(bid), Some(ask)) => {
            let mid = middle(bid, ask);
            let price = bid_between(mid, reward_floor(ask, max_spread, tick), bid, depth, tick);
            if mid < min_price {
                too_low("Mid"@, mid, min_price)
            } else if price > 0 {
                Quote { price, status: QuoteStatus::Approved, reason: None }
            } else {
                rejected(0, "Computed bid price <= 0"@)
            }
        },
        (Some(bid), None) => if bid < min_price {
            too_low("Best bid"@, bid, min_price)
        } else {
            Quote { price: bid, status: QuoteStatus::Approved, reason: None }
        },
        (None, Some(ask)) => {
            let floor = reward_floor(ask, max_spread, tick);
            let price = bid_between(ask, floor, floor, depth, tick);
            if ask < min_price {
                too_low("Best ask"@, ask, min_price)
            } else if price > 0 {
                Quote { price, status: QuoteStatus::Approved, reason: None }
            } else {
                rejected(0, "Cannot compute valid bid price"@)
            }
        },
        (None, None) => rejected(0, "Empty book - no bids or asks"@),
    }
}

/// The quote on the ask side, from the best bid and the best ask: at the best ask, or as far above
/// the best bid as earns rewards.
pub open spec fn ask_quote(
    bid: Option<int>,
    ask: Option<int>,
    max_spread: int,
    tick: int,
    shadow_mode: bool,
) -> Quote {
    let status = if shadow_mode {
        QuoteStatus::SimulatedOnly
    } else {
        QuoteStatus::Approved
    };
    let reason = if shadow_mode {
        Some("Shadow mode: requires owned inventory in live"@)
    } else {
        None
    };
    match (bid, ask) {
        (Some(bid), Some(ask)) => Quote {
            price: tick_floor(
                if difference(ask, bid) > max_spread {
                    sum(bid, max_spread)
                } else {
                    ask
                },
                tick,
            ),
            status,
            reason,
        },
        (Some(bid), None) => Quote { price: tick_floor(sum(bid, max_spread), tick), status, reason },
        (None, Some(ask)) => Quote { price: tick_floor(ask, tick), status, reason },
        (None, None) => rejected(tick_floor(0, tick), "Empty book - no bids or asks"@),
    }
}

/// The price between top and floor is not too large for a decimal.
pub open spec fn between_fits(
    top: int,
    floor: int,
    otherwise: int,
    depth: int,
    tick: int,
) -> bool {
    let range = difference(top, floor);
    &&& difference_fits(top, floor)
    &&& range > 0 ==> product_fits(depth, range) && difference_fits(top, product(depth, range))
    &&& tick_floor_fits(bid_target(top, floor, otherwise, depth), tick)
}

/// Nothing in the quote on the bid side is too large for a decimal, and the tick can be rounded to.
pub open spec fn bid_fits(
    bid: Option<int>,
    ask: Option<int>,
    max_spread: int,
    depth: int,
    tick: int,
    min_price: int,
) -> bool {
    match (bid, ask) {
        (Some(bid), Some(ask)) => {
            let mid = middle(bid, ask);
            let floor = reward_floor(ask, max_spread, tick);
            &&& sum_fits(bid, ask)
            &&& mid >= min_price ==> difference_fits(ask, max_spread) && between_fits(
                mid,
                floor,
                bid,
                depth,
                tick,
            )
        },
        (None, Some(ask)) => {
            let floor = reward_floor(ask, max_spread, tick);
            ask >= min_price ==> difference_fits(ask, max_spread) && between_fits(
                ask,
                floor,
                floor,
                depth,
                tick,
            )
        },
        _ => true,
    }
}

/// Nothing in the quote on the ask side is too large for a decimal, and the tick can be rounded to.
pub open spec fn ask_fits(
    bid: Option<int>,
    ask: Option<int>,
    max_spread: int,
    tick: int,
) -> bool {
    match (bid, ask) {
        (Some(bid), Some(ask)) => {
            let wide = difference(ask, bid) > max_spread;
            &&& difference_fits(ask, bid)
            &&& wide ==> sum_fits(bid, max_spread)
            &&& tick_floor_fits(
                if wide {
                    sum(bid, max_spread)
                } else {
                    ask
                },
                tick,
            )
        },
        (Some(bid), None) => sum_fits(bid, max_spread) && tick_floor_fits(
            sum(bid, max_spread),
            tick,
        ),
        (None, Some(ask)) => tick_floor_fits(ask, tick),
        (None, None) => tick_floor_fits(0, tick),
    }
}

/// A bid that is quoted from a mid, or from an ask where there is no bid, lies between that price
/// and the reward floor.
pub open spec fn stays_between(
    bid: Option<int>,
    ask: Option<int>,
    max_spread: int,
    depth: int,
    tick: int,
    min_price: int,
) -> bool {
    match (bid, ask) {
        (Some(bid), Some(ask)) => middle(bid, ask) >= min_price ==> lies_between(
            middle(bid, ask),
            reward_floor(ask, max_spread, tick),
            bid,
            depth,
            tick,
        ),
        (None, Some(ask)) => ask >= min_price ==> lies_between(
            ask,
            reward_floor(ask, max_spread, tick),
            reward_floor(ask, max_spread, tick),
            depth,
            tick,
        ),
        _ => true,
    }
}

/// The candidate offers this quote.
pub open spec fn offers(
    c: QuoteCandidate,
    condition_id: Seq<char>,
    leg: QuoteLeg,
    size: int,
    q: Quote,
) -> bool {
    &&& c.condition_id@ == condition_id
    &&& c.leg == leg
    &&& c.size@ == size
    &&& c.price@ == q.price
    &&& c.status == q.status
    &&& opt_text(c.reason) == q.reason
}

fn too_low_text(what: &str, price: Decimal, least: Decimal) -> (r: String)
    ensures
        Some(r@) == too_low(what@, price@, least@).reason,
{
    let mut r = join2(what, " $");
    r.append(price.to_cents_text().as_str());
    r.append(" below min_outcome_price $");
    r.append(least.to_cents_text().as_str());
    r
}

fn price_between(
    top: Decimal,
    floor: Decimal,
    otherwise: Decimal,
    depth: Decimal,
    tick: Decimal,
) -> (r: Option<Decimal>)
    ensures
        r is Some == between_fits(top@, floor@, otherwise@, depth@, tick@),
        r matches Some(price) ==> {
            &&& price@ == bid_between(top@, floor@, otherwise@, depth@, tick@)
            &&& lies_between(top@, floor@, otherwise@, depth@, tick@)
        },
{
    let range = top.checked_minus(floor)?;
    let target = if range > Decimal::zero() {
        let down = depth.checked_times(range)?;
        proof {
            use_type_invariant(&top);
            lemma_inv_representable(top);
            lemma_whole(0);
            if 0 <= depth@ {
                assert(0 * unit() <= depth@ * range@) by (nonlinear_arith)
                    requires
                        0 <= depth@,
                        0 <= range@,
                ;
            }
        }
        top.checked_minus(down)?
    } else {
        otherwise
    };
    round_down_to_tick(target.max(floor), tick)
}

/// The quote on the bid side of a book, where it can be worked out.
pub fn compute_bid_leg(
    condition_id: &str,
    leg: QuoteLeg,
    book: &OrderBookSnapshot,
    size: Decimal,
    max_spread: Decimal,
    bid_depth_pct: Decimal,
    tick_size: Decimal,
    min_outcome_price: Decimal,
) -> (r: Option<QuoteCandidate>)
    ensures
        r is Some == bid_fits(
            first_price(book.bids@),
            first_price(book.asks@),
            max_spread@,
            bid_depth_pct@,
            tick_size@,
            min_outcome_price@,
        ),
        r matches Some(candidate) ==> offers(
            candidate,
            condition_id@,
            leg,
            size@,
            bid_quote(
                first_price(book.bids@),
                first_price(book.asks@),
                max_spread@,
                bid_depth_pct@,
                tick_size@,
                min_outcome_price@,
            ),
        ),
        r is Some ==> stays_between(
            first_price(book.bids@),
            first_price(book.asks@),
            max_spread@,
            bid_depth_pct@,
            tick_size@,
            min_outcome_price@,
        ),
{
    let (price, status, reason) = match (book.best_bid(), book.best_ask()) {
        (Some(bid), Some(ask)) => {
            let mid = mid_price(bid.price, ask.price)?;
            if mid < min_outcome_price {
                (
                    mid,
                    QuoteStatus::Rejected,
                    Some(too_low_text("Mid", mid, min_outcome_price)),
                )
            } else {
                let floor = ask.price.checked_minus(max_spread)?.max(tick_size);
                let price = price_between(mid, floor, bid.price, bid_depth_pct, tick_size)?;
                if price > Decimal::zero() {
                    (price, QuoteStatus::Approved, None)
                } else {
                    (
                        Decimal::zero(),
                        QuoteStatus::Rejected,
                        Some("Computed bid price <= 0".to_owned()),
                    )
                }
            }
        },
        (Some(bid), None) => {
            // No ask to compute mid: the best bid stands for it.
            if bid.price < min_outcome_price {
                (
                    bid.price,
                    QuoteStatus::Rejected,
                    Some(too_low_text("Best bid", bid.price, min_outcome_price)),
                )
            } else {
                (bid.price, QuoteStatus::Approved, None)
            }
        },
        (None, Some(ask)) => {
            // The ask bounds the mid from above.
            if ask.price < min_outcome_price {
                (
                    ask.price,
                    QuoteStatus::Rejected,
                    Some(too_low_text("Best ask", ask.price, min_outcome_price)),
                )
            } else {
                let floor = ask.price.checked_minus(max_spread)?.max(tick_size);
                let price = price_between(ask.price, floor, floor, bid_depth_pct, tick_size)?;
                if price > Decimal::zero() {
                    (price, QuoteStatus::Approved, None)
                } else {
                    (
                        Decimal::zero(),
                        QuoteStatus::Rejected,
                        Some("Cannot compute valid bid price".to_owned()),
                    )
                }
            }
        },
        (None, None) => (
            Decimal::zero(),
            QuoteStatus::Rejected,
            Some("Empty book - no bids or asks".to_owned()),
        ),
    };
    Some(QuoteCandidate { condition_id: condition_id.to_owned(), leg, price, size, status, reason })
}

/// The quote on the ask side of a book, where it can be worked out.
pub fn compute_ask_leg(
    condition_id: &str,
    leg: QuoteLeg,
    book: &OrderBookSnapshot,
    size: Decimal,
    max_spread: Decimal,
    tick_size: Decimal,
    shadow_mode: bool,
) -> (r: Option<QuoteCandidate>)
    ensures
        r is Some == ask_fits(
            first_price(book.bids@),
            first_price(book.asks@),
            max_spread@,
            tick_size@,
        ),
        r matches Some(candidate) ==> offers(
            candidate,
            condition_id@,
            leg,
            size@,
            ask_quote(
                first_price(book.bids@),
                first_price(book.asks@),
                max_spread@,
                tick_size@,
                shadow_mode,
            ),
        ),
{
    let mut status = if shadow_mode {
        QuoteStatus::SimulatedOnly
    } else {
        QuoteStatus::Approved
    };
    let mut reason = if shadow_mode {
        Some("Shadow mode: requires owned inventory in live".to_owned())
    } else {
        None
    };
    let quote_price = match (book.best_bid(), book.best_ask()) {
        (Some(bid), Some(ask)) => {
            let spread = ask.price.checked_minus(bid.price)?;
            if spread > max_spread {
                bid.price.checked_plus(max_spread)?
            } else {
                ask.price
            }
        },
        (Some(bid), None) => bid.price.checked_plus(max_spread)?,
        (None, Some(ask)) => ask.price,
        (None, None) => {
            status = QuoteStatus::Rejected;
            reason = Some("Empty book - no bids or asks".to_owned());
            Decimal::zero()
        },
    };
    let price = round_down_to_tick(quote_price, tick_size)?;
    Some(QuoteCandidate { condition_id: condition_id.to_owned(), leg, price, size, status, reason })
}

/// The tick of a market; a cent where its text is no number.
pub open spec fn market_tick(market: CanonicalMarket) -> int {
    match decimal_of_text(market.tick_size@) {
        Some(tick) => tick,
        None => cent(),
    }
}

/// The tick of a market; a cent where its text is no number.
pub fn tick_of_market(market: &CanonicalMarket) -> (r: Decimal)
    ensures
        r@ == market_tick(*market),
{
    match Decimal::parse(market.tick_size.as_str()) {
        Some(tick) => tick,
        None => {
            proof {
                lemma_pow10_28();
            }
            Decimal::new(1, 2)
        },
    }
}

/// The size of all quotes: the wanted one, or as much as earns rewards.
pub open spec fn effective_size(market: CanonicalMarket, wanted: int) -> int {
    max_of(wanted, market.reward_config.min_size@)
}

/// The four quotes of a market: bid and ask on YES, bid and ask on NO.
pub open spec fn quotes_market(
    r: QuoteSet,
    market: CanonicalMarket,
    yes_book: OrderBookSnapshot,
    no_book: OrderBookSnapshot,
    config: StrategyConfig,
    shadow_mode: bool,
    wanted: int,
    tick: int,
) -> bool {
    let id = market.condition_id@;
    let size = effective_size(market, wanted);
    let spread = market.reward_config.max_spread@;
    let bid_on = |book: OrderBookSnapshot|
        bid_quote(
            first_price(book.bids@),
            first_price(book.asks@),
            spread,
            config.bid_depth_pct@,
            tick,
            config.min_outcome_price@,
        );
    let ask_on = |book: OrderBookSnapshot|
        ask_quote(first_price(book.bids@), first_price(book.asks@), spread, tick, shadow_mode);
    &&& r.condition_id@ == id
    &&& r.candidates@.len() == 4
    &&& offers(r.candidates@[0], id, QuoteLeg::YesBid, size, bid_on(yes_book))
    &&& offers(r.candidates@[1], id, QuoteLeg::YesAsk, size, ask_on(yes_book))
    &&& offers(r.candidates@[2], id, QuoteLeg::NoBid, size, bid_on(no_book))
    &&& offers(r.candidates@[3], id, QuoteLeg::NoAsk, size, ask_on(no_book))
}

pub open spec fn wanted_size(config: StrategyConfig, size_override: Option<Decimal>) -> int {
    match size_override {
        Some(size) => size@,
        None => config.default_quote_size@,
    }
}

/// All four quotes can be worked out.
pub open spec fn quotes_fit(
    market: CanonicalMarket,
    yes_book: OrderBookSnapshot,
    no_book: OrderBookSnapshot,
    config: StrategyConfig,
    tick: int,
) -> bool {
    let spread = market.reward_config.max_spread@;
    let bid_on = |book: OrderBookSnapshot|
        bid_fits(
            first_price(book.bids@),
            first_price(book.asks@),
            spread,
            config.bid_depth_pct@,
            tick,
            config.min_outcome_price@,
        );
    let ask_on = |book: OrderBookSnapshot|
        ask_fits(first_price(book.bids@), first_price(book.asks@), spread, tick);
    bid_on(yes_book) && ask_on(yes_book) && bid_on(no_book) && ask_on(no_book)
}

/// Compute four candidate quote legs for a market given current YES and NO books.
pub fn compute_quote_set(
    market: &CanonicalMarket,
    yes_book: &OrderBookSnapshot,
    no_book: &OrderBookSnapshot,
    config: &StrategyConfig,
    shadow_mode: bool,
    size_override: Option<Decimal>,
) -> (r: QuoteSet)
    requires
        quotes_fit(*market, *yes_book, *no_book, *config, market_tick(*market)),
    ensures
        quotes_market(
            r,
            *market,
            *yes_book,
            *no_book,
            *config,
            shadow_mode,
            wanted_size(*config, size_override),
            market_tick(*market),
        ),
{
    let tick_size = tick_of_market(market);
    match quotes_at_tick(
        market,
        yes_book,
        no_book,
        config,
        shadow_mode,
        size_override,
        tick_size,
    ) {
        Some(quotes) => quotes,
        None => unreached(),
    }
}

/// The four quotes, where they can be worked out.
pub fn try_compute_quote_set(
    market: &CanonicalMarket,
    yes_book: &OrderBookSnapshot,
    no_book: &OrderBookSnapshot,
    config: &StrategyConfig,
    shadow_mode: bool,
    size_override: Option<Decimal>,
) -> (r: Option<QuoteSet>)
    ensures
        r is Some == quotes_fit(*market, *yes_book, *no_book, *config, market_tick(*market)),
        r matches Some(quotes) ==> quotes_market(
            quotes,
            *market,
            *yes_book,
            *no_book,
            *config,
            shadow_mode,
            wanted_size(*config, size_override),
            market_tick(*market),
        ),
{
    let tick_size = tick_of_market(market);
    if quotes_at_tick(
        market,
        yes_book,
        no_book,
        config,
        shadow_mode,
        size_override,
        tick_size,
    ).is_some() {
        Some(compute_quote_set(market, yes_book, no_book, config, shadow_mode, size_override))
    } else {
        None
    }
}

/// The four quotes of a market with that tick, where they can be worked out.
pub fn quotes_at_tick(
    market: &CanonicalMarket,
    yes_book: &OrderBookSnapshot,
    no_book: &OrderBookSnapshot,
    config: &StrategyConfig,
    shadow_mode: bool,
    size_override: Option<Decimal>,
    tick_size: Decimal,
) -> (r: Option<QuoteSet>)
    ensures
        r is Some == quotes_fit(*market, *yes_book, *no_book, *config, tick_size@),
        r matches Some(quotes) ==> quotes_market(
            quotes,
            *market,
            *yes_book,
            *no_book,
            *config,
            shadow_mode,
            wanted_size(*config, size_override),
            tick_size@,
        ),
{
    let base_size = match size_override {
        Some(size) => size,
        None => config.default_quote_size,
    };
    let max_spread = market.reward_config.max_spread;
    let size = base_size.max(market.reward_config.min_size);
    let mut candidates: Vec<QuoteCandidate> = Vec::new();
    candidates.push(
        compute_bid_leg(
            market.condition_id.as_str(),
            QuoteLeg::YesBid,
            yes_book,
            size,
            max_spread,
            config.bid_depth_pct,
            tick_size,
            config.min_outcome_price,
        )?,
    );
    // In shadow mode asks are only simulated: they require owned inventory.
    candidates.push(
        compute_ask_leg(
            market.condition_id.as_str(),
            QuoteLeg::YesAsk,
            yes_book,
            size,
            max_spread,
            tick_size,
            shadow_mode,
        )?,
    );
    candidates.push(
        compute_bid_leg(
            market.condition_id.as_str(),
            QuoteLeg::NoBid,
            no_book,
            size,
            max_spread,
            config.bid_depth_pct,
            tick_size,
            config.min_outcome_price,
        )?,
    );
    candidates.push(
        compute_ask_leg(
            market.condition_id.as_str(),
            QuoteLeg::NoAsk,
            no_book,
            size,
            max_spread,
            tick_size,
            shadow_mode,
        )?,
    );
    Some(QuoteSet { condition_id: market.condition_id.clone(), candidates })
}

/// An approved bid has a positive price where the best bid has, and no outcome cheaper than the
/// floor is quoted.
pub proof fn law_approved_bid_is_priced(
    bid: Option<int>,
    ask: Option<int>,
    max_spread: int,
    depth: int,
    tick: int,
    min_price: int,
)
    requires
        bid_quote(bid, ask, max_spread, depth, tick, min_price).status == QuoteStatus::Approved,
        bid matches Some(b) ==> b > 0,
    ensures
        bid_quote(bid, ask, max_spread, depth, tick, min_price).price > 0,
        match (bid, ask) {
            (Some(b), Some(a)) => middle(b, a) >= min_price,
            (Some(b), None) => b >= min_price,
            (None, Some(a)) => a >= min_price,
            (None, None) => false,
        },
{
}

/// In shadow mode no ask is approved, and an empty book is never quoted.
pub proof fn law_shadow_asks_are_simulated(
    bid: Option<int>,
    ask: Option<int>,
    max_spread: int,
    depth: int,
    tick: int,
    min_price: int,
)
    ensures
        ask_quote(bid, ask, max_spread, tick, true).status != QuoteStatus::Approved,
        ask_quote(None, None, max_spread, tick, false).status == QuoteStatus::Rejected,
        bid_quote(None, None, max_spread, depth, tick, min_price).status == QuoteStatus::Rejected,
{
}

/// Written with at most four places.
pub open spec fn four_places(v: int) -> bool {
    v % 1_000_000_000_000_000_000_000_000 == 0
}

/// With prices and depth of at most four places and a tick of a cent, a bid that is quoted from a
/// mid above the reward floor lies on whole cents, no higher than the mid, and less than a cent
/// below the floor: it rests in the book, and it still earns rewards up to the rounding.
#[verifier::spinoff_prover]
#[verifier::rlimit(60)]
pub proof fn law_bid_lies_between_floor_and_mid(
    bid: int,
    ask: int,
    max_spread: int,
    depth: int,
    min_price: int,
)
    requires
        four_places(bid) && four_places(ask) && four_places(max_spread) && four_places(depth),
        0 <= bid <= ask <= unit(),
        0 <= max_spread <= unit(),
        0 <= depth <= unit(),
        middle(bid, ask) > reward_floor(ask, max_spread, cent()),
        bid_quote(Some(bid), Some(ask), max_spread, depth, cent(), min_price).status
            == QuoteStatus::Approved,
    ensures
        middle(bid, ask) == (bid + ask) / 2,
        reward_floor(ask, max_spread, cent()) == max_of(ask - max_spread, cent()),
        ({
            let price = bid_quote(
                Some(bid),
                Some(ask),
                max_spread,
                depth,
                cent(),
                min_price,
            ).price;
            &&& price % cent() == 0
            &&& reward_floor(ask, max_spread, cent()) - cent() < price <= middle(bid, ask)
        }),
{
    let g = 1_000_000_000_000_000_000_000_000int;
    let floor = max_of(ask - max_spread, cent());
    lemma_mid_exact(bid / g, ask / g);
    lemma_fine_grid(ask - max_spread);
    let m = bid / g + ask / g;
    let mid = m * 500_000_000_000_000_000_000_000;
    let f = if ask - max_spread >= cent() {
        2 * (ask / g - max_spread / g)
    } else {
        200
    };
    assert(floor == f * 500_000_000_000_000_000_000_000);
    lemma_target_exact(m, f, depth / g);
}

/// The mid of prices of at most four places is exact.
proof fn lemma_mid_exact(b: int, a: int)
    requires
        0 <= b <= a <= 10_000,
    ensures
        middle(
            b * 1_000_000_000_000_000_000_000_000,
            a * 1_000_000_000_000_000_000_000_000,
        ) == (a + b) * 500_000_000_000_000_000_000_000,
        (b * 1_000_000_000_000_000_000_000_000 + a * 1_000_000_000_000_000_000_000_000) / 2 == (a
            + b) * 500_000_000_000_000_000_000_000,
{
    let u = unit();
    let s = (a + b) * 1_000_000_000_000_000_000_000_000;
    let mid = (a + b) * 500_000_000_000_000_000_000_000;
    lemma_fine_grid(s);
    lemma_fine_grid(mid);
    assert(s == 2 * mid);
    assert(s * u == mid * (2 * u)) by (nonlinear_arith)
        requires
            s == 2 * mid,
    ;
    assert((s * u) % (2 * u) == 0 && (s * u) / (2 * u) == mid);
}

/// A part of a range is exact.
proof fn lemma_part_exact(d: int, k: int)
    requires
        0 < k <= 20_000,
        0 <= d <= 10_000,
    ensures
        ({
            let part = (d * k) * 50_000_000_000_000_000_000;
            &&& product(
                d * 1_000_000_000_000_000_000_000_000,
                k * 500_000_000_000_000_000_000_000,
            ) == part
            &&& 0 <= part <= k * 500_000_000_000_000_000_000_000
            &&& representable(part)
        }),
{
    let u = unit();
    let depth = d * 1_000_000_000_000_000_000_000_000;
    let range = k * 500_000_000_000_000_000_000_000;
    let x = d * k;
    assert(0 <= x <= 10_000 * k) by (nonlinear_arith)
        requires
            0 <= d <= 10_000,
            0 < k,
            x == d * k,
    ;
    let part = x * 50_000_000_000_000_000_000;
    lemma_fine_grid(part);
    assert(depth * range == x * 500_000_000_000_000_000_000_000_000_000_000_000_000_000_000_000)
        by (nonlinear_arith)
        requires
            depth == d * 1_000_000_000_000_000_000_000_000,
            range == k * 500_000_000_000_000_000_000_000,
            x == d * k,
    ;
    assert(depth * range == part * 10_000_000_000_000_000_000_000_000_000);
    let w = depth * range;
    assert(w % u == 0 && w / u == part);
}

/// The price part of the way down from the mid is exact, and between floor and mid.
#[verifier::spinoff_prover]
#[verifier::rlimit(60)]
proof fn lemma_target_exact(m: int, f: int, d: int)
    requires
        0 <= f < m <= 20_000,
        0 <= d <= 10_000,
    ensures
        ({
            let h = 500_000_000_000_000_000_000_000int;
            let depth = d * 1_000_000_000_000_000_000_000_000;
            let price = bid_between(m * h, f * h, 0, depth, cent());
            &&& difference(m * h, f * h) > 0
            &&& price % cent() == 0
            &&& f * h - cent() < price <= m * h
            &&& forall|other: int|
                #![trigger bid_between(m * h, f * h, other, depth, cent())]
                bid_between(m * h, f * h, other, depth, cent()) == price
        }),
{
    let h = 500_000_000_000_000_000_000_000int;
    let u = unit();
    let depth = d * 1_000_000_000_000_000_000_000_000;
    let range = (m - f) * h;
    lemma_fine_grid(range);
    assert(difference(m * h, f * h) == range);
    let down = (d * (m - f)) * 50_000_000_000_000_000_000;
    lemma_part_exact(d, m - f);
    assert(product(depth, range) == down);
    let target = m * h - down;
    lemma_fine_grid(target);
    assert(difference(m * h, down) == target);
    assert(f * h <= target <= m * h);
    lemma_cent_floor(max_of(target, f * h));
    let n = max_of(target, f * h) / cent();
    assert((n * cent()) % cent() == 0);
}

proof fn lemma_fine_grid(v: int)
    requires
        v % 10_000_000_000_000_000_000 == 0,
        -4 * unit() <= v <= 4 * unit(),
    ensures
        representable(v),
{
    reveal_with_fuel(pow10, 29);
    assert(pow10(19) == 10_000_000_000_000_000_000);
    assert(on_grid(v, 19));
}

/// Rounding to cents is exact.
proof fn lemma_cent_floor(p: int)
    requires
        p % 10_000_000_000_000_000_000 == 0,
        0 <= p <= 2 * unit(),
    ensures
        tick_floor(p, cent()) == (p / cent()) * cent(),
        p - cent() < tick_floor(p, cent()) <= p,
{
    let n = p / cent();
    reveal_with_fuel(pow10, 29);
    assert(pow10(21) == 1_000_000_000_000_000_000_000);
    assert(on_grid(100 * p, 21));
    assert((p * unit()) % cent() == 0 && (p * unit()) / cent() == 100 * p);
    assert(quotient(p, cent()) == 100 * p);
    assert(floor_value(100 * p) == n * unit());
    let a = n * unit();
    assert((a * cent()) % unit() == 0 && (a * cent()) / unit() == n * cent()) by (nonlinear_arith)
        requires
            a == n * unit(),
    ;
    lemma_whole_cents(n);
    assert(product(a, cent()) == n * cent());
}

} // verus!
