//! Our share of the rewards, estimated from the visible books.

use crate::config::ScoreProxyConfig;
use crate::decimal::{
    abs_value, cent, difference, difference_fits, is_rounding, lemma_inv_representable,
    lemma_pow10_28, lemma_whole, max_of, min_of, product, product_fits, quotient, quotient_fits,
    representable, rounded_even, sum, sum_fits, unit, value_of, Decimal,
};
use crate::models::book::first_price;
use crate::models::{
    OrderBookSnapshot, PriceLevel, QuoteCandidate, QuoteLeg, QuoteSet, QuoteStatus, RewardConfig,
};
use vstd::pervasive::unreached;
use vstd::prelude::*;

pub mod laws;
pub mod order;

verus! {

/// Result of the local score proxy estimation.
#[derive(Clone, Copy, Debug)]
pub struct ScoreProxyResult {
    /// Our estimated share of daily rewards, clamped to the configured bounds.
    pub estimated_share: Decimal,
    /// Our total raw score (sum of per-order scores).
    pub our_total_score: Decimal,
    /// Estimated total competitor score from visible book depth (approximate).
    pub competitor_total_approx: Decimal,
    /// Whether the market is in extreme territory (mid < 0.10 or > 0.90).
    pub is_extreme_market: bool,
}

/// The score of an order: `((v - s) / v)^2 * size`, zero from the largest spread on.
pub open spec fn order_score(max_spread: int, spread: int, size: int) -> int {
    if max_spread <= 0 || spread >= max_spread {
        0
    } else {
        let ratio = quotient(difference(max_spread, spread), max_spread);
        product(product(ratio, ratio), size)
    }
}

/// Nothing in the score of an order is too large for a decimal.
pub open spec fn score_fits(max_spread: int, spread: int, size: int) -> bool {
    max_spread <= 0 || spread >= max_spread || {
        let room = difference(max_spread, spread);
        let ratio = quotient(room, max_spread);
        &&& difference_fits(max_spread, spread)
        &&& quotient_fits(room, max_spread)
        &&& product_fits(ratio, ratio)
        &&& product_fits(product(ratio, ratio), size)
    }
}

/// Each step of the score of an order is the exact value or a decimal next to it.
pub open spec fn score_rounds(max_spread: int, spread: int, size: int) -> bool {
    max_spread <= 0 || spread >= max_spread || {
        let room = difference(max_spread, spread);
        let ratio = quotient(room, max_spread);
        let square = product(ratio, ratio);
        &&& is_rounding(room, max_spread - spread, 1)
        &&& is_rounding(ratio, room * unit(), max_spread)
        &&& is_rounding(square, ratio * ratio, unit())
        &&& is_rounding(order_score(max_spread, spread, size), square * size, unit())
    }
}

/// The score of an order, unless it is too large.
pub(crate) fn checked_order_score(max_spread: Decimal, spread: Decimal, size: Decimal) -> (r:
    Option<Decimal>)
    ensures
        r is Some == score_fits(max_spread@, spread@, size@),
        r matches Some(score) ==> {
            &&& score@ == order_score(max_spread@, spread@, size@)
            &&& score_rounds(max_spread@, spread@, size@)
            &&& spread@ >= 0 ==> abs_value(score@) <= abs_value(size@)
            &&& size@ >= 0 ==> score@ >= 0
        },
{
    if max_spread <= Decimal::zero() || spread >= max_spread {
        return Some(Decimal::zero());
    }
    let room = max_spread.checked_minus(spread)?;
    let ratio = room.checked_over(max_spread)?;
    let square = ratio.checked_times(ratio)?;
    let score = square.checked_times(size)?;
    proof {
        use_type_invariant(&max_spread);
        lemma_inv_representable(max_spread);
        use_type_invariant(&size);
        lemma_inv_representable(size);
        lemma_whole(0);
        lemma_square(ratio@, square@);
        if spread@ >= 0 {
            assert(0 <= room@ <= max_spread@);
            lemma_ratio_bounds(room@, max_spread@, ratio@);
            lemma_square_bounds(ratio@, square@);
        }
        lemma_scaled(square@, size@, score@, spread@ >= 0);
    }
    Some(score)
}

/// Compute per-order score using the exchange's formula:
/// S(v, s) = ((v - s) / v)^2 * size
///
/// Returns zero if spread >= max_spread or max_spread == 0.
pub fn per_order_score(max_spread: Decimal, spread_to_mid: Decimal, size: Decimal) -> (r: Decimal)
    requires
        score_fits(max_spread@, spread_to_mid@, size@),
    ensures
        r@ == order_score(max_spread@, spread_to_mid@, size@),
        score_rounds(max_spread@, spread_to_mid@, size@),
        spread_to_mid@ >= 0 ==> abs_value(r@) <= abs_value(size@),
        size@ >= 0 ==> r@ >= 0,
{
    match checked_order_score(max_spread, spread_to_mid, size) {
        Some(score) => score,
        None => unreached(),
    }
}

/// The score of an order, unless it is too large.
pub fn try_per_order_score(max_spread: Decimal, spread_to_mid: Decimal, size: Decimal) -> (r:
    Option<Decimal>)
    ensures
        r is Some == score_fits(max_spread@, spread_to_mid@, size@),
        r matches Some(score) ==> score@ == order_score(max_spread@, spread_to_mid@, size@)
            && score_rounds(max_spread@, spread_to_mid@, size@),
{
    if checked_order_score(max_spread, spread_to_mid, size).is_some() {
        Some(per_order_score(max_spread, spread_to_mid, size))
    } else {
        None
    }
}

/// A square is not below zero.
proof fn lemma_square(ratio: int, square: int)
    requires
        is_rounding(square, ratio * ratio, unit()),
    ensures
        0 <= square,
{
    lemma_whole(0);
    assert(0 * unit() <= ratio * ratio) by (nonlinear_arith);
}

proof fn lemma_ratio_bounds(room: int, v: int, ratio: int)
    requires
        v > 0,
        0 <= room <= v,
        is_rounding(ratio, room * unit(), v),
    ensures
        0 <= ratio <= unit(),
{
    lemma_whole(0);
    lemma_whole(1);
    assert((0 * unit()) * v <= room * unit());
    assert(room * unit() <= (1 * unit()) * v);
}

proof fn lemma_square_bounds(ratio: int, square: int)
    requires
        0 <= ratio <= unit(),
        is_rounding(square, ratio * ratio, unit()),
    ensures
        0 <= square <= unit(),
{
    assert(0 <= ratio * ratio <= unit() * unit()) by (nonlinear_arith)
        requires
            0 <= ratio <= unit(),
    ;
    lemma_whole(0);
    lemma_whole(1);
    assert((0 * unit()) * unit() <= ratio * ratio);
    assert(ratio * ratio <= (1 * unit()) * unit());
}

/// A part of a size is no larger than the size.
proof fn lemma_scaled(square: int, size: int, r: int, part: bool)
    requires
        0 <= square,
        part ==> square <= unit(),
        representable(size),
        representable(0),
        is_rounding(r, square * size, unit()),
    ensures
        part ==> abs_value(r) <= abs_value(size),
        size >= 0 ==> r >= 0,
{
    let u = unit();
    if size >= 0 {
        assert(0 * u <= square * size) by (nonlinear_arith)
            requires
                0 <= square,
                0 <= size,
        ;
        if part {
            assert(square * size <= size * u) by (nonlinear_arith)
                requires
                    0 <= square <= u,
                    0 <= size,
            ;
        }
    } else {
        assert(square * size <= 0 * u) by (nonlinear_arith)
            requires
                0 <= square,
                size <= 0,
        ;
        if part {
            assert(size * u <= square * size) by (nonlinear_arith)
                requires
                    0 <= square <= u,
                    size <= 0,
            ;
        }
    }
}

/// The distance of a price from the mid.
pub open spec fn distance(price: int, mid: int, is_bid_side: bool) -> int {
    abs_value(
        if is_bid_side {
            difference(mid, price)
        } else {
            difference(price, mid)
        },
    )
}

/// The distance is not too large for a decimal.
pub open spec fn distance_fits(price: int, mid: int, is_bid_side: bool) -> bool {
    if is_bid_side {
        difference_fits(mid, price)
    } else {
        difference_fits(price, mid)
    }
}

fn checked_distance(price: Decimal, mid: Decimal, is_bid_side: bool) -> (r: Option<Decimal>)
    ensures
        r is Some == distance_fits(price@, mid@, is_bid_side),
        r matches Some(d) ==> d@ == distance(price@, mid@, is_bid_side),
{
    let spread = if is_bid_side {
        mid.checked_minus(price)?
    } else {
        price.checked_minus(mid)?
    };
    Some(spread.abs())
}

/// The scores of all levels of one side, added up from the first.
pub open spec fn side_score(
    levels: Seq<PriceLevel>,
    mid: int,
    max_spread: int,
    is_bid_side: bool,
) -> int
    decreases levels.len(),
{
    if levels.len() == 0 {
        0
    } else {
        sum(
            side_score(levels.drop_last(), mid, max_spread, is_bid_side),
            order_score(
                max_spread,
                distance(levels.last().price@, mid, is_bid_side),
                levels.last().size@,
            ),
        )
    }
}

/// Nothing in the score of a side is too large for a decimal.
pub open spec fn side_fits(
    levels: Seq<PriceLevel>,
    mid: int,
    max_spread: int,
    is_bid_side: bool,
) -> bool
    decreases levels.len(),
{
    levels.len() == 0 || {
        let level = levels.last();
        let spread = distance(level.price@, mid, is_bid_side);
        &&& side_fits(levels.drop_last(), mid, max_spread, is_bid_side)
        &&& distance_fits(level.price@, mid, is_bid_side)
        &&& score_fits(max_spread, spread, level.size@)
        &&& sum_fits(
            side_score(levels.drop_last(), mid, max_spread, is_bid_side),
            order_score(max_spread, spread, level.size@),
        )
    }
}

/// A side that fits also fits as far as it was added up.
proof fn lemma_side_fits_so_far(
    levels: Seq<PriceLevel>,
    mid: int,
    max_spread: int,
    is_bid_side: bool,
    i: int,
)
    requires
        0 <= i <= levels.len(),
        side_fits(levels, mid, max_spread, is_bid_side),
    ensures
        side_fits(levels.take(i), mid, max_spread, is_bid_side),
    decreases levels.len(),
{
    if i < levels.len() {
        lemma_side_fits_so_far(levels.drop_last(), mid, max_spread, is_bid_side, i);
        assert(levels.drop_last().take(i) =~= levels.take(i));
    } else {
        assert(levels.take(i) =~= levels);
    }
}

fn checked_side_score(
    levels: &Vec<PriceLevel>,
    mid: Decimal,
    max_spread: Decimal,
    is_bid_side: bool,
) -> (r: Option<Decimal>)
    ensures
        r is Some == side_fits(levels@, mid@, max_spread@, is_bid_side),
        r matches Some(score) ==> score@ == side_score(levels@, mid@, max_spread@, is_bid_side),
{
    let mut total = Decimal::zero();
    let mut i: usize = 0;
    assert(levels@.take(0).len() == 0);
    while i < levels.len()
        invariant
            i <= levels.len(),
            total@ == side_score(levels@.take(i as int), mid@, max_spread@, is_bid_side),
            side_fits(levels@.take(i as int), mid@, max_spread@, is_bid_side),
        decreases levels.len() - i,
    {
        proof {
            assert(levels@.take(i + 1).drop_last() =~= levels@.take(i as int));
            assert(levels@.take(i + 1).last() == levels@[i as int]);
            if side_fits(levels@, mid@, max_spread@, is_bid_side) {
                lemma_side_fits_so_far(levels@, mid@, max_spread@, is_bid_side, i + 1);
            }
        }
        let level = levels[i];
        let spread = checked_distance(level.price, mid, is_bid_side)?;
        let score = checked_order_score(max_spread, spread, level.size)?;
        total = total.checked_plus(score)?;
        i = i + 1;
    }
    assert(levels@.take(i as int) =~= levels@);
    Some(total)
}

/// Sum scores for all visible price levels on one side of a book,
/// treating each level as a competitor order.
pub fn score_book_side(
    levels: &Vec<PriceLevel>,
    mid: Decimal,
    max_spread: Decimal,
    is_bid_side: bool,
) -> (r: Decimal)
    requires
        side_fits(levels@, mid@, max_spread@, is_bid_side),
    ensures
        r@ == side_score(levels@, mid@, max_spread@, is_bid_side),
{
    match checked_side_score(levels, mid, max_spread, is_bid_side) {
        Some(score) => score,
        None => unreached(),
    }
}

/// The score of one side of a book, unless it is too large.
pub fn try_score_book_side(
    levels: &Vec<PriceLevel>,
    mid: Decimal,
    max_spread: Decimal,
    is_bid_side: bool,
) -> (r: Option<Decimal>)
    ensures
        r is Some == side_fits(levels@, mid@, max_spread@, is_bid_side),
        r matches Some(score) ==> score@ == side_score(levels@, mid@, max_spread@, is_bid_side),
{
    if checked_side_score(levels, mid, max_spread, is_bid_side).is_some() {
        Some(score_book_side(levels, mid, max_spread, is_bid_side))
    } else {
        None
    }
}

/// What was scored before, and the score of both sides of a book that has a mid.
pub open spec fn book_score(before: int, book: OrderBookSnapshot, max_spread: int) -> int {
    match book.middle() {
        Some(m) => sum(
            sum(before, side_score(book.bids@, m, max_spread, true)),
            side_score(book.asks@, m, max_spread, false),
        ),
        None => before,
    }
}

/// Nothing in the score of a book is too large for a decimal.
pub open spec fn book_fits(before: int, book: OrderBookSnapshot, max_spread: int) -> bool {
    &&& book.middle_fits()
    &&& book.middle() matches Some(m) ==> {
        let bids = side_score(book.bids@, m, max_spread, true);
        let asks = side_score(book.asks@, m, max_spread, false);
        &&& side_fits(book.bids@, m, max_spread, true)
        &&& sum_fits(before, bids)
        &&& side_fits(book.asks@, m, max_spread, false)
        &&& sum_fits(sum(before, bids), asks)
    }
}

fn checked_book_score(before: Decimal, book: &OrderBookSnapshot, max_spread: Decimal) -> (r: Option<
    Decimal,
>)
    ensures
        r is Some == book_fits(before@, *book, max_spread@),
        r matches Some(score) ==> score@ == book_score(before@, *book, max_spread@),
{
    match book.try_mid()? {
        Some(m) => {
            let bids = checked_side_score(&book.bids, m, max_spread, true)?;
            let total = before.checked_plus(bids)?;
            let asks = checked_side_score(&book.asks, m, max_spread, false)?;
            total.checked_plus(asks)
        },
        None => Some(before),
    }
}

/// The score of all that is visible in the books that have a mid.
pub open spec fn visible_score(
    yes_book: OrderBookSnapshot,
    no_book: OrderBookSnapshot,
    max_spread: int,
) -> int {
    book_score(book_score(0, yes_book, max_spread), no_book, max_spread)
}

/// The score of all that is visible, inflated by the multiplier.
pub open spec fn competition(
    yes_book: OrderBookSnapshot,
    no_book: OrderBookSnapshot,
    max_spread: int,
    multiplier: int,
) -> int {
    product(visible_score(yes_book, no_book, max_spread), multiplier)
}

/// Nothing in the score of the competition is too large for a decimal.
pub open spec fn competition_fits(
    yes_book: OrderBookSnapshot,
    no_book: OrderBookSnapshot,
    max_spread: int,
    multiplier: int,
) -> bool {
    &&& book_fits(0, yes_book, max_spread)
    &&& book_fits(book_score(0, yes_book, max_spread), no_book, max_spread)
    &&& product_fits(visible_score(yes_book, no_book, max_spread), multiplier)
}

fn checked_competition(
    yes_book: &OrderBookSnapshot,
    no_book: &OrderBookSnapshot,
    max_spread: Decimal,
    multiplier: Decimal,
) -> (r: Option<Decimal>)
    ensures
        r is Some == competition_fits(*yes_book, *no_book, max_spread@, multiplier@),
        r matches Some(score) ==> score@ == competition(
            *yes_book,
            *no_book,
            max_spread@,
            multiplier@,
        ),
{
    let yes = checked_book_score(Decimal::zero(), yes_book, max_spread)?;
    let both = checked_book_score(yes, no_book, max_spread)?;
    both.checked_times(multiplier)
}

/// The mid against which a leg is scored.
pub open spec fn leg_mid(leg: QuoteLeg, yes_mid: Option<int>, no_mid: Option<int>) -> Option<int> {
    if leg == QuoteLeg::YesBid || leg == QuoteLeg::YesAsk {
        yes_mid
    } else {
        no_mid
    }
}

/// The score of our approved quotes whose book has a mid, added up from the first.
pub open spec fn own_score(
    candidates: Seq<QuoteCandidate>,
    yes_mid: Option<int>,
    no_mid: Option<int>,
    max_spread: int,
) -> int
    decreases candidates.len(),
{
    if candidates.len() == 0 {
        0
    } else {
        let before = own_score(candidates.drop_last(), yes_mid, no_mid, max_spread);
        let c = candidates.last();
        match leg_mid(c.leg, yes_mid, no_mid) {
            Some(m) => if c.status == QuoteStatus::Approved {
                sum(before, order_score(max_spread, distance(c.price@, m, c.leg.bids()), c.size@))
            } else {
                before
            },
            None => before,
        }
    }
}

/// Nothing in our own score is too large for a decimal.
pub open spec fn own_fits(
    candidates: Seq<QuoteCandidate>,
    yes_mid: Option<int>,
    no_mid: Option<int>,
    max_spread: int,
) -> bool
    decreases candidates.len(),
{
    candidates.len() == 0 || {
        let before = own_score(candidates.drop_last(), yes_mid, no_mid, max_spread);
        let c = candidates.last();
        &&& own_fits(candidates.drop_last(), yes_mid, no_mid, max_spread)
        &&& leg_mid(c.leg, yes_mid, no_mid) matches Some(m) ==> (c.status == QuoteStatus::Approved
            ==> {
            let spread = distance(c.price@, m, c.leg.bids());
            &&& distance_fits(c.price@, m, c.leg.bids())
            &&& score_fits(max_spread, spread, c.size@)
            &&& sum_fits(before, order_score(max_spread, spread, c.size@))
        })
    }
}

/// Quotes that fit also fit as far as they were added up.
proof fn lemma_own_fits_so_far(
    candidates: Seq<QuoteCandidate>,
    yes_mid: Option<int>,
    no_mid: Option<int>,
    max_spread: int,
    i: int,
)
    requires
        0 <= i <= candidates.len(),
        own_fits(candidates, yes_mid, no_mid, max_spread),
    ensures
        own_fits(candidates.take(i), yes_mid, no_mid, max_spread),
    decreases candidates.len(),
{
    if i < candidates.len() {
        lemma_own_fits_so_far(candidates.drop_last(), yes_mid, no_mid, max_spread, i);
        assert(candidates.drop_last().take(i) =~= candidates.take(i));
    } else {
        assert(candidates.take(i) =~= candidates);
    }
}

fn checked_own_score(
    candidates: &Vec<QuoteCandidate>,
    yes_mid: Option<Decimal>,
    no_mid: Option<Decimal>,
    max_spread: Decimal,
) -> (r: Option<Decimal>)
    ensures
        r is Some == own_fits(candidates@, value_of(yes_mid), value_of(no_mid), max_spread@),
        r matches Some(score) ==> score@ == own_score(
            candidates@,
            value_of(yes_mid),
            value_of(no_mid),
            max_spread@,
        ),
{
    let ghost (y, n, v) = (value_of(yes_mid), value_of(no_mid), max_spread@);
    let mut total = Decimal::zero();
    let mut i: usize = 0;
    assert(candidates@.take(0).len() == 0);
    while i < candidates.len()
        invariant
            i <= candidates.len(),
            y == value_of(yes_mid),
            n == value_of(no_mid),
            v == max_spread@,
            total@ == own_score(candidates@.take(i as int), y, n, v),
            own_fits(candidates@.take(i as int), y, n, v),
        decreases candidates.len() - i,
    {
        proof {
            assert(candidates@.take(i + 1).drop_last() =~= candidates@.take(i as int));
            assert(candidates@.take(i + 1).last() == candidates@[i as int]);
            if own_fits(candidates@, y, n, v) {
                lemma_own_fits_so_far(candidates@, y, n, v, i + 1);
            }
        }
        let candidate = &candidates[i];
        let mid = match candidate.leg {
            QuoteLeg::YesBid | QuoteLeg::YesAsk => yes_mid,
            QuoteLeg::NoBid | QuoteLeg::NoAsk => no_mid,
        };
        if candidate.status == QuoteStatus::Approved {
            if let Some(m) = mid {
                let spread = checked_distance(candidate.price, m, candidate.leg.is_bid())?;
                let score = checked_order_score(max_spread, spread, candidate.size)?;
                total = total.checked_plus(score)?;
            }
        }
        i = i + 1;
    }
    assert(candidates@.take(i as int) =~= candidates@);
    Some(total)
}

/// Our part of the whole, or the least share where the whole is nothing.
pub open spec fn raw_share(own: int, others: int, least: int) -> int {
    let total = sum(own, others);
    if total > 0 {
        quotient(own, total)
    } else {
        least
    }
}

/// A share kept between the configured bounds.
pub open spec fn clamped(share: int, least: int, most: int) -> int {
    min_of(max_of(share, least), most)
}

pub struct ProxyView {
    pub share: int,
    pub own: int,
    pub others: int,
    pub extreme: bool,
}

impl View for ScoreProxyResult {
    type V = ProxyView;

    open spec fn view(&self) -> ProxyView {
        ProxyView {
            share: self.estimated_share@,
            own: self.our_total_score@,
            others: self.competitor_total_approx@,
            extreme: self.is_extreme_market,
        }
    }
}

/// The estimate: our score against that of all visible depth, inflated by the multiplier. Without a
/// largest spread or a mid there is only the least share.
pub open spec fn score_estimate(
    candidates: Seq<QuoteCandidate>,
    yes_book: OrderBookSnapshot,
    no_book: OrderBookSnapshot,
    max_spread: int,
    config: ScoreProxyConfig,
) -> ProxyView {
    let least = config.min_score_share@;
    if max_spread <= 0 || yes_book.middle() is None && no_book.middle() is None {
        ProxyView { share: least, own: 0, others: 0, extreme: false }
    } else {
        let own = own_score(candidates, yes_book.middle(), no_book.middle(), max_spread);
        let others = competition(
            yes_book,
            no_book,
            max_spread,
            config.competition_multiplier@,
        );
        ProxyView {
            share: clamped(raw_share(own, others, least), least, config.max_score_share@),
            own,
            others,
            extreme: yes_book.middle() matches Some(m) && (m < 10 * cent() || m > 90 * cent()),
        }
    }
}

/// Our part of the whole is not too large for a decimal.
pub open spec fn share_fits(own: int, others: int) -> bool {
    sum_fits(own, others) && (sum(own, others) > 0 ==> quotient_fits(own, sum(own, others)))
}

/// Our part of the whole, unless the whole is too large.
pub(crate) fn checked_share(own: Decimal, others: Decimal, least: Decimal) -> (r: Option<Decimal>)
    ensures
        r is Some == share_fits(own@, others@),
        r matches Some(share) ==> share@ == raw_share(own@, others@, least@),
{
    let total = own.checked_plus(others)?;
    if total > Decimal::zero() {
        own.checked_over(total)
    } else {
        Some(least)
    }
}

/// Nothing in the estimate is too large for a decimal.
pub open spec fn estimate_fits(
    candidates: Seq<QuoteCandidate>,
    yes_book: OrderBookSnapshot,
    no_book: OrderBookSnapshot,
    max_spread: int,
    config: ScoreProxyConfig,
) -> bool {
    let multiplier = config.competition_multiplier@;
    max_spread <= 0 || {
        &&& yes_book.middle_fits() && no_book.middle_fits()
        &&& yes_book.middle() is None && no_book.middle() is None || {
            let own = own_score(candidates, yes_book.middle(), no_book.middle(), max_spread);
            &&& own_fits(candidates, yes_book.middle(), no_book.middle(), max_spread)
            &&& competition_fits(yes_book, no_book, max_spread, multiplier)
            &&& share_fits(own, competition(yes_book, no_book, max_spread, multiplier))
        }
    }
}

fn checked_score_proxy(
    quote_set: &QuoteSet,
    yes_book: &OrderBookSnapshot,
    no_book: &OrderBookSnapshot,
    reward_config: &RewardConfig,
    config: &ScoreProxyConfig,
) -> (r: Option<ScoreProxyResult>)
    ensures
        r is Some == estimate_fits(
            quote_set.candidates@,
            *yes_book,
            *no_book,
            reward_config.max_spread@,
            *config,
        ),
        r matches Some(estimate) ==> estimate@ == score_estimate(
            quote_set.candidates@,
            *yes_book,
            *no_book,
            reward_config.max_spread@,
            *config,
        ),
{
    let max_spread = reward_config.max_spread;
    if max_spread <= Decimal::zero() {
        return Some(fallback_result(config.min_score_share));
    }
    let yes_mid = yes_book.try_mid()?;
    let no_mid = no_book.try_mid()?;
    if yes_mid.is_none() && no_mid.is_none() {
        return Some(fallback_result(config.min_score_share));
    }
    proof {
        lemma_pow10_28();
    }
    let is_extreme = match yes_mid {
        Some(m) => m < Decimal::new(10, 2) || m > Decimal::new(90, 2),
        None => false,
    };
    let our_total = checked_own_score(&quote_set.candidates, yes_mid, no_mid, max_spread)?;
    let adjusted_comp = checked_competition(
        yes_book,
        no_book,
        max_spread,
        config.competition_multiplier,
    )?;
    let raw_share = checked_share(our_total, adjusted_comp, config.min_score_share)?;
    let estimated_share = raw_share.max(config.min_score_share).min(config.max_score_share);
    Some(
        ScoreProxyResult {
            estimated_share,
            our_total_score: our_total,
            competitor_total_approx: adjusted_comp,
            is_extreme_market: is_extreme,
        },
    )
}

/// Compute the local score proxy for a market.
///
/// Uses the exchange's scoring formula to estimate:
/// 1. Our score from proposed quotes
/// 2. Competitor scores from visible book depth
/// 3. Our approximate share = our_Q / (our_Q + competitor_Q)
///
/// All estimates are approximate: the exchange publishes no aggregate market-maker score.
pub fn compute_score_proxy(
    quote_set: &QuoteSet,
    yes_book: &OrderBookSnapshot,
    no_book: &OrderBookSnapshot,
    reward_config: &RewardConfig,
    config: &ScoreProxyConfig,
) -> (r: ScoreProxyResult)
    requires
        estimate_fits(
            quote_set.candidates@,
            *yes_book,
            *no_book,
            reward_config.max_spread@,
            *config,
        ),
    ensures
        r@ == score_estimate(
            quote_set.candidates@,
            *yes_book,
            *no_book,
            reward_config.max_spread@,
            *config,
        ),
{
    match checked_score_proxy(quote_set, yes_book, no_book, reward_config, config) {
        Some(estimate) => estimate,
        None => unreached(),
    }
}

/// The score proxy, unless some number in it is too large.
pub fn try_compute_score_proxy(
    quote_set: &QuoteSet,
    yes_book: &OrderBookSnapshot,
    no_book: &OrderBookSnapshot,
    reward_config: &RewardConfig,
    config: &ScoreProxyConfig,
) -> (r: Option<ScoreProxyResult>)
    ensures
        r is Some == estimate_fits(
            quote_set.candidates@,
            *yes_book,
            *no_book,
            reward_config.max_spread@,
            *config,
        ),
        r matches Some(estimate) ==> estimate@ == score_estimate(
            quote_set.candidates@,
            *yes_book,
            *no_book,
            reward_config.max_spread@,
            *config,
        ),
{
    if checked_score_proxy(quote_set, yes_book, no_book, reward_config, config).is_some() {
        Some(compute_score_proxy(quote_set, yes_book, no_book, reward_config, config))
    } else {
        None
    }
}

fn fallback_result(min_share: Decimal) -> (r: ScoreProxyResult)
    ensures
        r@ == (ProxyView { share: min_share@, own: 0, others: 0, extreme: false }),
{
    ScoreProxyResult {
        estimated_share: min_share,
        our_total_score: Decimal::zero(),
        competitor_total_approx: Decimal::zero(),
        is_extreme_market: false,
    }
}

/// Half the spread of a book that has both sides.
pub open spec fn half_spread(book: OrderBookSnapshot) -> Option<int> {
    match (first_price(book.bids@), first_price(book.asks@)) {
        (Some(bid), Some(ask)) => Some(quotient(difference(ask, bid), 2 * unit())),
        _ => None,
    }
}

/// The average of the half spreads that there are.
pub open spec fn average_spread(
    yes_book: OrderBookSnapshot,
    no_book: OrderBookSnapshot,
) -> Option<int> {
    match (half_spread(yes_book), half_spread(no_book)) {
        (Some(a), Some(b)) => Some(quotient(sum(sum(0, a), b), 2 * unit())),
        (Some(a), None) => Some(quotient(sum(0, a), unit())),
        (None, Some(b)) => Some(quotient(sum(0, b), unit())),
        (None, None) => None,
    }
}

/// The score that gives the target share against the competition: `target / (1 - target)` times
/// theirs.
pub open spec fn needed_score(target: int, others: int) -> int {
    product(quotient(target, difference(unit(), target)), others)
}

/// The quote size for the target share of the rewards: what the needed score takes over two legs,
/// kept between the bounds and rounded to whole shares, unless rounding would leave the bounds.
/// Where nothing can be reckoned it is the smaller bound.
pub open spec fn dynamic_size(
    yes_book: OrderBookSnapshot,
    no_book: OrderBookSnapshot,
    max_spread: int,
    config: ScoreProxyConfig,
    min_size: int,
    max_size: int,
) -> int {
    let fallback = min_of(min_size, max_size);
    let others = competition(yes_book, no_book, max_spread, config.competition_multiplier@);
    let target = config.target_score_share@;
    if max_spread <= 0 || yes_book.middle() is None && no_book.middle() is None || others <= 0
        || target <= 0 || target >= unit() {
        fallback
    } else {
        match average_spread(yes_book, no_book) {
            Some(spread) => {
                let per_unit = order_score(max_spread, spread, unit());
                if per_unit <= 0 {
                    fallback
                } else {
                    let size = clamped(
                        quotient(needed_score(target, others), product(2 * unit(), per_unit)),
                        min_size,
                        max_size,
                    );
                    clamped(rounded_even(size), min_size, max_size)
                }
            },
            None => fallback,
        }
    }
}

/// The half spreads and their average are not too large for a decimal.
pub open spec fn spreads_fit(yes_book: OrderBookSnapshot, no_book: OrderBookSnapshot) -> bool {
    &&& spread_fits(yes_book)
    &&& spread_fits(no_book)
    &&& match (half_spread(yes_book), half_spread(no_book)) {
        (Some(a), Some(b)) => sum_fits(sum(0, a), b),
        _ => true,
    }
}

/// The spread is not too large for a decimal.
pub open spec fn spread_fits(book: OrderBookSnapshot) -> bool {
    match (first_price(book.bids@), first_price(book.asks@)) {
        (Some(bid), Some(ask)) => difference_fits(ask, bid),
        _ => true,
    }
}

/// Nothing in the dynamic size is too large for a decimal.
pub open spec fn size_fits(
    yes_book: OrderBookSnapshot,
    no_book: OrderBookSnapshot,
    max_spread: int,
    config: ScoreProxyConfig,
) -> bool {
    let multiplier = config.competition_multiplier@;
    let target = config.target_score_share@;
    let others = competition(yes_book, no_book, max_spread, multiplier);
    max_spread <= 0 || {
        &&& yes_book.middle_fits() && no_book.middle_fits()
        &&& yes_book.middle() is None && no_book.middle() is None || {
            &&& competition_fits(yes_book, no_book, max_spread, multiplier)
            &&& others <= 0 || target <= 0 || target >= unit() || {
                &&& needed_fits(target, others)
                &&& spreads_fit(yes_book, no_book)
                &&& average_spread(yes_book, no_book) matches Some(spread) ==> {
                    let per_unit = order_score(max_spread, spread, unit());
                    &&& score_fits(max_spread, spread, unit())
                    &&& per_unit <= 0 || {
                        &&& product_fits(2 * unit(), per_unit)
                        &&& quotient_fits(
                            needed_score(target, others),
                            product(2 * unit(), per_unit),
                        )
                    }
                }
            }
        }
    }
}

/// The needed score is not too large for a decimal.
pub open spec fn needed_fits(target: int, others: int) -> bool {
    let rest = difference(unit(), target);
    &&& difference_fits(unit(), target)
    &&& quotient_fits(target, rest)
    &&& product_fits(quotient(target, rest), others)
}

/// Half the spread of a book that has both sides, unless it is too large.
fn checked_half_spread(book: &OrderBookSnapshot) -> (r: Option<Option<Decimal>>)
    ensures
        r is Some == spread_fits(*book),
        r matches Some(half) ==> value_of(half) == half_spread(*book),
{
    match (book.best_bid(), book.best_ask()) {
        (Some(bid), Some(ask)) => {
            let spread = ask.price.checked_minus(bid.price)?;
            Some(Some(spread.over_whole(Decimal::from_u64(2))))
        },
        _ => Some(None),
    }
}

/// The average of the half spreads that there are, unless they are too large.
fn checked_average_spread(yes_book: &OrderBookSnapshot, no_book: &OrderBookSnapshot) -> (r: Option<
    Option<Decimal>,
>)
    ensures
        r is Some == spreads_fit(*yes_book, *no_book),
        r matches Some(spread) ==> value_of(spread) == average_spread(*yes_book, *no_book),
{
    let mut spread_sum = Decimal::zero();
    let mut spread_count: u64 = 0;
    if let Some(half) = checked_half_spread(yes_book)? {
        proof {
            use_type_invariant(&half);
            lemma_inv_representable(half);
        }
        spread_sum = spread_sum.plus(half);
        spread_count = spread_count + 1;
    }
    if let Some(half) = checked_half_spread(no_book)? {
        proof {
            use_type_invariant(&half);
            lemma_inv_representable(half);
        }
        spread_sum = spread_sum.checked_plus(half)?;
        spread_count = spread_count + 1;
    }
    if spread_count == 0 {
        return Some(None);
    }
    Some(Some(spread_sum.over_whole(Decimal::from_u64(spread_count))))
}

/// The size for the target share, unless some number on the way is too large.
fn checked_dynamic_size(
    yes_book: &OrderBookSnapshot,
    no_book: &OrderBookSnapshot,
    reward_config: &RewardConfig,
    config: &ScoreProxyConfig,
    min_size: Decimal,
    max_size: Decimal,
) -> (r: Option<Decimal>)
    ensures
        r is Some == size_fits(*yes_book, *no_book, reward_config.max_spread@, *config),
        r matches Some(size) ==> size@ == dynamic_size(
            *yes_book,
            *no_book,
            reward_config.max_spread@,
            *config,
            min_size@,
            max_size@,
        ),
{
    let fallback = min_size.min(max_size);
    let max_spread = reward_config.max_spread;
    if max_spread <= Decimal::zero() {
        return Some(fallback);
    }
    let yes_mid = yes_book.try_mid()?;
    let no_mid = no_book.try_mid()?;
    if yes_mid.is_none() && no_mid.is_none() {
        return Some(fallback);
    }
    let adjusted_comp = checked_competition(
        yes_book,
        no_book,
        max_spread,
        config.competition_multiplier,
    )?;
    if adjusted_comp <= Decimal::zero() {
        return Some(fallback);
    }
    let target = config.target_score_share;
    if target <= Decimal::zero() || target >= Decimal::one() {
        return Some(fallback);
    }
    let rest = Decimal::one().checked_minus(target)?;
    let needed_q = target.checked_over(rest)?.checked_times(adjusted_comp)?;
    let avg_spread = match checked_average_spread(yes_book, no_book)? {
        Some(spread) => spread,
        None => return Some(fallback),
    };
    let score_per_unit = checked_order_score(max_spread, avg_spread, Decimal::one())?;
    if score_per_unit <= Decimal::zero() {
        return Some(fallback);
    }
    // Each side gets two legs of size S, so needed_q = 2 * S * score_per_unit
    let both_legs = Decimal::from_u64(2).checked_times(score_per_unit)?;
    let raw_size = needed_q.checked_over(both_legs)?;
    let size = raw_size.max(min_size).min(max_size).round_whole();
    // Rounding must not leave the bounds
    Some(size.max(min_size).min(max_size))
}

/// Compute the quote size needed to achieve the target score share.
///
/// Scores visible book depth as competition, then solves for the size
/// that would give us `target_score_share` of the rewards pool.
/// Clamps to [min_size, max_size].
pub fn compute_dynamic_size(
    yes_book: &OrderBookSnapshot,
    no_book: &OrderBookSnapshot,
    reward_config: &RewardConfig,
    config: &ScoreProxyConfig,
    min_size: Decimal,
    max_size: Decimal,
) -> (r: Decimal)
    requires
        size_fits(*yes_book, *no_book, reward_config.max_spread@, *config),
    ensures
        r@ == dynamic_size(
            *yes_book,
            *no_book,
            reward_config.max_spread@,
            *config,
            min_size@,
            max_size@,
        ),
        min_size@ <= max_size@ ==> min_size@ <= r@ <= max_size@,
{
    match checked_dynamic_size(yes_book, no_book, reward_config, config, min_size, max_size) {
        Some(size) => size,
        None => unreached(),
    }
}

/// The size for the target share, unless some number on the way is too large.
pub fn try_compute_dynamic_size(
    yes_book: &OrderBookSnapshot,
    no_book: &OrderBookSnapshot,
    reward_config: &RewardConfig,
    config: &ScoreProxyConfig,
    min_size: Decimal,
    max_size: Decimal,
) -> (r: Option<Decimal>)
    ensures
        r is Some == size_fits(*yes_book, *no_book, reward_config.max_spread@, *config),
        r matches Some(size) ==> size@ == dynamic_size(
            *yes_book,
            *no_book,
            reward_config.max_spread@,
            *config,
            min_size@,
            max_size@,
        ) && (min_size@ <= max_size@ ==> min_size@ <= size@ <= max_size@),
{
    if checked_dynamic_size(
        yes_book,
        no_book,
        reward_config,
        config,
        min_size,
        max_size,
    ).is_some() {
        Some(compute_dynamic_size(yes_book, no_book, reward_config, config, min_size, max_size))
    } else {
        None
    }
}

pub open spec fn approved_quote() -> spec_fn(QuoteCandidate) -> bool {
    |c: QuoteCandidate| c.status == QuoteStatus::Approved
}

/// Quotes that are not approved make no difference to our score.
pub proof fn law_only_approved_quotes_score(
    candidates: Seq<QuoteCandidate>,
    yes_mid: Option<int>,
    no_mid: Option<int>,
    max_spread: int,
)
    ensures
        own_score(candidates.filter(approved_quote()), yes_mid, no_mid, max_spread) == own_score(
            candidates,
            yes_mid,
            no_mid,
            max_spread,
        ),
        own_fits(candidates.filter(approved_quote()), yes_mid, no_mid, max_spread) == own_fits(
            candidates,
            yes_mid,
            no_mid,
            max_spread,
        ),
    decreases candidates.len(),
{
    reveal(Seq::filter);
    if candidates.len() > 0 {
        let rest = candidates.drop_last();
        law_only_approved_quotes_score(rest, yes_mid, no_mid, max_spread);
        let kept = rest.filter(approved_quote());
        if approved_quote()(candidates.last()) {
            assert(kept.push(candidates.last()).drop_last() =~= kept);
        }
    }
}

/// Quotes that are not approved make no difference to the estimate: only the approved ones, in
/// their order, do.
pub proof fn law_estimate_sees_approved_quotes_only(
    a: Seq<QuoteCandidate>,
    b: Seq<QuoteCandidate>,
    yes_book: OrderBookSnapshot,
    no_book: OrderBookSnapshot,
    max_spread: int,
    config: ScoreProxyConfig,
)
    requires
        a.filter(approved_quote()) == b.filter(approved_quote()),
    ensures
        score_estimate(a, yes_book, no_book, max_spread, config) == score_estimate(
            b,
            yes_book,
            no_book,
            max_spread,
            config,
        ),
        estimate_fits(a, yes_book, no_book, max_spread, config) == estimate_fits(
            b,
            yes_book,
            no_book,
            max_spread,
            config,
        ),
{
    law_only_approved_quotes_score(a, yes_book.middle(), no_book.middle(), max_spread);
    law_only_approved_quotes_score(b, yes_book.middle(), no_book.middle(), max_spread);
}

/// The estimated share keeps to the configured bounds, and orders from the largest spread on score
/// nothing.
pub proof fn law_share_keeps_to_bounds(
    candidates: Seq<QuoteCandidate>,
    yes_book: OrderBookSnapshot,
    no_book: OrderBookSnapshot,
    max_spread: int,
    config: ScoreProxyConfig,
    spread: int,
    size: int,
)
    requires
        config.min_score_share@ <= config.max_score_share@,
    ensures
        config.min_score_share@ <= score_estimate(
            candidates,
            yes_book,
            no_book,
            max_spread,
            config,
        ).share <= config.max_score_share@,
        spread >= max_spread ==> order_score(max_spread, spread, size) == 0,
{
}

/// The score of an order needs no rounding: the room, its ratio to the largest spread, the square
/// and the product with the size are decimals.
pub open spec fn scored_exactly(max_spread: int, spread: int, size: int) -> bool {
    let ratio = ((max_spread - spread) * unit()) / max_spread;
    let square = (ratio * ratio) / unit();
    spread >= max_spread || {
        &&& representable(max_spread - spread)
        &&& ((max_spread - spread) * unit()) % max_spread == 0 && representable(ratio)
        &&& (ratio * ratio) % unit() == 0 && representable(square)
        &&& (square * size) % unit() == 0 && representable((square * size) / unit())
    }
}

/// A size is never outside its bounds, whatever the books and the settings.
pub proof fn law_size_keeps_to_bounds(
    yes_book: OrderBookSnapshot,
    no_book: OrderBookSnapshot,
    max_spread: int,
    config: ScoreProxyConfig,
    min_size: int,
    max_size: int,
)
    requires
        min_size <= max_size,
    ensures
        min_size <= dynamic_size(yes_book, no_book, max_spread, config, min_size, max_size)
            <= max_size,
{
}

/// Orders closer to the mid score no less, where scores need no rounding.
pub proof fn law_closer_orders_score_higher(max_spread: int, near: int, far: int, size: int)
    requires
        max_spread > 0,
        0 <= near <= far,
        size >= 0,
        scored_exactly(max_spread, near, size),
        scored_exactly(max_spread, far, size),
    ensures
        0 <= order_score(max_spread, far, size) <= order_score(max_spread, near, size),
        order_score(max_spread, near, size) <= size,
{
    let u = unit();
    let v = max_spread;
    if near < v {
        lemma_exact_score(v, near, size);
        if far < v {
            lemma_exact_score(v, far, size);
            let a = ((v - near) * u) / v;
            let b = ((v - far) * u) / v;
            assert(b <= a) by (nonlinear_arith)
                requires
                    v > 0,
                    near <= far,
                    u > 0,
                    a == ((v - near) * u) / v,
                    b == ((v - far) * u) / v,
            ;
            let p = (a * a) / u;
            let q = (b * b) / u;
            assert(q <= p) by (nonlinear_arith)
                requires
                    0 <= b <= a,
                    u > 0,
                    p == (a * a) / u,
                    q == (b * b) / u,
            ;
            assert((q * size) / u <= (p * size) / u) by (nonlinear_arith)
                requires
                    q <= p,
                    0 <= size,
                    u > 0,
            ;
        }
    }
}

proof fn lemma_exact_score(v: int, s: int, size: int)
    requires
        v > 0,
        0 <= s < v,
        size >= 0,
        scored_exactly(v, s, size),
    ensures
        ({
            let ratio = ((v - s) * unit()) / v;
            let square = (ratio * ratio) / unit();
            &&& order_score(v, s, size) == (square * size) / unit()
            &&& 0 <= ratio <= unit()
            &&& 0 <= square <= unit()
            &&& 0 <= (square * size) / unit() <= size
        }),
{
    let u = unit();
    let ratio = ((v - s) * u) / v;
    assert(0 <= ratio <= u) by (nonlinear_arith)
        requires
            v > 0,
            0 <= s < v,
            u > 0,
            ratio == ((v - s) * u) / v,
    ;
    let square = (ratio * ratio) / u;
    assert(0 <= square <= u) by (nonlinear_arith)
        requires
            0 <= ratio <= u,
            u > 0,
            square == (ratio * ratio) / u,
    ;
    assert(0 <= (square * size) / u <= size) by (nonlinear_arith)
        requires
            0 <= square <= u,
            u > 0,
            size >= 0,
    ;
}

} // verus!
