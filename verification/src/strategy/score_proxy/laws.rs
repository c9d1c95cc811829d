//! What scores, shares and sizes must satisfy.

use crate::config::ScoreProxyConfig;
use crate::decimal::{
    lemma_exact_product, lemma_exact_product_fits, lemma_exact_quotient, lemma_exact_quotient_fits,
    lemma_representable_bound, lemma_whole, product, quotient, representable, unit,
};
use crate::models::{OrderBookSnapshot, PriceLevel, QuoteCandidate, QuoteLeg, QuoteStatus};
use crate::strategy::score_proxy::{
    average_spread, book_score, clamped, competition, dynamic_size, needed_score, order_score,
    own_fits, rounded_even, score_estimate, score_fits, scored_exactly, side_score, visible_score,
};
use vstd::prelude::*;

verus! {

/// Where no rounding is needed, the score of an order within the largest spread `v` is
/// `((v - s) / v)^2` times its size.
pub proof fn law_score_is_the_square_of_the_room(v: int, s: int, size: int)
    requires
        v > 0,
        s < v,
        scored_exactly(v, s, size),
    ensures
        order_score(v, s, size) * v * v == (v - s) * (v - s) * size,
        s == 0 ==> order_score(v, s, size) == size,
        score_fits(v, s, size),
{
    let u = unit();
    let d = v - s;
    let ratio = (d * u) / v;
    let square = (ratio * ratio) / u;
    let score = (square * size) / u;
    assert(ratio * v == d * u) by (nonlinear_arith)
        requires
            (d * u) % v == 0,
            ratio == (d * u) / v,
            v > 0,
    ;
    assert(square * u == ratio * ratio);
    assert(score * u == square * size);
    lemma_exact_quotient(d, v, ratio);
    lemma_exact_product(ratio, ratio, square);
    lemma_exact_product(square, size, score);
    lemma_representable_bound(d);
    lemma_exact_quotient_fits(d, v, ratio);
    lemma_exact_product_fits(ratio, ratio, square);
    lemma_exact_product_fits(square, size, score);
    assert(score * v * v == d * d * size) by {
        assert((score * u) * (u * v * v) == (square * size) * (u * v * v));
        assert((square * size) * (u * v * v) == (square * u) * (size * v * v)) by (nonlinear_arith);
        assert((ratio * ratio) * (size * v * v) == ((ratio * v) * (ratio * v)) * size)
            by (nonlinear_arith);
        assert(((d * u) * (d * u)) * size == (d * d * size) * (u * u)) by (nonlinear_arith);
        assert((score * u) * (u * v * v) == (score * v * v) * (u * u)) by (nonlinear_arith);
        assert(score * v * v == d * d * size) by (nonlinear_arith)
            requires
                (score * v * v) * (u * u) == (d * d * size) * (u * u),
                u > 0,
        ;
    }
    if s == 0 {
        assert(score == size) by (nonlinear_arith)
            requires
                score * v * v == d * d * size,
                d == v,
                v > 0,
        ;
    }
}

/// The mid of a book: half-way between the first bid and the first ask.
pub open spec fn has_mid(book: OrderBookSnapshot, mid: int) -> bool {
    &&& book.bids@.len() > 0 && book.asks@.len() > 0
    &&& 2 * mid == book.bids@[0].price@ + book.asks@[0].price@
    &&& representable(book.bids@[0].price@ + book.asks@[0].price@)
    &&& representable(mid)
}

proof fn lemma_mid(book: OrderBookSnapshot, mid: int)
    requires
        has_mid(book, mid),
    ensures
        book.middle() == Some(mid),
{
    let both = book.bids@[0].price@ + book.asks@[0].price@;
    assert(both * unit() == mid * (2 * unit())) by (nonlinear_arith)
        requires
            2 * mid == both,
    ;
    lemma_exact_quotient(both, 2 * unit(), mid);
}

/// How far two prices are apart.
pub open spec fn apart(a: int, b: int) -> int {
    if a < b {
        b - a
    } else {
        a - b
    }
}

/// A further approved quote scores against the mid of the book of its own token: YES legs against
/// the YES book, NO legs against the NO book. From the largest spread on it scores nothing, within it
/// the square of its room for each share, and at the mid its full size. Any other quote changes
/// nothing.
#[verifier::spinoff_prover]
#[verifier::rlimit(60)]
pub proof fn law_quotes_score_against_their_own_mid(
    candidates: Seq<QuoteCandidate>,
    q: QuoteCandidate,
    yes_book: OrderBookSnapshot,
    no_book: OrderBookSnapshot,
    v: int,
    config: ScoreProxyConfig,
    mid: int,
    score: int,
)
    requires
        v > 0,
        has_mid(
            if q.leg == QuoteLeg::YesBid || q.leg == QuoteLeg::YesAsk {
                yes_book
            } else {
                no_book
            },
            mid,
        ),
        representable(mid - q.price@) && representable(q.price@ - mid),
        apart(q.price@, mid) < v ==> scored_exactly(v, apart(q.price@, mid), q.size@),
        apart(q.price@, mid) < v ==> score * v * v == (v - apart(q.price@, mid)) * (v - apart(
            q.price@,
            mid,
        )) * q.size@,
        apart(q.price@, mid) >= v ==> score == 0,
        representable(
            score_estimate(candidates, yes_book, no_book, v, config).own + score,
        ),
    ensures
        ({
            let before = score_estimate(candidates, yes_book, no_book, v, config);
            let after = score_estimate(candidates.push(q), yes_book, no_book, v, config);
            &&& after.own == if q.status == QuoteStatus::Approved {
                before.own + score
            } else {
                before.own
            }
            &&& q.status == QuoteStatus::Approved && q.price@ == mid ==> after.own == before.own
                + q.size@
            &&& after.others == before.others
            &&& after.extreme == before.extreme
        }),
        own_fits(candidates, yes_book.middle(), no_book.middle(), v) ==> own_fits(
            candidates.push(q),
            yes_book.middle(),
            no_book.middle(),
            v,
        ),
{
    lemma_representable_bound(mid - q.price@);
    lemma_representable_bound(q.price@ - mid);
    lemma_representable_bound(score_estimate(candidates, yes_book, no_book, v, config).own + score);
    let s = apart(q.price@, mid);
    let book = if q.leg == QuoteLeg::YesBid || q.leg == QuoteLeg::YesAsk {
        yes_book
    } else {
        no_book
    };
    lemma_mid(book, mid);
    assert(candidates.push(q).drop_last() =~= candidates);
    if s < v {
        law_score_is_the_square_of_the_room(v, s, q.size@);
        let found = order_score(v, s, q.size@);
        assert(found == score) by (nonlinear_arith)
            requires
                found * v * v == score * v * v,
                v > 0,
        ;
    }
}

/// Without quotes there is no score of our own, and none without a mid.
pub proof fn law_no_quotes_no_score(
    candidates: Seq<QuoteCandidate>,
    yes_book: OrderBookSnapshot,
    no_book: OrderBookSnapshot,
    v: int,
    config: ScoreProxyConfig,
)
    requires
        candidates.len() == 0 || v <= 0 || ((yes_book.bids@.len() == 0 || yes_book.asks@.len() == 0)
            && (no_book.bids@.len() == 0 || no_book.asks@.len() == 0)),
    ensures
        score_estimate(candidates, yes_book, no_book, v, config).own == 0,
        v <= 0 || ((yes_book.bids@.len() == 0 || yes_book.asks@.len() == 0) && (
        no_book.bids@.len() == 0 || no_book.asks@.len() == 0)) ==> {
            let e = score_estimate(candidates, yes_book, no_book, v, config);
            e.share == config.min_score_share@ && e.others == 0 && !e.extreme
        },
{
}

/// A quote whose own book has no mid does not score.
pub proof fn law_quotes_without_a_mid_do_not_score(
    candidates: Seq<QuoteCandidate>,
    q: QuoteCandidate,
    yes_book: OrderBookSnapshot,
    no_book: OrderBookSnapshot,
    v: int,
    config: ScoreProxyConfig,
)
    requires
        ({
            let book = if q.leg == QuoteLeg::YesBid || q.leg == QuoteLeg::YesAsk {
                yes_book
            } else {
                no_book
            };
            book.bids@.len() == 0 || book.asks@.len() == 0
        }),
    ensures
        score_estimate(candidates.push(q), yes_book, no_book, v, config) == score_estimate(
            candidates,
            yes_book,
            no_book,
            v,
            config,
        ),
{
    assert(candidates.push(q).drop_last() =~= candidates);
}

/// The exact score of an order, where it is whole in units: nothing from the largest spread on.
pub open spec fn exact_score(v: int, s: int, size: int) -> int {
    if s >= v {
        0
    } else {
        ((v - s) * (v - s) * size) / (v * v)
    }
}

/// The exact scores of the levels, added up.
pub open spec fn exact_side(levels: Seq<PriceLevel>, mid: int, v: int) -> int
    decreases levels.len(),
{
    if levels.len() == 0 {
        0
    } else {
        exact_side(levels.drop_last(), mid, v) + exact_score(
            v,
            apart(levels.last().price@, mid),
            levels.last().size@,
        )
    }
}

/// The scores of the levels need no rounding, and neither does their sum on the way.
pub open spec fn side_is_exact(levels: Seq<PriceLevel>, mid: int, v: int) -> bool
    decreases levels.len(),
{
    levels.len() == 0 || {
        let level = levels.last();
        let s = apart(level.price@, mid);
        &&& side_is_exact(levels.drop_last(), mid, v)
        &&& representable(level.price@ - mid) && representable(mid - level.price@)
        &&& s < v ==> scored_exactly(v, s, level.size@)
        &&& representable(exact_side(levels, mid, v))
    }
}

proof fn lemma_exact_score(v: int, s: int, size: int)
    requires
        v > 0,
        s < v ==> scored_exactly(v, s, size),
    ensures
        order_score(v, s, size) == exact_score(v, s, size),
{
    if s < v {
        law_score_is_the_square_of_the_room(v, s, size);
        let found = order_score(v, s, size);
        assert(v * v > 0) by (nonlinear_arith)
            requires
                v > 0,
        ;
        assert(found * v * v == found * (v * v)) by (nonlinear_arith);
        assert((found * (v * v)) / (v * v) == found) by (nonlinear_arith)
            requires
                v * v > 0,
        ;
    }
}

proof fn lemma_exact_side(levels: Seq<PriceLevel>, mid: int, v: int, is_bid_side: bool)
    requires
        v > 0,
        side_is_exact(levels, mid, v),
    ensures
        side_score(levels, mid, v, is_bid_side) == exact_side(levels, mid, v),
        representable(exact_side(levels, mid, v)),
    decreases levels.len(),
{
    lemma_whole(0);
    if levels.len() > 0 {
        lemma_exact_side(levels.drop_last(), mid, v, is_bid_side);
        lemma_exact_score(v, apart(levels.last().price@, mid), levels.last().size@);
    }
}

/// The exact score of both sides of a book around its mid.
pub open spec fn exact_book(book: OrderBookSnapshot, mid: int, v: int) -> int {
    exact_side(book.bids@, mid, v) + exact_side(book.asks@, mid, v)
}

/// Where no rounding is needed, the competition is the score of every level on both sides of both
/// books, each around the mid of its own book, times the multiplier.
#[verifier::spinoff_prover]
#[verifier::rlimit(60)]
pub proof fn law_competition_counts_every_level(
    candidates: Seq<QuoteCandidate>,
    yes_book: OrderBookSnapshot,
    no_book: OrderBookSnapshot,
    v: int,
    config: ScoreProxyConfig,
    yes_mid: int,
    no_mid: int,
    total: int,
)
    requires
        v > 0,
        has_mid(yes_book, yes_mid),
        has_mid(no_book, no_mid),
        side_is_exact(yes_book.bids@, yes_mid, v) && side_is_exact(yes_book.asks@, yes_mid, v),
        side_is_exact(no_book.bids@, no_mid, v) && side_is_exact(no_book.asks@, no_mid, v),
        representable(exact_book(yes_book, yes_mid, v)),
        representable(exact_book(yes_book, yes_mid, v) + exact_side(no_book.bids@, no_mid, v)),
        representable(exact_book(yes_book, yes_mid, v) + exact_book(no_book, no_mid, v)),
        total * unit() == (exact_book(yes_book, yes_mid, v) + exact_book(no_book, no_mid, v))
            * config.competition_multiplier@,
        representable(total),
    ensures
        score_estimate(candidates, yes_book, no_book, v, config).others == total,
{
    lemma_mid(yes_book, yes_mid);
    lemma_mid(no_book, no_mid);
    lemma_exact_side(yes_book.bids@, yes_mid, v, true);
    lemma_exact_side(yes_book.asks@, yes_mid, v, false);
    lemma_exact_side(no_book.bids@, no_mid, v, true);
    lemma_exact_side(no_book.asks@, no_mid, v, false);
    let a = exact_book(yes_book, yes_mid, v);
    let b = exact_book(no_book, no_mid, v);
    assert(book_score(0, yes_book, v) == a);
    assert(visible_score(yes_book, no_book, v) == a + b);
    lemma_exact_product(a + b, config.competition_multiplier@, total);
}

/// The same where only one of the books has a mid: only its levels count.
pub proof fn law_competition_of_one_book(
    candidates: Seq<QuoteCandidate>,
    yes_book: OrderBookSnapshot,
    no_book: OrderBookSnapshot,
    v: int,
    config: ScoreProxyConfig,
    on_yes: bool,
    mid: int,
    total: int,
)
    requires
        v > 0,
        ({
            let (book, other) = if on_yes {
                (yes_book, no_book)
            } else {
                (no_book, yes_book)
            };
            &&& has_mid(book, mid)
            &&& other.bids@.len() == 0 || other.asks@.len() == 0
            &&& side_is_exact(book.bids@, mid, v) && side_is_exact(book.asks@, mid, v)
            &&& representable(exact_book(book, mid, v))
            &&& total * unit() == exact_book(book, mid, v) * config.competition_multiplier@
            &&& representable(total)
        }),
    ensures
        score_estimate(candidates, yes_book, no_book, v, config).others == total,
{
    let book = if on_yes {
        yes_book
    } else {
        no_book
    };
    lemma_mid(book, mid);
    lemma_exact_side(book.bids@, mid, v, true);
    lemma_exact_side(book.asks@, mid, v, false);
    assert(visible_score(yes_book, no_book, v) == exact_book(book, mid, v));
    lemma_exact_product(exact_book(book, mid, v), config.competition_multiplier@, total);
}

/// Our share is our score divided by all of it, kept between the bounds; the least share where
/// nobody scores. A market is extreme where the mid of the YES book is below a tenth or above nine.
pub proof fn law_share_is_our_part_of_all_scores(
    candidates: Seq<QuoteCandidate>,
    yes_book: OrderBookSnapshot,
    no_book: OrderBookSnapshot,
    v: int,
    config: ScoreProxyConfig,
    mid: int,
    share: int,
)
    requires
        v > 0,
        has_mid(yes_book, mid),
        config.min_score_share@ <= config.max_score_share@,
        ({
            let e = score_estimate(candidates, yes_book, no_book, v, config);
            &&& representable(e.own + e.others)
            &&& e.own + e.others > 0 ==> share * (e.own + e.others) == e.own * unit()
                && representable(share)
        }),
    ensures
        ({
            let e = score_estimate(candidates, yes_book, no_book, v, config);
            let least = config.min_score_share@;
            let most = config.max_score_share@;
            &&& e.own + e.others <= 0 ==> e.share == least
            &&& e.own + e.others > 0 && least <= share <= most ==> e.share == share
            &&& e.own + e.others > 0 && share < least ==> e.share == least
            &&& e.own + e.others > 0 && share > most ==> e.share == most
            &&& e.extreme == (10 * mid < unit() || 10 * mid > 9 * unit())
        }),
{
    lemma_mid(yes_book, mid);
    let e = score_estimate(candidates, yes_book, no_book, v, config);
    if e.own + e.others > 0 {
        lemma_exact_quotient(e.own, e.own + e.others, share);
    }
}

/// The half spreads of both books, averaged: a quarter of what the two spreads add up to.
pub open spec fn average_half_spread(
    yes_book: OrderBookSnapshot,
    no_book: OrderBookSnapshot,
    spread: int,
) -> bool {
    &&& yes_book.bids@.len() > 0 && yes_book.asks@.len() > 0
    &&& no_book.bids@.len() > 0 && no_book.asks@.len() > 0
    &&& 4 * spread == (yes_book.asks@[0].price@ - yes_book.bids@[0].price@) + (
    no_book.asks@[0].price@ - no_book.bids@[0].price@)
}

/// Where no rounding is needed on the way, two legs of the unrounded size, at the average half
/// spread, score what gives the target share against the competition:
/// `2 * size * score * (1 - target) == target * competition`. The dynamic size is the whole number
/// next to that size, unless that leaves the bounds.
#[verifier::spinoff_prover]
#[verifier::rlimit(60)]
pub proof fn law_dynamic_size_reaches_the_target(
    yes_book: OrderBookSnapshot,
    no_book: OrderBookSnapshot,
    v: int,
    config: ScoreProxyConfig,
    min_size: int,
    max_size: int,
    spread: int,
    yes_half: int,
    no_half: int,
    ratio: int,
    needed: int,
    size: int,
)
    requires
        v > 0,
        average_half_spread(yes_book, no_book, spread),
        2 * yes_half == yes_book.asks@[0].price@ - yes_book.bids@[0].price@,
        2 * no_half == no_book.asks@[0].price@ - no_book.bids@[0].price@,
        representable(2 * yes_half) && representable(2 * no_half) && representable(yes_half)
            && representable(no_half) && representable(yes_half + no_half) && representable(spread),
        min_size <= max_size,
        0 < config.target_score_share@ < unit(),
        representable(unit() - config.target_score_share@),
        ({
            let others = score_estimate(Seq::empty(), yes_book, no_book, v, config).others;
            let per_share = order_score(v, spread, unit());
            let target = config.target_score_share@;
            &&& others > 0
            &&& per_share > 0
            &&& ratio * (unit() - target) == target * unit() && representable(ratio)
            &&& needed * unit() == ratio * others && representable(needed)
            &&& representable(2 * per_share)
            &&& size * (2 * per_share) == needed * unit() && representable(size)
        }),
    ensures
        ({
            let others = score_estimate(Seq::empty(), yes_book, no_book, v, config).others;
            let per_share = order_score(v, spread, unit());
            let target = config.target_score_share@;
            let r = dynamic_size(yes_book, no_book, v, config, min_size, max_size);
            &&& (2 * size * per_share) * (unit() - target) == target * others * unit()
            &&& size <= min_size ==> r <= min_size + unit() && r >= min_size
            &&& size >= max_size ==> r >= max_size - unit() && r <= max_size
            &&& min_size + unit() <= size <= max_size - unit() ==> r % unit() == 0 && -unit() <= 2
                * (r - size) <= unit()
        }),
{
    let target = config.target_score_share@;
    let others = competition(yes_book, no_book, v, config.competition_multiplier@);
    let per_share = order_score(v, spread, unit());
    assert(score_estimate(Seq::empty(), yes_book, no_book, v, config).others == others);
    lemma_average(yes_book, no_book, spread, yes_half, no_half);
    lemma_size_needed(target, others, per_share, ratio, needed, size);
    assert(yes_book.middle() is Some);
    lemma_rounded_between(size, min_size, max_size);
}

proof fn lemma_average(
    yes_book: OrderBookSnapshot,
    no_book: OrderBookSnapshot,
    spread: int,
    yes_half: int,
    no_half: int,
)
    requires
        average_half_spread(yes_book, no_book, spread),
        2 * yes_half == yes_book.asks@[0].price@ - yes_book.bids@[0].price@,
        2 * no_half == no_book.asks@[0].price@ - no_book.bids@[0].price@,
        representable(2 * yes_half) && representable(2 * no_half) && representable(yes_half)
            && representable(no_half) && representable(yes_half + no_half) && representable(spread),
    ensures
        average_spread(yes_book, no_book) == Some(spread),
{
    lemma_half(2 * yes_half, yes_half);
    lemma_half(2 * no_half, no_half);
    lemma_half(yes_half + no_half, spread);
}

/// The size at which two legs of so much a share score what is needed.
proof fn lemma_size_needed(
    target: int,
    others: int,
    per_share: int,
    ratio: int,
    needed: int,
    size: int,
)
    requires
        0 < target < unit(),
        representable(unit() - target),
        per_share > 0,
        ratio * (unit() - target) == target * unit() && representable(ratio),
        needed * unit() == ratio * others && representable(needed),
        representable(2 * per_share),
        size * (2 * per_share) == needed * unit() && representable(size),
    ensures
        quotient(needed_score(target, others), product(2 * unit(), per_share)) == size,
        (2 * size * per_share) * (unit() - target) == target * others * unit(),
{
    let u = unit();
    let rest = u - target;
    lemma_exact_quotient(target, rest, ratio);
    lemma_exact_product(ratio, others, needed);
    assert((2 * u) * per_share == (2 * per_share) * u) by (nonlinear_arith);
    lemma_exact_product(2 * u, per_share, 2 * per_share);
    lemma_exact_quotient(needed, 2 * per_share, size);
    assert(2 * size * per_share == needed * u) by (nonlinear_arith)
        requires
            size * (2 * per_share) == needed * u,
    ;
    assert((ratio * others) * rest == (ratio * rest) * others) by (nonlinear_arith);
    assert((target * u) * others == target * others * u) by (nonlinear_arith);
}

/// A size cut to its bounds, rounded to the even whole, and cut again.
proof fn lemma_rounded_between(size: int, least: int, most: int)
    requires
        least <= most,
    ensures
        ({
            let r = clamped(rounded_even(clamped(size, least, most)), least, most);
            &&& least <= r <= most
            &&& size <= least ==> r <= least + unit()
            &&& size >= most ==> r >= most - unit()
            &&& least + unit() <= size <= most - unit() ==> r % unit() == 0 && -unit() <= 2 * (r
                - size) <= unit()
        }),
{
}

proof fn lemma_half(whole: int, half: int)
    requires
        whole == 2 * half,
        representable(half),
    ensures
        crate::decimal::quotient(whole, 2 * unit()) == half,
{
    assert(whole * unit() == half * (2 * unit())) by (nonlinear_arith)
        requires
            whole == 2 * half,
    ;
    lemma_exact_quotient(whole, 2 * unit(), half);
}

/// Where nothing can be reckoned the dynamic size is the smaller bound: without a largest spread, a
/// mid, competition or a target between zero and one.
pub proof fn law_dynamic_size_falls_back(
    yes_book: OrderBookSnapshot,
    no_book: OrderBookSnapshot,
    v: int,
    config: ScoreProxyConfig,
    min_size: int,
    max_size: int,
)
    requires
        min_size <= max_size,
        v <= 0 || ((yes_book.bids@.len() == 0 || yes_book.asks@.len() == 0) && (
        no_book.bids@.len() == 0 || no_book.asks@.len() == 0)) || config.target_score_share@ <= 0
            || config.target_score_share@ >= unit() || score_estimate(
            Seq::empty(),
            yes_book,
            no_book,
            v,
            config,
        ).others <= 0,
    ensures
        dynamic_size(yes_book, no_book, v, config, min_size, max_size) == min_size,
{
}

} // verus!
