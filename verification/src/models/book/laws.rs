//! What a walk through a book takes and pays.

use crate::decimal::{
    lemma_cents_add_up, lemma_exact_product, lemma_exact_quotient, lemma_grid_point,
    mantissa_bound, pow10, representable, unit,
};
use crate::models::book::{average_price, walk_fits, walked};
use crate::models::{OrderBookSnapshot, PriceLevel};
use vstd::prelude::*;

verus! {

/// The shares on the levels, added up.
pub open spec fn depth(levels: Seq<PriceLevel>) -> int
    decreases levels.len(),
{
    if levels.len() == 0 {
        0
    } else {
        depth(levels.drop_last()) + levels.last().size@
    }
}

/// The shares taken from a level once those before it hold `before`.
pub open spec fn taken(size: int, before: int, on_level: int) -> int {
    if size <= before {
        0
    } else if size - before <= on_level {
        size - before
    } else {
        on_level
    }
}

/// Shares times price of all that is taken, in square units.
pub open spec fn paid(levels: Seq<PriceLevel>, size: int) -> int
    decreases levels.len(),
{
    if levels.len() == 0 {
        0
    } else {
        paid(levels.drop_last(), size) + taken(
            size,
            depth(levels.drop_last()),
            levels.last().size@,
        ) * levels.last().price@
    }
}

/// Sizes of whole hundredths, and prices of up to four places.
pub open spec fn quoted_levels(levels: Seq<PriceLevel>) -> bool {
    forall|i: int|
        0 <= i < levels.len() ==> {
            &&& (#[trigger] levels[i]).size@ >= 0
            &&& levels[i].size@ % 100_000_000_000_000_000_000_000_000 == 0
            &&& levels[i].price@ >= 0
            &&& levels[i].price@ % 1_000_000_000_000_000_000_000_000 == 0
        }
}

/// A multiple of a cent times a multiple of a hundredth of a cent, in units.
proof fn lemma_level_cost(take: int, price: int)
    requires
        take >= 0 && price >= 0,
        take % 100_000_000_000_000_000_000_000_000 == 0,
        price % 1_000_000_000_000_000_000_000_000 == 0,
        take * price < mantissa_bound() * 10_000_000_000_000_000_000_000 * unit(),
    ensures
        take * price >= 0,
        crate::decimal::product(take, price) * unit() == take * price,
        crate::decimal::product(take, price) % 10_000_000_000_000_000_000_000 == 0,
{
    let c = 100_000_000_000_000_000_000_000_000int;
    let g = 1_000_000_000_000_000_000_000_000int;
    let h = 10_000_000_000_000_000_000_000int;
    let x = take / c;
    let y = price / g;
    let n = x * y;
    assert(take == x * c && price == y * g);
    assert(take * price == n * (c * g)) by (nonlinear_arith)
        requires
            take == x * c,
            price == y * g,
            n == x * y,
    ;
    assert(c * g == h * unit());
    assert(n * (c * g) == (n * h) * unit()) by (nonlinear_arith)
        requires
            c * g == h * unit(),
    ;
    assert(n >= 0) by (nonlinear_arith)
        requires
            x >= 0,
            y >= 0,
            n == x * y,
    ;
    assert(n < mantissa_bound()) by (nonlinear_arith)
        requires
            (n * h) * unit() < mantissa_bound() * h * unit(),
            h > 0,
            unit() > 0,
    ;
    lemma_pow10_22();
    lemma_grid_point(n, 22);
    lemma_exact_product(take, price, n * h);
    vstd::arithmetic::div_mod::lemma_mod_multiples_basic(n, h);
    assert(take * price >= 0) by (nonlinear_arith)
        requires
            take >= 0,
            price >= 0,
    ;
}

proof fn lemma_pow10_22()
    ensures
        pow10(22) == 10_000_000_000_000_000_000_000,
{
    reveal_with_fuel(pow10, 23);
}

/// Costs of whole hundredths of hundredths of cents add up exactly.
proof fn lemma_costs_add_up(a: int, b: int)
    requires
        a >= 0 && b >= 0,
        a % 10_000_000_000_000_000_000_000 == 0,
        b % 10_000_000_000_000_000_000_000 == 0,
        a + b < mantissa_bound() * 10_000_000_000_000_000_000_000,
    ensures
        crate::decimal::sum(a, b) == a + b,
        (a + b) % 10_000_000_000_000_000_000_000 == 0,
{
    let h = 10_000_000_000_000_000_000_000int;
    let x = a / h;
    let y = b / h;
    assert(a == x * h && b == y * h);
    assert(a + b == (x + y) * h) by (nonlinear_arith)
        requires
            a == x * h,
            b == y * h,
    ;
    vstd::arithmetic::div_mod::lemma_mod_multiples_basic(x + y, h);
    lemma_pow10_22();
    lemma_grid_point(x + y, 22);
}

/// A walk takes the wanted shares from the first levels on, or all that there are, and pays for each
/// the price of the level that it is on. Exactly so for sizes of whole hundredths and prices of up
/// to four places.
pub proof fn law_walk_pays_each_level_its_price(levels: Seq<PriceLevel>, size: int)
    requires
        quoted_levels(levels),
        0 <= size < mantissa_bound() * 100_000_000_000_000_000_000_000_000,
        size % 100_000_000_000_000_000_000_000_000 == 0,
        paid(levels, size) < mantissa_bound() * 10_000_000_000_000_000_000_000 * unit(),
    ensures
        walked(levels, size).filled == if depth(levels) < size {
            depth(levels)
        } else {
            size
        },
        walked(levels, size).remaining == if depth(levels) < size {
            size - depth(levels)
        } else {
            0
        },
        walked(levels, size).cost * unit() == paid(levels, size),
        walk_fits(levels, size),
{
    lemma_walked(levels, size);
}

proof fn lemma_walked(levels: Seq<PriceLevel>, size: int)
    requires
        quoted_levels(levels),
        0 <= size < mantissa_bound() * 100_000_000_000_000_000_000_000_000,
        size % 100_000_000_000_000_000_000_000_000 == 0,
        paid(levels, size) < mantissa_bound() * 10_000_000_000_000_000_000_000 * unit(),
    ensures
        depth(levels) >= 0,
        depth(levels) % 100_000_000_000_000_000_000_000_000 == 0,
        walked(levels, size).filled == if depth(levels) < size {
            depth(levels)
        } else {
            size
        },
        walked(levels, size).remaining == if depth(levels) < size {
            size - depth(levels)
        } else {
            0
        },
        walked(levels, size).cost * unit() == paid(levels, size),
        walk_fits(levels, size),
        walked(levels, size).cost >= 0,
        walked(levels, size).cost % 10_000_000_000_000_000_000_000 == 0,
    decreases levels.len(),
{
    if levels.len() > 0 {
        let rest = levels.drop_last();
        let last = levels[levels.len() - 1];
        assert(quoted_levels(rest)) by {
            assert forall|i: int| 0 <= i < rest.len() implies {
                &&& (#[trigger] rest[i]).size@ >= 0
                &&& rest[i].size@ % 100_000_000_000_000_000_000_000_000 == 0
                &&& rest[i].price@ >= 0
                &&& rest[i].price@ % 1_000_000_000_000_000_000_000_000 == 0
            } by {
                assert(rest[i] == levels[i]);
            }
        }
        assert(last.size@ >= 0 && last.price@ >= 0);
        let before = depth(rest);
        let take = taken(size, before, last.size@);
        lemma_taken_cost(rest, last, size);
        lemma_walked(rest, size);
        lemma_mod_difference(before, -last.size@);
        if before < size {
            lemma_mod_difference(size, before);
            lemma_level_cost(take, last.price@);
            lemma_mod_difference(size - before, take);
            lemma_cents_add_up(before, take);
            lemma_whole(size - before - take);
            let st = walked(rest, size);
            let more = crate::decimal::product(take, last.price@);
            assert((st.cost + more) * unit() == paid(levels, size));
            lemma_costs_add_up(st.cost, more);
        } else {
            assert(take == 0);
            assert(take * last.price@ == 0) by (nonlinear_arith)
                requires
                    take == 0,
            ;
        }
    }
}

proof fn lemma_taken_cost(rest: Seq<PriceLevel>, last: PriceLevel, size: int)
    requires
        quoted_levels(rest),
        last.size@ >= 0 && last.price@ >= 0,
    ensures
        taken(size, depth(rest), last.size@) * last.price@ >= 0,
        paid(rest, size) >= 0,
    decreases rest.len(),
{
    let take = taken(size, depth(rest), last.size@);
    assert(take * last.price@ >= 0) by (nonlinear_arith)
        requires
            take >= 0,
            last.price@ >= 0,
    ;
    if rest.len() > 0 {
        assert(quoted_levels(rest.drop_last())) by {
            assert forall|i: int| 0 <= i < rest.len() - 1 implies {
                &&& (#[trigger] rest.drop_last()[i]).size@ >= 0
                &&& rest.drop_last()[i].size@ % 100_000_000_000_000_000_000_000_000 == 0
                &&& rest.drop_last()[i].price@ >= 0
                &&& rest.drop_last()[i].price@ % 1_000_000_000_000_000_000_000_000 == 0
            } by {
                assert(rest.drop_last()[i] == rest[i]);
            }
        }
        assert(rest[rest.len() - 1].size@ >= 0);
        lemma_taken_cost(rest.drop_last(), rest.last(), size);
    }
}

proof fn lemma_mod_difference(a: int, b: int)
    requires
        a % 100_000_000_000_000_000_000_000_000 == 0,
        b % 100_000_000_000_000_000_000_000_000 == 0,
    ensures
        (a - b) % 100_000_000_000_000_000_000_000_000 == 0,
{
}

proof fn lemma_whole(v: int)
    requires
        0 <= v < mantissa_bound() * 100_000_000_000_000_000_000_000_000,
        v % 100_000_000_000_000_000_000_000_000 == 0,
    ensures
        representable(v),
{
    let n = v / 100_000_000_000_000_000_000_000_000;
    assert(v == n * crate::decimal::cent());
    crate::decimal::lemma_whole_cents(n);
}

/// What was paid is the average price for each share taken, where some decimal is that average.
pub proof fn law_average_price_spreads_the_cost(
    st: crate::models::book::WalkState,
    average: int,
)
    requires
        st.filled > 0,
        average * st.filled == st.cost * unit(),
        representable(average),
    ensures
        average_price(st) == average,
{
    lemma_exact_quotient(st.cost, st.filled, average);
}

/// The mid is as far above the best bid as it is below the best ask, and a book with an empty side
/// has none.
pub proof fn law_mid_is_half_way(book: OrderBookSnapshot, mid: int)
    requires
        book.bids@.len() > 0 && book.asks@.len() > 0 ==> {
            &&& mid - book.bids@[0].price@ == book.asks@[0].price@ - mid
            &&& representable(mid)
            &&& representable(book.bids@[0].price@ + book.asks@[0].price@)
        },
    ensures
        book.middle() == if book.bids@.len() > 0 && book.asks@.len() > 0 {
            Some(mid)
        } else {
            None
        },
{
    if book.bids@.len() > 0 && book.asks@.len() > 0 {
        let both = book.bids@[0].price@ + book.asks@[0].price@;
        assert(both * unit() == mid * (2 * unit())) by (nonlinear_arith)
            requires
                both == 2 * mid,
        ;
        lemma_exact_quotient(both, 2 * unit(), mid);
    }
}

} // verus!
