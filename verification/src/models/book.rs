//! Reading an order book.

use crate::decimal::{
    cent, difference, difference_fits, lemma_whole_cents, mantissa_bound, min_of, product,
    product_fits, quotient, quotient_fits, representable, sum, sum_fits, unit, value_of, Decimal,
};
use crate::models::{OrderBookSnapshot, PriceLevel};
use vstd::prelude::*;

pub mod laws;

verus! {

pub open spec fn price_of(level: Option<PriceLevel>) -> Option<int> {
    match level {
        Some(level) => Some(level.price@),
        None => None,
    }
}

/// The price of the first level.
pub open spec fn first_price(levels: Seq<PriceLevel>) -> Option<int> {
    if levels.len() == 0 {
        None
    } else {
        Some(levels[0].price@)
    }
}

/// Half-way between bid and ask.
pub open spec fn middle(bid: int, ask: int) -> int {
    quotient(sum(bid, ask), 2 * unit())
}

/// Half-way between the best bid and the best ask, where there are both.
pub open spec fn mid_of(bid: Option<int>, ask: Option<int>) -> Option<int> {
    match (bid, ask) {
        (Some(b), Some(a)) => Some(middle(b, a)),
        _ => None,
    }
}

/// The mid of the best prices is not too large for a decimal.
pub open spec fn mid_fits(bid: Option<int>, ask: Option<int>) -> bool {
    match (bid, ask) {
        (Some(b), Some(a)) => sum_fits(b, a),
        _ => true,
    }
}

/// Half-way between two prices, unless they are too large.
pub fn mid_price(bid: Decimal, ask: Decimal) -> (r: Option<Decimal>)
    ensures
        r is Some == sum_fits(bid@, ask@),
        r matches Some(m) ==> m@ == middle(bid@, ask@),
{
    let both = bid.checked_plus(ask)?;
    Some(both.over_whole(Decimal::from_u64(2)))
}

/// What a walk through the levels of a book has gathered.
pub struct WalkState {
    pub filled: int,
    pub cost: int,
    pub remaining: int,
}

/// After one more level: as much of it is taken as is still wanted.
pub open spec fn walk_step(st: WalkState, level: PriceLevel) -> WalkState {
    if st.remaining <= 0 {
        st
    } else {
        let take = min_of(st.remaining, level.size@);
        WalkState {
            filled: sum(st.filled, take),
            cost: sum(st.cost, product(take, level.price@)),
            remaining: difference(st.remaining, take),
        }
    }
}

/// After all the levels, from the first on.
pub open spec fn walked(levels: Seq<PriceLevel>, size: int) -> WalkState
    decreases levels.len(),
{
    if levels.len() == 0 {
        WalkState { filled: 0, cost: 0, remaining: size }
    } else {
        walk_step(walked(levels.drop_last(), size), levels.last())
    }
}

/// Nothing on a walk through the levels is too large for a decimal.
pub open spec fn walk_fits(levels: Seq<PriceLevel>, size: int) -> bool
    decreases levels.len(),
{
    levels.len() == 0 || {
        let st = walked(levels.drop_last(), size);
        let level = levels.last();
        let take = min_of(st.remaining, level.size@);
        &&& walk_fits(levels.drop_last(), size)
        &&& st.remaining > 0 ==> {
            &&& product_fits(take, level.price@)
            &&& sum_fits(st.filled, take)
            &&& sum_fits(st.cost, product(take, level.price@))
            &&& difference_fits(st.remaining, take)
        }
    }
}

/// A walk that fits also fits as far as it has come.
proof fn lemma_walk_fits_so_far(levels: Seq<PriceLevel>, size: int, i: int)
    requires
        0 <= i <= levels.len(),
        walk_fits(levels, size),
    ensures
        walk_fits(levels.take(i), size),
    decreases levels.len(),
{
    if i < levels.len() {
        lemma_walk_fits_so_far(levels.drop_last(), size, i);
        assert(levels.drop_last().take(i) =~= levels.take(i));
    } else {
        assert(levels.take(i) =~= levels);
    }
}

/// The average price paid is not too large for a decimal.
pub open spec fn average_fits(st: WalkState) -> bool {
    st.filled > 0 ==> quotient_fits(st.cost, st.filled)
}

/// What a walk through a book gives.
#[derive(Clone, Copy, Debug)]
pub struct WalkResult {
    pub filled_size: Decimal,
    pub weighted_avg_price: Decimal,
    pub total_cost: Decimal,
    pub fully_filled: bool,
}

/// The average price of what was taken.
pub open spec fn average_price(st: WalkState) -> int {
    if st.filled > 0 {
        quotient(st.cost, st.filled)
    } else {
        0
    }
}

/// What a walk has gathered so far.
#[derive(Clone, Copy, Debug)]
pub struct Walk {
    pub filled: Decimal,
    pub cost: Decimal,
    pub remaining: Decimal,
}

impl View for Walk {
    type V = WalkState;

    open spec fn view(&self) -> WalkState {
        WalkState { filled: self.filled@, cost: self.cost@, remaining: self.remaining@ }
    }
}

impl Walk {
    /// Takes `size` from the levels, from the first on, unless numbers become too large.
    pub fn through(levels: &Vec<PriceLevel>, size: Decimal) -> (r: Option<Walk>)
        ensures
            r is Some == walk_fits(levels@, size@),
            r matches Some(walk) ==> walk@ == walked(levels@, size@),
    {
        let mut walk = Walk { filled: Decimal::zero(), cost: Decimal::zero(), remaining: size };
        let mut i: usize = 0;
        assert(levels@.take(0).len() == 0);
        while i < levels.len()
            invariant
                i <= levels.len(),
                walk@ == walked(levels@.take(i as int), size@),
                walk_fits(levels@.take(i as int), size@),
            decreases levels.len() - i,
        {
            proof {
                assert(levels@.take(i + 1).drop_last() =~= levels@.take(i as int));
                assert(levels@.take(i + 1).last() == levels@[i as int]);
                if walk_fits(levels@, size@) {
                    lemma_walk_fits_so_far(levels@, size@, i + 1);
                }
            }
            if walk.remaining > Decimal::zero() {
                let level = levels[i];
                let take = walk.remaining.min(level.size);
                let paid = take.checked_times(level.price)?;
                walk = Walk {
                    filled: walk.filled.checked_plus(take)?,
                    cost: walk.cost.checked_plus(paid)?,
                    remaining: walk.remaining.checked_minus(take)?,
                };
            }
            i = i + 1;
        }
        assert(levels@.take(i as int) =~= levels@);
        Some(walk)
    }

    /// What the walk gives, unless the average price is too large.
    pub fn result(&self) -> (r: Option<WalkResult>)
        ensures
            r is Some == average_fits(self@),
            r matches Some(result) ==> {
                &&& result.filled_size == self.filled
                &&& result.total_cost == self.cost
                &&& result.weighted_avg_price@ == average_price(self@)
                &&& result.fully_filled == (self.remaining@ <= 0)
            },
    {
        let weighted_avg_price = if self.filled > Decimal::zero() {
            self.cost.checked_over(self.filled)?
        } else {
            Decimal::zero()
        };
        Some(
            WalkResult {
                filled_size: self.filled,
                weighted_avg_price,
                total_cost: self.cost,
                fully_filled: self.remaining <= Decimal::zero(),
            },
        )
    }
}

impl OrderBookSnapshot {
    /// The best bid: bids are listed from the highest down.
    pub fn best_bid(&self) -> (r: Option<PriceLevel>)
        ensures
            price_of(r) == first_price(self.bids@),
            r matches Some(level) ==> level == self.bids@[0],
    {
        if self.bids.len() == 0 {
            None
        } else {
            Some(self.bids[0])
        }
    }

    /// The best ask: asks are listed from the lowest up.
    pub fn best_ask(&self) -> (r: Option<PriceLevel>)
        ensures
            price_of(r) == first_price(self.asks@),
            r matches Some(level) ==> level == self.asks@[0],
    {
        if self.asks.len() == 0 {
            None
        } else {
            Some(self.asks[0])
        }
    }

    pub open spec fn middle(self) -> Option<int> {
        mid_of(first_price(self.bids@), first_price(self.asks@))
    }

    /// The mid is not too large for a decimal.
    pub open spec fn middle_fits(self) -> bool {
        mid_fits(first_price(self.bids@), first_price(self.asks@))
    }

    /// Half-way between the best bid and the best ask.
    pub fn mid(&self) -> (r: Option<Decimal>)
        requires
            self.middle_fits(),
        ensures
            value_of(r) == self.middle(),
    {
        match (self.best_bid(), self.best_ask()) {
            (Some(bid), Some(ask)) => mid_price(bid.price, ask.price),
            _ => None,
        }
    }

    /// The mid, if there is one, unless it is too large.
    pub fn try_mid(&self) -> (r: Option<Option<Decimal>>)
        ensures
            r is Some == self.middle_fits(),
            r matches Some(m) ==> value_of(m) == self.middle(),
    {
        if let (Some(bid), Some(ask)) = (self.best_bid(), self.best_ask()) {
            if mid_price(bid.price, ask.price).is_none() {
                return None;
            }
        }
        Some(self.mid())
    }
}

/// A walk never takes more than is wanted, and what it took and what is missing make up the whole,
/// where sizes are whole cents.
pub proof fn law_walk_conserves_shares(levels: Seq<PriceLevel>, size: int)
    requires
        0 <= size < mantissa_bound() * cent(),
        size % cent() == 0,
        forall|i: int|
            0 <= i < levels.len() ==> (#[trigger] levels[i]).size@ >= 0 && levels[i].size@
                % cent() == 0,
    ensures
        walked(levels, size).filled + walked(levels, size).remaining == size,
        0 <= walked(levels, size).filled <= size,
        walked(levels, size).filled % cent() == 0,
    decreases levels.len(),
{
    use_cents(size);
    if levels.len() > 0 {
        let rest = levels.drop_last();
        assert forall|i: int| 0 <= i < rest.len() implies (#[trigger] rest[i]).size@ >= 0
            && rest[i].size@ % cent() == 0 by {
            assert(rest[i] == levels[i]);
        }
        law_walk_conserves_shares(rest, size);
        let st = walked(rest, size);
        let last = levels[levels.len() - 1];
        assert(last == levels.last());
        if st.remaining > 0 {
            let take = min_of(st.remaining, last.size@);
            let c = cent();
            lemma_cents_apart(size, st.filled);
            assert(take % c == 0);
            lemma_cents_apart(st.remaining, take);
            lemma_cents_together(st.filled, take);
            use_cents(st.filled + take);
            use_cents(st.remaining - take);
        }
    }
}

proof fn lemma_cents_together(a: int, b: int)
    requires
        a % cent() == 0,
        b % cent() == 0,
    ensures
        (a + b) % cent() == 0,
{
}

proof fn lemma_cents_apart(a: int, b: int)
    requires
        a % cent() == 0,
        b % cent() == 0,
    ensures
        (a - b) % cent() == 0,
{
}

proof fn use_cents(v: int)
    requires
        v % cent() == 0,
        0 <= v < mantissa_bound() * cent(),
    ensures
        representable(v),
{
    let c = cent();
    let n = v / c;
    assert(v == n * c) by (nonlinear_arith)
        requires
            c > 0,
            v % c == 0,
            n == v / c,
    ;
    lemma_whole_cents(n);
}

} // verus!
