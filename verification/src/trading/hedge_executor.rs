//! Resolving the exposure that a fill leaves behind.

use crate::decimal::{
    cent, difference, difference_fits, floor_value, is_rounding, lemma_inv_representable,
    lemma_pow10_28, lemma_rounding_error, lemma_whole, lemma_whole_cents, mantissa_bound, max_of,
    max_value, min_of, on_grid, pow10, quotient, quotient_fits, representable, sum, sum_fits, unit,
    value_of, Decimal,
};
use crate::models::{
    LiveOrder, OrderAmountKind, OrderRequest, OrderResult, OrderStatus, OrderType, PriceLevel,
    QuoteLeg, Side,
};
use crate::trading::client::CancelOrderOutcome;
use crate::text::{clone_texts, join2, opt_text};
use vstd::pervasive::unreached;
use vstd::prelude::*;

pub mod cheapest;
pub mod offsets;

verus! {

/// A number of shares cut to two decimals, toward zero.
pub open spec fn whole_cents(v: int) -> int {
    if v >= 0 {
        (v / cent()) * cent()
    } else {
        -(((-v) / cent()) * cent())
    }
}

/// A hundred times a size is not too large for a decimal, so that it can be cut.
pub open spec fn cuttable(v: int) -> bool {
    -max_value() <= v * 100 <= max_value()
}

/// Truncate a share size to 2 decimal places (toward zero).
pub fn normalize_share_size(size: Decimal) -> (r: Decimal)
    requires
        cuttable(size@),
    ensures
        r@ == whole_cents(size@),
{
    let factor = Decimal::new(100, 0);
    proof {
        use_type_invariant(&size);
        lemma_inv_representable(size);
        lemma_pow10_28();
        lemma_scaled_by_hundred(size@);
        let v = size@;
        assert(factor@ == 100 * unit());
        assert(v * factor@ == (v * 100) * unit()) by (nonlinear_arith)
            requires
                factor@ == 100 * unit(),
        ;
        assert(((v * 100) * unit()) % unit() == 0 && ((v * 100) * unit()) / unit() == v * 100)
            by (nonlinear_arith);
        lemma_whole_cents_floor(v);
        lemma_whole_cents_floor(-v);
    }
    let scaled = size.times(factor);
    assert(scaled@ == size@ * 100);
    if size >= Decimal::zero() {
        let whole = scaled.floor();
        proof {
            lemma_hundredth(size@ / cent());
        }
        whole.over(factor)
    } else {
        let whole = scaled.ceil();
        proof {
            lemma_hundredth(-((-size@) / cent()));
        }
        whole.over(factor)
    }
}

/// A hundredfold of a decimal is a decimal as long as it stays in range.
proof fn lemma_scaled_by_hundred(v: int)
    requires
        representable(v),
        -max_value() <= v * 100 <= max_value(),
    ensures
        representable(v * 100),
{
    let k = choose|k: nat| k <= 28 && #[trigger] on_grid(v, k);
    crate::decimal::lemma_pow10_positive(k);
    let p = pow10(k);
    let q = v / p;
    assert(v == q * p) by (nonlinear_arith)
        requires
            p > 0,
            v % p == 0,
            q == v / p,
    ;
    assert(-mantissa_bound() < q < mantissa_bound()) by (nonlinear_arith)
        requires
            p > 0,
            v == q * p,
            -mantissa_bound() * p < v < mantissa_bound() * p,
    ;
    if k <= 26 {
        reveal_with_fuel(pow10, 3);
        assert(pow10((k + 2) as nat) == 100 * p);
        assert(v * 100 == q * (100 * p)) by (nonlinear_arith)
            requires
                v == q * p,
        ;
        crate::decimal::lemma_grid_point(q, (k + 2) as nat);
    } else {
        lemma_pow10_28();
        assert(pow10(28) == 10 * pow10(27));
        let m = if k == 27 {
            q * 10
        } else {
            q * 100
        };
        assert(v * 100 == m * unit()) by (nonlinear_arith)
            requires
                v == q * p,
                k == 27 ==> m == q * 10 && unit() == 10 * p,
                k != 27 ==> m == q * 100 && unit() == p,
        ;
        assert(-mantissa_bound() < m < mantissa_bound()) by (nonlinear_arith)
            requires
                v * 100 == m * unit(),
                -max_value() <= v * 100 <= max_value(),
        ;
        lemma_whole(m);
    }
}

proof fn lemma_whole_cents_floor(v: int)
    ensures
        floor_value(v * 100) == (v / cent()) * unit(),
{
    assert((v * 100) / unit() == v / cent());
}

/// Dividing a whole number by one hundred is exact.
proof fn lemma_hundredth(n: int)
    requires
        -mantissa_bound() < n < mantissa_bound(),
    ensures
        quotient(n * unit(), 100 * unit()) == n * cent(),
        -max_value() * (100 * unit()) <= (n * unit()) * unit() <= max_value() * (100 * unit()),
{
    lemma_whole_cents(n);
    let a = n * unit();
    assert((a * unit()) % (100 * unit()) == 0 && (a * unit()) / (100 * unit()) == n * cent())
        by (nonlinear_arith)
        requires
            a == n * unit(),
    ;
    assert(-max_value() * (100 * unit()) <= (n * unit()) * unit() <= max_value() * (100 * unit()))
        by (nonlinear_arith)
        requires
            -mantissa_bound() < n < mantissa_bound(),
    ;
}

/// Result of the book-aware cost-benefit analysis for resolving unhedged exposure.
///
/// Splits the total exposure into two buckets based on which is cheaper per share:
/// - Hedge: BUY opposite token (cost = fill_price + hedge_ask - 1.00)
/// - Sell back: SELL filled token (cost = fill_price - sellback_bid)
#[derive(Clone, Copy, Debug)]
pub struct HedgeResolution {
    /// Shares to resolve by buying the opposite token.
    pub hedge_shares: Decimal,
    /// Limit price for the hedge BUY order (worst ask consumed + 1 tick buffer).
    pub hedge_limit_price: Decimal,
    /// Shares to resolve by selling back the filled token.
    pub sellback_shares: Decimal,
    /// Limit price for the sell-back FOK order (worst bid consumed).
    pub sellback_limit_price: Decimal,
    /// Shares that could not be resolved from either book under the available budget.
    pub unresolved_shares: Decimal,
}

/// What the planner is given: the price of the fill, the asks to hedge into, the bids to sell
/// back into, the shares to resolve, the money that hedging may spend and the tick size.
pub struct PlanInput {
    pub fill: int,
    pub asks: Seq<PriceLevel>,
    pub bids: Seq<PriceLevel>,
    pub total: int,
    pub budget: int,
    pub tick: int,
}

/// How far the planner has come: the shares still to be resolved, those routed to either side,
/// the worst prices met, and in each book the level in use with what is left of it.
pub struct PlanState {
    pub remaining: int,
    pub hedged: int,
    pub sold: int,
    pub worst_ask: int,
    pub worst_bid: int,
    pub ask_at: int,
    pub ask_left: int,
    pub bid_at: int,
    pub bid_left: int,
}

/// Where the next shares go.
pub enum Route {
    Stop,
    Hedge(int),
    Sell(int),
}

/// The largest size and the largest price or budget that the planner works with.
pub open spec fn plan_limit() -> int {
    1_000_000_000_000_000_000 * unit()
}

/// The smallest positive limit price that the planner divides a budget by.
pub open spec fn smallest_limit() -> int {
    100_000_000_000_000_000_000
}

pub open spec fn limit_usable(worst: int, tick: int) -> bool {
    worst + tick > 0 ==> worst + tick >= smallest_limit()
}

/// Ordinary numbers: on them no intermediate value leaves the range of decimals.
pub open spec fn plannable(inp: PlanInput) -> bool {
    &&& -plan_limit() <= inp.fill <= plan_limit()
    &&& -plan_limit() <= inp.total <= plan_limit()
    &&& -plan_limit() <= inp.tick <= plan_limit()
    &&& inp.budget <= plan_limit() || inp.budget == max_value()
    &&& forall|i: int|
        0 <= i < inp.asks.len() ==> {
            &&& (#[trigger] inp.asks[i]).size@ >= 0
            &&& -plan_limit() <= inp.asks[i].price@ <= plan_limit()
            &&& limit_usable(max_of(0, inp.asks[i].price@), inp.tick)
        }
    &&& forall|i: int|
        0 <= i < inp.bids.len() ==> {
            &&& (#[trigger] inp.bids[i]).size@ >= 0
            &&& -plan_limit() <= inp.bids[i].price@ <= plan_limit()
        }
}

/// Shares that the next hedge may take: no more than remain, than the level holds, and than
/// whole shares are affordable at the limit price that the hedge would have.
pub open spec fn affordable_take(
    remaining: int,
    left: int,
    hedged: int,
    budget: int,
    worst: int,
    tick: int,
) -> int {
    let limit = sum(worst, tick);
    if budget == max_value() {
        min_of(remaining, left)
    } else if limit <= 0 || budget <= 0 {
        0
    } else {
        let most = whole_cents(floor_value(quotient(budget, limit)));
        min_of(min_of(remaining, left), whole_cents(max_of(difference(most, hedged), 0)))
    }
}

/// Nothing in the shares that the next hedge may take is too large for a decimal.
pub open spec fn take_fits(hedged: int, budget: int, worst: int, tick: int) -> bool {
    let limit = sum(worst, tick);
    let most = whole_cents(floor_value(quotient(budget, limit)));
    budget == max_value() || {
        &&& sum_fits(worst, tick)
        &&& limit <= 0 || budget <= 0 || {
            &&& quotient_fits(budget, limit)
            &&& cuttable(floor_value(quotient(budget, limit)))
            &&& difference_fits(most, hedged)
            &&& cuttable(max_of(difference(most, hedged), 0))
        }
    }
}

pub open spec fn first_left(levels: Seq<PriceLevel>) -> int {
    if levels.len() > 0 {
        levels[0].size@
    } else {
        0
    }
}

pub open spec fn plan_start(inp: PlanInput) -> PlanState {
    PlanState {
        remaining: whole_cents(inp.total),
        hedged: 0,
        sold: 0,
        worst_ask: 0,
        worst_bid: 0,
        ask_at: 0,
        ask_left: first_left(inp.asks),
        bid_at: 0,
        bid_left: first_left(inp.bids),
    }
}

/// Hedging is tried first: there is an ask, and no bid that costs as little.
pub open spec fn hedge_preferred(inp: PlanInput, st: PlanState) -> bool {
    &&& st.ask_at < inp.asks.len()
    &&& st.bid_at < inp.bids.len() ==> difference(
        sum(inp.fill, inp.asks[st.ask_at].price@),
        unit(),
    ) < difference(inp.fill, inp.bids[st.bid_at].price@)
}

pub open spec fn hedge_take(inp: PlanInput, st: PlanState) -> int {
    affordable_take(
        st.remaining,
        st.ask_left,
        st.hedged,
        max_of(inp.budget, 0),
        max_of(st.worst_ask, inp.asks[st.ask_at].price@),
        inp.tick,
    )
}

pub open spec fn route(inp: PlanInput, st: PlanState) -> Route {
    if st.remaining <= 0 {
        Route::Stop
    } else if hedge_preferred(inp, st) && hedge_take(inp, st) > 0 {
        Route::Hedge(hedge_take(inp, st))
    } else if st.bid_at < inp.bids.len() && (hedge_preferred(inp, st) ==> min_of(
        st.remaining,
        st.bid_left,
    ) > 0) {
        Route::Sell(min_of(st.remaining, st.bid_left))
    } else {
        Route::Stop
    }
}

/// The level in use and what is left of it, once `left` remains at level `at`.
pub open spec fn advanced(at: int, left: int, levels: Seq<PriceLevel>) -> (int, int) {
    if left <= 0 {
        (
            at + 1,
            if at + 1 < levels.len() {
                levels[at + 1].size@
            } else {
                left
            },
        )
    } else {
        (at, left)
    }
}

pub open spec fn plan_step(inp: PlanInput, st: PlanState) -> PlanState {
    match route(inp, st) {
        Route::Stop => st,
        Route::Hedge(take) => {
            let next = advanced(st.ask_at, difference(st.ask_left, take), inp.asks);
            PlanState {
                remaining: difference(st.remaining, take),
                hedged: sum(st.hedged, take),
                worst_ask: max_of(st.worst_ask, inp.asks[st.ask_at].price@),
                ask_at: next.0,
                ask_left: next.1,
                ..st
            }
        },
        Route::Sell(take) => {
            let next = advanced(st.bid_at, difference(st.bid_left, take), inp.bids);
            PlanState {
                remaining: difference(st.remaining, take),
                sold: sum(st.sold, take),
                worst_bid: inp.bids[st.bid_at].price@,
                bid_at: next.0,
                bid_left: next.1,
                ..st
            }
        },
    }
}

/// The state after `n` steps. A state that stops is kept.
pub open spec fn plan_after(inp: PlanInput, n: nat) -> PlanState
    decreases n,
{
    if n == 0 {
        plan_start(inp)
    } else {
        plan_step(inp, plan_after(inp, (n - 1) as nat))
    }
}

/// Nothing that is compared before a step is too large for a decimal.
pub open spec fn choice_fits(inp: PlanInput, st: PlanState) -> bool {
    &&& st.ask_at < inp.asks.len() && st.bid_at < inp.bids.len() ==> {
        let ask = inp.asks[st.ask_at].price@;
        &&& sum_fits(inp.fill, ask)
        &&& difference_fits(sum(inp.fill, ask), unit())
        &&& difference_fits(inp.fill, inp.bids[st.bid_at].price@)
    }
    &&& hedge_preferred(inp, st) ==> take_fits(
        st.hedged,
        max_of(inp.budget, 0),
        max_of(st.worst_ask, inp.asks[st.ask_at].price@),
        inp.tick,
    )
}

/// Nothing in the report on a state is too large for a decimal.
pub open spec fn outcome_fits(inp: PlanInput, st: PlanState) -> bool {
    &&& cuttable(st.hedged) && cuttable(st.sold) && cuttable(st.remaining)
    &&& st.hedged > 0 ==> sum_fits(st.worst_ask, inp.tick)
}

/// Nothing in the step from a state is too large for a decimal.
pub open spec fn step_fits(inp: PlanInput, st: PlanState) -> bool {
    &&& st.remaining > 0 ==> choice_fits(inp, st)
    &&& match route(inp, st) {
        Route::Stop => outcome_fits(inp, st),
        Route::Hedge(take) => {
            &&& sum_fits(st.hedged, take)
            &&& difference_fits(st.remaining, take)
            &&& difference_fits(st.ask_left, take)
        },
        Route::Sell(take) => {
            &&& sum_fits(st.sold, take)
            &&& difference_fits(st.remaining, take)
            &&& difference_fits(st.bid_left, take)
            &&& cuttable(difference(st.remaining, take))
        },
    }
}

/// Nothing in the whole plan is too large for a decimal.
pub open spec fn plan_fits(inp: PlanInput) -> bool {
    cuttable(inp.total) && forall|n: nat| step_fits(inp, #[trigger] plan_after(inp, n))
}

/// `r` reports the state `st`.
pub open spec fn reports(inp: PlanInput, st: PlanState, r: HedgeResolution) -> bool {
    &&& r.hedge_shares@ == whole_cents(st.hedged)
    &&& r.hedge_limit_price@ == if st.hedged > 0 {
        sum(st.worst_ask, inp.tick)
    } else {
        0
    }
    &&& r.sellback_shares@ == whole_cents(st.sold)
    &&& r.sellback_limit_price@ == if st.sold > 0 {
        st.worst_bid
    } else {
        0
    }
    &&& r.unresolved_shares@ == whole_cents(st.remaining)
}

#[verifier::spinoff_prover]
#[verifier::rlimit(60)]
fn affordable_hedge_take(
    remaining_size: Decimal,
    level_size: Decimal,
    current_hedge_shares: Decimal,
    max_hedge_usdc: Decimal,
    candidate_worst_hedge_ask: Decimal,
    tick_size: Decimal,
) -> (r: Option<Decimal>)
    requires
        0 <= current_hedge_shares@,
    ensures
        r is Some == take_fits(
            current_hedge_shares@,
            max_hedge_usdc@,
            candidate_worst_hedge_ask@,
            tick_size@,
        ),
        ordinary_take(
            current_hedge_shares@,
            max_hedge_usdc@,
            candidate_worst_hedge_ask@,
            tick_size@,
        ) ==> r is Some,
        r matches Some(take) ==> {
            let limit = sum(candidate_worst_hedge_ask@, tick_size@);
            &&& take@ == affordable_take(
                remaining_size@,
                level_size@,
                current_hedge_shares@,
                max_hedge_usdc@,
                candidate_worst_hedge_ask@,
                tick_size@,
            )
            &&& max_hedge_usdc@ != max_value() && take@ > 0 ==> {
                &&& limit > 0
                &&& is_rounding(quotient(max_hedge_usdc@, limit), max_hedge_usdc@ * unit(), limit)
                &&& current_hedge_shares@ % cent() == 0 ==> current_hedge_shares@ + take@
                    <= floor_value(quotient(max_hedge_usdc@, limit))
                &&& take@ < remaining_size@ && take@ < level_size@ ==> take@ >= cent()
            }
        },
{
    if max_hedge_usdc == Decimal::max_value() {
        return Some(remaining_size.min(level_size));
    }
    proof {
        lemma_whole(0);
        lemma_pow10_28();
        crate::decimal::lemma_grid_point(100, 18);
        lemma_whole(100_000_000_000_000_000_000_000_000);
    }
    let candidate_limit_price = candidate_worst_hedge_ask.checked_plus(tick_size)?;
    if candidate_limit_price <= Decimal::zero() || max_hedge_usdc <= Decimal::zero() {
        return Some(Decimal::zero());
    }
    proof {
        if ordinary_take(
            current_hedge_shares@,
            max_hedge_usdc@,
            candidate_worst_hedge_ask@,
            tick_size@,
        ) {
            lemma_affordable(max_hedge_usdc@, candidate_limit_price@);
        }
    }
    let affordable = max_hedge_usdc.checked_over(candidate_limit_price)?.floor();
    if !affordable.has_hundredfold() {
        return None;
    }
    let max_total_hedge_shares = normalize_share_size(affordable);
    let room = max_total_hedge_shares.checked_minus(current_hedge_shares)?.max(Decimal::zero());
    if !room.has_hundredfold() {
        return None;
    }
    let affordable_increment = normalize_share_size(room);
    proof {
        lemma_whole_cents_multiple(affordable@);
        lemma_whole_cents_multiple(room@);
        if current_hedge_shares@ % cent() == 0 && affordable@ >= current_hedge_shares@ {
            lemma_whole_cents((affordable@ - current_hedge_shares@) / cent());
        }
    }
    Some(remaining_size.min(level_size).min(affordable_increment))
}

/// Ordinary numbers for the next hedge.
spec fn ordinary_take(hedged: int, budget: int, worst: int, tick: int) -> bool {
    &&& budget <= plan_limit() || budget == max_value()
    &&& 0 <= hedged <= 4 * plan_limit()
    &&& -plan_limit() <= worst <= plan_limit()
    &&& -plan_limit() <= tick <= plan_limit()
    &&& limit_usable(worst, tick)
}

/// An ordinary budget buys a number of shares that is not too large.
proof fn lemma_affordable(b: int, l: int)
    requires
        0 < b <= plan_limit(),
        l >= smallest_limit(),
    ensures
        -max_value() * l <= b * unit() <= max_value() * l,
        0 * l <= b * unit() <= (100_000_000_000_000_000_000_000_000 * unit()) * l,
{
    assert(b * unit() <= max_value() * l && 0 <= b * unit()) by (nonlinear_arith)
        requires
            0 < b <= plan_limit(),
            l >= smallest_limit(),
    ;
    let top = 100_000_000_000_000_000_000_000_000 * unit();
    assert(b * unit() <= top * l) by (nonlinear_arith)
        requires
            0 < b <= plan_limit(),
            l >= smallest_limit(),
            top == 100_000_000_000_000_000_000_000_000 * unit(),
    ;
    assert(-max_value() * l <= 0) by (nonlinear_arith)
        requires
            l >= smallest_limit(),
    ;
}

fn advance_level_if_empty(ptr: &mut usize, remaining_at_level: &mut Decimal, levels: &[PriceLevel])
    requires
        *old(ptr) < levels@.len(),
    ensures
        (*final(ptr) as int, final(remaining_at_level)@) == advanced(
            *old(ptr) as int,
            old(remaining_at_level)@,
            levels@,
        ),
{
    let len: usize = levels.len();
    if *remaining_at_level <= Decimal::zero() {
        *ptr = *ptr + 1;
        if *ptr < len {
            *remaining_at_level = levels[*ptr].size;
        }
    }
}

/// What rounding leaves true when `take` moves from the shares remaining to those done.
proof fn lemma_taken(
    done: int,
    done_next: int,
    remaining: int,
    remaining_next: int,
    left: int,
    left_next: int,
    take: int,
)
    requires
        is_rounding(done_next, done + take, 1),
        is_rounding(remaining_next, remaining - take, 1),
        is_rounding(left_next, left - take, 1),
        representable(done),
        representable(remaining),
        representable(left),
        0 <= take <= remaining <= plan_limit(),
        take <= left,
        0 <= done <= 4 * plan_limit(),
    ensures
        done <= done_next <= done + take + 1_000_000_000_000_000_000,
        0 <= remaining_next <= remaining,
        remaining_next <= remaining - take + 1_000_000_000_000_000_000,
        take == remaining ==> remaining_next == 0,
        take == left ==> left_next == 0,
{
    lemma_whole(0);
    lemma_pow10_28();
    lemma_rounding_error(done_next, done + take, 18);
    lemma_rounding_error(remaining_next, remaining - take, 18);
}

/// What rounding leaves true when `take` leaves a level and the shares remaining.
proof fn lemma_left(
    done: int,
    done_next: int,
    remaining: int,
    remaining_next: int,
    left: int,
    left_next: int,
    take: int,
)
    requires
        is_rounding(done_next, done + take, 1),
        is_rounding(remaining_next, remaining - take, 1),
        is_rounding(left_next, left - take, 1),
        representable(done),
        representable(remaining),
        take <= remaining,
        cuttable(remaining),
    ensures
        take >= 0 ==> done <= done_next && remaining_next <= remaining,
        0 <= remaining_next,
        take == remaining ==> remaining_next == 0,
        take == left ==> left_next == 0,
        take >= cent() ==> remaining_next < remaining,
{
    lemma_whole(0);
    if take >= cent() {
        lemma_cent_below(remaining);
    }
}

/// A cent less than a size that can be cut is a decimal, too.
proof fn lemma_cent_below(v: int)
    requires
        representable(v),
        cent() <= v,
        cuttable(v),
    ensures
        representable(v - cent()),
{
    let k = choose|k: nat| k <= 28 && #[trigger] on_grid(v, k);
    lemma_pow10_28();
    reveal_with_fuel(pow10, 3);
    let j: nat = if k <= 26 {
        k
    } else {
        26
    };
    crate::decimal::lemma_pow10_positive(j);
    crate::decimal::lemma_pow10_positive(k);
    crate::decimal::lemma_pow10_split(j, (26 - j) as nat);
    crate::decimal::lemma_pow10_split(j, (k - j) as nat);
    let p = pow10(j);
    let c = pow10((26 - j) as nat);
    let e = pow10((k - j) as nat);
    let q = v / (p * e);
    assert(pow10(26) == p * c && pow10(k) == p * e);
    vstd::arithmetic::div_mod::lemma_fundamental_div_mod(v, p * e);
    let m = q * e - c;
    assert(v - cent() == m * p) by (nonlinear_arith)
        requires
            v == (p * e) * q,
            cent() == p * c,
            m == q * e - c,
    ;
    assert(0 <= m) by (nonlinear_arith)
        requires
            v - cent() == m * p,
            v - cent() >= 0,
            p > 0,
    ;
    assert(v < mantissa_bound() * p) by {
        if k > 26 {
            assert(p == cent());
        }
    }
    assert(m < mantissa_bound()) by (nonlinear_arith)
        requires
            m * p <= v,
            v < mantissa_bound() * p,
            p > 0,
    ;
    crate::decimal::lemma_grid_point(m, j);
}

/// With ordinary numbers the planner keeps to ordinary numbers.
spec fn in_plan_range(inp: PlanInput, st: PlanState) -> bool {
    &&& st.ask_at < inp.asks.len() ==> st.ask_left >= 0
    &&& st.bid_at < inp.bids.len() ==> st.bid_left >= 0
    &&& 0 <= st.worst_ask <= plan_limit()
    &&& st.worst_ask == 0 || limit_usable(st.worst_ask, inp.tick)
    &&& -plan_limit() <= st.remaining <= plan_limit()
    &&& 0 <= st.sold
    &&& st.hedged + st.sold + 2 * max_of(st.remaining, 0) <= 2 * plan_limit() + slack(
        st.ask_at,
        st.bid_at,
        st.remaining,
    )
}

/// The hedged shares are affordable at the limit price that they have.
spec fn is_affordable(inp: PlanInput, st: PlanState) -> bool {
    let budget = max_of(inp.budget, 0);
    let limit = sum(st.worst_ask, inp.tick);
    budget != max_value() && st.hedged > 0 ==> {
        &&& limit > 0
        &&& is_rounding(quotient(budget, limit), budget * unit(), limit)
        &&& whole_cent_sizes(inp) && cuttable(inp.total) ==> st.hedged <= floor_value(
            quotient(budget, limit),
        )
    }
}

#[verifier::spinoff_prover]
#[verifier::rlimit(80)]
fn checked_plan(
    fill_price: Decimal,
    hedge_asks: &[PriceLevel],
    sellback_bids: &[PriceLevel],
    total_size: Decimal,
    max_hedge_usdc: Decimal,
    tick_size: Decimal,
) -> (r: Option<HedgeResolution>)
    ensures
        ({
            let inp = plan_input(
                fill_price,
                hedge_asks@,
                sellback_bids@,
                total_size,
                max_hedge_usdc,
                tick_size,
            );
            &&& r is Some == plan_fits(inp)
            &&& plannable(inp) ==> r is Some
            &&& r matches Some(plan) ==> resolves(inp, plan)
        }),
{
    let ghost inp = plan_input(
        fill_price,
        hedge_asks@,
        sellback_bids@,
        total_size,
        max_hedge_usdc,
        tick_size,
    );
    if !total_size.has_hundredfold() {
        return None;
    }
    let mut remaining = normalize_share_size(total_size);
    let budget = max_hedge_usdc.max(Decimal::zero());
    let mut hedge_shares = Decimal::zero();
    let mut sellback_shares = Decimal::zero();
    let mut worst_hedge_ask = Decimal::zero();
    let mut worst_sellback_bid = Decimal::zero();
    let asks_len: usize = hedge_asks.len();
    let bids_len: usize = sellback_bids.len();
    let mut h_ptr: usize = 0;
    let mut s_ptr: usize = 0;
    let mut h_left = if asks_len > 0 {
        hedge_asks[0].size
    } else {
        Decimal::zero()
    };
    let mut s_left = if bids_len > 0 {
        sellback_bids[0].size
    } else {
        Decimal::zero()
    };
    let ghost mut n: nat = 0;
    let mut going = true;
    proof {
        lemma_whole_cents_multiple(inp.total);
    }
    while going
        invariant
            inp == plan_input(
                fill_price,
                hedge_asks@,
                sellback_bids@,
                total_size,
                max_hedge_usdc,
                tick_size,
            ),
            cuttable(inp.total),
            budget@ == max_of(inp.budget, 0),
            asks_len == hedge_asks@.len(),
            bids_len == sellback_bids@.len(),
            h_ptr <= asks_len,
            s_ptr <= bids_len,
            plan_after(inp, n) == (PlanState {
                remaining: remaining@,
                hedged: hedge_shares@,
                sold: sellback_shares@,
                worst_ask: worst_hedge_ask@,
                worst_bid: worst_sellback_bid@,
                ask_at: h_ptr as int,
                ask_left: h_left@,
                bid_at: s_ptr as int,
                bid_left: s_left@,
            }),
            forall|m: nat| m < n ==> step_fits(inp, #[trigger] plan_after(inp, m)),
            plannable(inp) ==> in_plan_range(inp, plan_after(inp, n)),
            is_affordable(inp, plan_after(inp, n)),
            worst_hedge_ask@ == 0 || exists|k: int|
                0 <= k < inp.asks.len() && (#[trigger] inp.asks[k]).price@ == worst_hedge_ask@,
            0 <= hedge_shares@,
            cuttable(remaining@),
            !going ==> route(inp, plan_after(inp, n)) is Stop && (remaining@ > 0 ==> choice_fits(
                inp,
                plan_after(inp, n),
            )),
        decreases
                (if going {
                    1int
                } else {
                    0
                }) + (asks_len - h_ptr) + (bids_len - s_ptr),
                max_of(remaining@, 0) + (if going {
                    1int
                } else {
                    0
                }),
    {
        let ghost st = plan_after(inp, n);
        if remaining <= Decimal::zero() {
            going = false;
            continue ;
        }
        proof {
            use_type_invariant(&remaining);
            use_type_invariant(&hedge_shares);
            use_type_invariant(&sellback_shares);
            use_type_invariant(&h_left);
            use_type_invariant(&s_left);
            lemma_inv_representable(remaining);
            lemma_inv_representable(hedge_shares);
            lemma_inv_representable(sellback_shares);
            lemma_inv_representable(h_left);
            lemma_inv_representable(s_left);
            lemma_whole(0);
            lemma_whole(2_000_000_000_000_000_000);
            lemma_whole(-2_000_000_000_000_000_000);
        }
        let has_ask = h_ptr < asks_len;
        let has_bid = s_ptr < bids_len;
        let mut prefer_hedge = has_ask;
        if has_ask && has_bid {
            let pair = fill_price.checked_plus(hedge_asks[h_ptr].price)?;
            let hedge_cost = pair.checked_minus(Decimal::one())?;
            let sellback_cost = fill_price.checked_minus(sellback_bids[s_ptr].price)?;
            prefer_hedge = hedge_cost < sellback_cost;
        }
        assert(prefer_hedge == hedge_preferred(inp, st));
        let candidate = if prefer_hedge {
            affordable_hedge_take(
                remaining,
                h_left,
                hedge_shares,
                budget,
                worst_hedge_ask.max(hedge_asks[h_ptr].price),
                tick_size,
            )?
        } else {
            Decimal::zero()
        };
        assert(choice_fits(inp, st));
        if prefer_hedge && candidate > Decimal::zero() {
            let h_price = hedge_asks[h_ptr].price;
            proof {
                if whole_cent_sizes(inp) {
                    lemma_conserved(inp, n);
                    lemma_hedge_take(inp, st);
                    lemma_cents_moved(st.hedged, st.remaining, candidate@);
                }
            }
            hedge_shares = hedge_shares.checked_plus(candidate)?;
            worst_hedge_ask = worst_hedge_ask.max(h_price);
            remaining = remaining.checked_minus(candidate)?;
            h_left = h_left.checked_minus(candidate)?;
            proof {
                lemma_left(
                    st.hedged,
                    hedge_shares@,
                    st.remaining,
                    remaining@,
                    st.ask_left,
                    h_left@,
                    candidate@,
                );
                if plannable(inp) {
                    lemma_taken(
                        st.hedged,
                        hedge_shares@,
                        st.remaining,
                        remaining@,
                        st.ask_left,
                        h_left@,
                        candidate@,
                    );
                }
            }
            advance_level_if_empty(&mut h_ptr, &mut h_left, hedge_asks);
        } else if has_bid {
            let take = remaining.min(s_left);
            if prefer_hedge && take <= Decimal::zero() {
                going = false;
                continue ;
            }
            sellback_shares = sellback_shares.checked_plus(take)?;
            worst_sellback_bid = sellback_bids[s_ptr].price;
            remaining = remaining.checked_minus(take)?;
            s_left = s_left.checked_minus(take)?;
            proof {
                lemma_left(
                    st.sold,
                    sellback_shares@,
                    st.remaining,
                    remaining@,
                    st.bid_left,
                    s_left@,
                    take@,
                );
                if plannable(inp) {
                    lemma_taken(
                        st.sold,
                        sellback_shares@,
                        st.remaining,
                        remaining@,
                        st.bid_left,
                        s_left@,
                        take@,
                    );
                }
            }
            if !remaining.has_hundredfold() {
                return None;
            }
            advance_level_if_empty(&mut s_ptr, &mut s_left, sellback_bids);
        } else {
            going = false;
            continue ;
        }
        proof {
            n = n + 1;
        }
    }
    let ghost st = plan_after(inp, n);
    if !hedge_shares.has_hundredfold() || !sellback_shares.has_hundredfold() {
        assert(!step_fits(inp, st));
        return None;
    }
    let hedge_limit_price = if hedge_shares > Decimal::zero() {
        worst_hedge_ask.checked_plus(tick_size)?
    } else {
        Decimal::zero()
    };
    let sellback_limit_price = if sellback_shares > Decimal::zero() {
        worst_sellback_bid
    } else {
        Decimal::zero()
    };
    let r = HedgeResolution {
        hedge_shares: normalize_share_size(hedge_shares),
        hedge_limit_price,
        sellback_shares: normalize_share_size(sellback_shares),
        sellback_limit_price,
        unresolved_shares: normalize_share_size(remaining),
    };
    assert(planned(inp, n, r));
    proof {
        assert(step_fits(inp, st));
        assert forall|m: nat| step_fits(inp, #[trigger] plan_after(inp, m)) by {
            if n <= m {
                lemma_stopped_stays(inp, n, m);
            }
        }
        lemma_whole_cents_multiple(hedge_shares@);
        lemma_within_budget(inp, n, r);
    }
    Some(r)
}

/// What is affordable costs no more than the budget, but for a rounded quotient.
proof fn lemma_within_budget(inp: PlanInput, n: nat, r: HedgeResolution)
    requires
        cuttable(inp.total),
        is_affordable(inp, plan_after(inp, n)),
        reports(inp, plan_after(inp, n), r),
        plan_after(inp, n).hedged >= 0,
    ensures
        stays_within_budget(inp, r),
{
    let st = plan_after(inp, n);
    lemma_whole_cents_multiple(st.hedged);
    let b = max_of(inp.budget, 0);
    let l = r.hedge_limit_price@;
    let h = r.hedge_shares@;
    if whole_cent_sizes(inp) && b != max_value() && h > 0 {
        let q = quotient(b, l);
        let w = floor_value(q);
        assert(h <= w <= q);
        if q % unit() == 0 && q * l > b * unit() {
        } else if q * l <= b * unit() {
            assert(h * l <= b * unit()) by (nonlinear_arith)
                requires
                    h <= q,
                    l > 0,
                    q * l <= b * unit(),
            ;
        } else {
            assert(w < q);
            lemma_whole(0);
            assert(0 * l <= b * unit());
            lemma_representable_bound(q);
            lemma_whole(q / unit());
            assert(w * l <= b * unit());
            assert(h * l <= b * unit()) by (nonlinear_arith)
                requires
                    h <= w,
                    l > 0,
                    w * l <= b * unit(),
            ;
        }
    }
}

/// No decimal has more whole units than the largest one.
proof fn lemma_representable_bound(v: int)
    requires
        representable(v),
        0 <= v,
    ensures
        v / unit() < mantissa_bound(),
{
    let k = choose|k: nat| k <= 28 && #[trigger] on_grid(v, k);
    lemma_pow10_28();
    crate::decimal::lemma_pow10_monotone(k, 28);
    crate::decimal::lemma_pow10_positive(k);
    let p = pow10(k);
    assert(v < mantissa_bound() * unit()) by (nonlinear_arith)
        requires
            v < mantissa_bound() * p,
            0 < p <= unit(),
    ;
}

/// What is promised of a plan: it is where the planner stops, it keeps to the budget, and its limit
/// price comes from the book.
pub open spec fn resolves(inp: PlanInput, r: HedgeResolution) -> bool {
    &&& exists|n: nat| planned(inp, n, r)
    &&& stays_within_budget(inp, r)
    &&& limit_is_above_an_ask(inp.asks, inp.tick, r)
    &&& 0 <= r.hedge_shares@
    &&& plannable(inp) ==> r.hedge_shares@ <= 3 * plan_limit()
}

/// Walk both books to determine the cheapest resolution per share of unhedged exposure.
///
/// For each share, compares:
/// - hedge cost   = fill_price + hedge_ask_price - 1.00
/// - sellback cost = fill_price - sellback_bid_price
///
/// Consumes from whichever side is cheaper. On ties, prefers sellback so the
/// bot reclaims capital immediately without depending on merge execution.
///
/// `max_hedge_usdc` limits how much actual USDC can be spent on the hedge BUY leg.
/// Shares that are cheap to hedge but exceed that budget are re-routed to sell-back
/// when filled-side bid depth exists, otherwise they remain unresolved.
///
/// `tick_size` is used to add a 1-tick buffer to the hedge limit price.
pub fn plan_fill_resolution(
    fill_price: Decimal,
    hedge_asks: &[PriceLevel],
    sellback_bids: &[PriceLevel],
    total_size: Decimal,
    max_hedge_usdc: Decimal,
    tick_size: Decimal,
) -> (r: HedgeResolution)
    requires
        ({
            let inp = plan_input(
                fill_price,
                hedge_asks@,
                sellback_bids@,
                total_size,
                max_hedge_usdc,
                tick_size,
            );
            plannable(inp) || plan_fits(inp)
        }),
    ensures
        resolves(
            plan_input(
                fill_price,
                hedge_asks@,
                sellback_bids@,
                total_size,
                max_hedge_usdc,
                tick_size,
            ),
            r,
        ),
{
    match checked_plan(
        fill_price,
        hedge_asks,
        sellback_bids,
        total_size,
        max_hedge_usdc,
        tick_size,
    ) {
        Some(plan) => plan,
        None => unreached(),
    }
}

/// The cheapest resolution, unless some number on the way is too large.
pub fn try_plan_fill_resolution(
    fill_price: Decimal,
    hedge_asks: &[PriceLevel],
    sellback_bids: &[PriceLevel],
    total_size: Decimal,
    max_hedge_usdc: Decimal,
    tick_size: Decimal,
) -> (r: Option<HedgeResolution>)
    ensures
        ({
            let inp = plan_input(
                fill_price,
                hedge_asks@,
                sellback_bids@,
                total_size,
                max_hedge_usdc,
                tick_size,
            );
            &&& r is Some == plan_fits(inp)
            &&& plannable(inp) ==> r is Some
            &&& r matches Some(plan) ==> resolves(inp, plan)
        }),
{
    if checked_plan(
        fill_price,
        hedge_asks,
        sellback_bids,
        total_size,
        max_hedge_usdc,
        tick_size,
    ).is_some() {
        Some(
            plan_fill_resolution(
                fill_price,
                hedge_asks,
                sellback_bids,
                total_size,
                max_hedge_usdc,
                tick_size,
            ),
        )
    } else {
        None
    }
}

/// The limit price of the hedge is one tick above an ask of the book, or above zero.
pub open spec fn limit_is_above_an_ask(
    asks: Seq<PriceLevel>,
    tick: int,
    r: HedgeResolution,
) -> bool {
    let limit = r.hedge_limit_price@;
    ||| limit == 0
    ||| limit == sum(0, tick) && is_rounding(limit, tick, 1)
    ||| exists|k: int|
        0 <= k < asks.len() && limit == sum((#[trigger] asks[k]).price@, tick) && is_rounding(
            limit,
            asks[k].price@ + tick,
            1,
        )
}

/// Over books of whole hundredths the shares to hedge never exceed the whole shares that the
/// budget buys at the limit price, and they cost no more than the budget, unless the division of
/// the one by the other was rounded up to a whole number.
pub open spec fn stays_within_budget(inp: PlanInput, r: HedgeResolution) -> bool {
    let budget = max_of(inp.budget, 0);
    let limit = r.hedge_limit_price@;
    let most = quotient(budget, limit);
    whole_cent_sizes(inp) && budget != max_value() && r.hedge_shares@ > 0 ==> {
        &&& limit > 0
        &&& r.hedge_shares@ <= floor_value(most)
        &&& r.hedge_shares@ * limit <= budget * unit() || most % unit() == 0 && most * limit
            > budget * unit()
    }
}

pub open spec fn plan_input(
    fill_price: Decimal,
    hedge_asks: Seq<PriceLevel>,
    sellback_bids: Seq<PriceLevel>,
    total_size: Decimal,
    max_hedge_usdc: Decimal,
    tick_size: Decimal,
) -> PlanInput {
    PlanInput {
        fill: fill_price@,
        asks: hedge_asks,
        bids: sellback_bids,
        total: total_size@,
        budget: max_hedge_usdc@,
        tick: tick_size@,
    }
}

/// The planner stops after at most `n` steps, and `r` reports where it stands there.
pub open spec fn planned(inp: PlanInput, n: nat, r: HedgeResolution) -> bool {
    &&& route(inp, plan_after(inp, n)) is Stop
    &&& reports(inp, plan_after(inp, n), r)
}

/// What rounding may have added to the shares accounted for.
spec fn slack(ask_at: int, bid_at: int, remaining: int) -> int {
    4_000_000_000_000_000_000 * (ask_at + bid_at + if remaining == 0 {
        1int
    } else {
        0
    })
}

/// Every level of both books holds a whole number of hundredths of a share, not too many for a
/// decimal.
pub open spec fn whole_cent_sizes(inp: PlanInput) -> bool {
    &&& forall|i: int|
        0 <= i < inp.asks.len() ==> (#[trigger] inp.asks[i]).size@ % cent() == 0
            && inp.asks[i].size@ >= 0 && cuttable(inp.asks[i].size@)
    &&& forall|i: int|
        0 <= i < inp.bids.len() ==> (#[trigger] inp.bids[i]).size@ % cent() == 0
            && inp.bids[i].size@ >= 0 && cuttable(inp.bids[i].size@)
}

spec fn conserved(inp: PlanInput, st: PlanState) -> bool {
    &&& st.hedged + st.sold + st.remaining == whole_cents(inp.total)
    &&& st.hedged >= 0 && st.sold >= 0
    &&& st.hedged % cent() == 0 && st.sold % cent() == 0 && st.remaining % cent() == 0
    &&& whole_cents(inp.total) >= 0 ==> st.remaining >= 0
    &&& whole_cents(inp.total) < 0 ==> st.hedged == 0 && st.sold == 0
    &&& st.ask_at >= 0 && st.bid_at >= 0
    &&& st.ask_at < inp.asks.len() ==> st.ask_left % cent() == 0 && 0 <= st.ask_left
        && cuttable(st.ask_left)
    &&& st.bid_at < inp.bids.len() ==> st.bid_left % cent() == 0 && 0 <= st.bid_left
        && cuttable(st.bid_left)
}

/// Sums of whole hundredths are exact.
proof fn lemma_cents_exact(v: int)
    requires
        v % cent() == 0,
        cuttable(v),
    ensures
        representable(v),
{
    lemma_whole_cents(v / cent());
}

/// `take` leaves `from` and reaches `to`, all in whole hundredths.
proof fn lemma_cents_moved(to: int, from: int, take: int)
    requires
        to % cent() == 0,
        from % cent() == 0,
        take % cent() == 0,
        0 <= take <= from,
        0 <= to,
        cuttable(from),
        cuttable(to + take),
    ensures
        sum(to, take) == to + take,
        (to + take) % cent() == 0,
        difference(from, take) == from - take,
        (from - take) % cent() == 0,
{
    lemma_cents_exact(to + take);
    lemma_cents_exact(from - take);
}

proof fn lemma_whole_cents_multiple(v: int)
    ensures
        whole_cents(v) % cent() == 0,
        v >= 0 ==> 0 <= whole_cents(v) <= v,
        v < 0 ==> v <= whole_cents(v) <= 0,
        v % cent() == 0 ==> whole_cents(v) == v,
{
}

proof fn lemma_hedge_take(inp: PlanInput, st: PlanState)
    requires
        conserved(inp, st),
        st.ask_at < inp.asks.len(),
        hedge_take(inp, st) > 0,
    ensures
        hedge_take(inp, st) % cent() == 0,
        hedge_take(inp, st) <= st.remaining,
        hedge_take(inp, st) <= st.ask_left,
{
    let limit = sum(max_of(st.worst_ask, inp.asks[st.ask_at].price@), inp.tick);
    let most = whole_cents(floor_value(quotient(max_of(inp.budget, 0), limit)));
    lemma_whole_cents_multiple(max_of(difference(most, st.hedged), 0));
}

proof fn lemma_conserved_step(inp: PlanInput, st: PlanState)
    requires
        cuttable(inp.total),
        whole_cent_sizes(inp),
        conserved(inp, st),
    ensures
        conserved(inp, plan_step(inp, st)),
{
    lemma_whole_cents_multiple(inp.total);
    match route(inp, st) {
        Route::Stop => {},
        Route::Hedge(take) => {
            lemma_hedge_take(inp, st);
            lemma_cents_moved(st.hedged, st.remaining, take);
            lemma_cents_moved(0, st.ask_left, take);
        },
        Route::Sell(take) => {
            lemma_cents_moved(st.sold, st.remaining, take);
            lemma_cents_moved(0, st.bid_left, take);
        },
    }
}

proof fn lemma_conserved(inp: PlanInput, n: nat)
    requires
        cuttable(inp.total),
        whole_cent_sizes(inp),
    ensures
        conserved(inp, plan_after(inp, n)),
    decreases n,
{
    lemma_whole_cents_multiple(inp.total);
    if n > 0 {
        lemma_conserved(inp, (n - 1) as nat);
        lemma_conserved_step(inp, plan_after(inp, (n - 1) as nat));
    }
}

/// No share is lost or made up: over books of whole hundredths, the shares hedged, sold back and
/// left unresolved add up to the truncated size of the fill.
pub proof fn law_plan_conserves_shares(inp: PlanInput, n: nat, r: HedgeResolution)
    requires
        cuttable(inp.total),
        whole_cent_sizes(inp),
        planned(inp, n, r),
    ensures
        r.hedge_shares@ + r.sellback_shares@ + r.unresolved_shares@ == whole_cents(inp.total),
{
    lemma_conserved(inp, n);
    let st = plan_after(inp, n);
    lemma_whole_cents_multiple(st.hedged);
    lemma_whole_cents_multiple(st.sold);
    lemma_whole_cents_multiple(st.remaining);
}

proof fn lemma_stopped_stays(inp: PlanInput, n: nat, m: nat)
    requires
        n <= m,
        route(inp, plan_after(inp, n)) is Stop,
    ensures
        plan_after(inp, m) == plan_after(inp, n),
    decreases m,
{
    if n < m {
        lemma_stopped_stays(inp, n, (m - 1) as nat);
    }
}

/// The plan is determined by the inputs: two reports on the same inputs agree in every figure.
pub proof fn law_plan_is_determined(
    inp: PlanInput,
    n: nat,
    m: nat,
    r: HedgeResolution,
    q: HedgeResolution,
)
    requires
        planned(inp, n, r),
        planned(inp, m, q),
    ensures
        r.hedge_shares@ == q.hedge_shares@,
        r.hedge_limit_price@ == q.hedge_limit_price@,
        r.sellback_shares@ == q.sellback_shares@,
        r.sellback_limit_price@ == q.sellback_limit_price@,
        r.unresolved_shares@ == q.unresolved_shares@,
{
    if n <= m {
        lemma_stopped_stays(inp, n, m);
    } else {
        lemma_stopped_stays(inp, m, n);
    }
}

/// Where hedging costs as much as selling back, the shares are sold back while bids last.
pub proof fn law_tie_prefers_sellback(inp: PlanInput, st: PlanState)
    requires
        st.remaining > 0,
        0 <= st.ask_at < inp.asks.len(),
        0 <= st.bid_at < inp.bids.len(),
        difference(sum(inp.fill, inp.asks[st.ask_at].price@), unit()) == difference(
            inp.fill,
            inp.bids[st.bid_at].price@,
        ),
    ensures
        route(inp, st) == Route::Sell(min_of(st.remaining, st.bid_left)),
{
}

/// Each share leaves by the cheaper exit: it is hedged where the ask and the bid together cost less
/// than a dollar and the hedge can be paid, and sold back where they cost a dollar or more.
pub proof fn law_cheaper_exit_is_taken(inp: PlanInput, st: PlanState)
    requires
        st.remaining > 0,
        0 <= st.ask_at < inp.asks.len(),
        0 <= st.bid_at < inp.bids.len(),
        representable(inp.fill + inp.asks[st.ask_at].price@),
        representable(inp.fill + inp.asks[st.ask_at].price@ - unit()),
        representable(inp.fill - inp.bids[st.bid_at].price@),
    ensures
        ({
            let together = inp.asks[st.ask_at].price@ + inp.bids[st.bid_at].price@;
            &&& together < unit() && hedge_take(inp, st) > 0 ==> route(inp, st) == Route::Hedge(
                hedge_take(inp, st),
            )
            &&& together >= unit() ==> route(inp, st) == Route::Sell(
                min_of(st.remaining, st.bid_left),
            )
        }),
{
}

/// With no budget nothing is hedged.
pub proof fn law_no_budget_no_hedge(inp: PlanInput, n: nat, r: HedgeResolution)
    requires
        inp.budget <= 0,
        planned(inp, n, r),
    ensures
        r.hedge_shares@ == 0,
        r.hedge_limit_price@ == 0,
{
    lemma_no_budget(inp, n);
}

proof fn lemma_no_budget(inp: PlanInput, n: nat)
    requires
        inp.budget <= 0,
    ensures
        plan_after(inp, n).hedged == 0,
    decreases n,
{
    if n > 0 {
        lemma_no_budget(inp, (n - 1) as nat);
    }
}

/// Legacy convenience wrapper that plans with effectively unlimited hedge budget.
pub fn compute_hedge_resolution(
    fill_price: Decimal,
    hedge_asks: &[PriceLevel],
    sellback_bids: &[PriceLevel],
    total_size: Decimal,
    tick_size: Decimal,
) -> (r: HedgeResolution)
    requires
        ({
            let inp = unlimited_input(
                fill_price,
                hedge_asks@,
                sellback_bids@,
                total_size,
                tick_size,
            );
            plannable(inp) || plan_fits(inp)
        }),
    ensures
        resolves(
            unlimited_input(fill_price, hedge_asks@, sellback_bids@, total_size, tick_size),
            r,
        ),
{
    plan_fill_resolution(
        fill_price,
        hedge_asks,
        sellback_bids,
        total_size,
        Decimal::max_value(),
        tick_size,
    )
}

/// The cheapest resolution without a spending limit, unless some number on the way is too large.
pub fn try_compute_hedge_resolution(
    fill_price: Decimal,
    hedge_asks: &[PriceLevel],
    sellback_bids: &[PriceLevel],
    total_size: Decimal,
    tick_size: Decimal,
) -> (r: Option<HedgeResolution>)
    ensures
        ({
            let inp = unlimited_input(
                fill_price,
                hedge_asks@,
                sellback_bids@,
                total_size,
                tick_size,
            );
            &&& r is Some == plan_fits(inp)
            &&& plannable(inp) ==> r is Some
            &&& r matches Some(plan) ==> resolves(inp, plan)
        }),
{
    if checked_plan(
        fill_price,
        hedge_asks,
        sellback_bids,
        total_size,
        Decimal::max_value(),
        tick_size,
    ).is_some() {
        Some(
            compute_hedge_resolution(fill_price, hedge_asks, sellback_bids, total_size, tick_size),
        )
    } else {
        None
    }
}

/// Planner input without a spending limit.
pub open spec fn unlimited_input(
    fill_price: Decimal,
    hedge_asks: Seq<PriceLevel>,
    sellback_bids: Seq<PriceLevel>,
    total_size: Decimal,
    tick_size: Decimal,
) -> PlanInput {
    PlanInput {
        fill: fill_price@,
        asks: hedge_asks,
        bids: sellback_bids,
        total: total_size@,
        budget: max_value(),
        tick: tick_size@,
    }
}

/// Intent to execute an offsetting hedge after a fill.
#[derive(Debug)]
pub struct HedgeIntent {
    pub condition_id: String,
    pub trigger_order_id: String,
    pub trigger_leg: QuoteLeg,
    pub fill_size: Decimal,
    pub fill_price: Decimal,
    /// Token ID to trade for the hedge.
    pub hedge_token_id: String,
    /// Side of the hedge order.
    pub hedge_side: Side,
    /// Whether this market uses the Neg Risk CTF Exchange.
    pub neg_risk: bool,
    pub tick_size: String,
}

impl Clone for HedgeIntent {
    fn clone(&self) -> (r: HedgeIntent)
        ensures
            r == *self,
    {
        HedgeIntent {
            condition_id: self.condition_id.clone(),
            trigger_order_id: self.trigger_order_id.clone(),
            trigger_leg: self.trigger_leg,
            fill_size: self.fill_size,
            fill_price: self.fill_price,
            hedge_token_id: self.hedge_token_id.clone(),
            hedge_side: self.hedge_side,
            neg_risk: self.neg_risk,
            tick_size: self.tick_size.clone(),
        }
    }
}

#[derive(Clone, Copy, Debug, PartialEq, Eq, Structural)]
pub enum HedgeVerificationState {
    VerifiedFilled,
    VerifiedZeroFill,
    Unknown,
}

/// What is known of a hedge order after it was placed.
#[derive(Debug)]
pub struct HedgeVerificationMetadata {
    pub cancel_status: Option<String>,
    pub cancel_reason: Option<String>,
    pub lookup_status: Option<String>,
    pub lookup_matched_shares: Option<Decimal>,
    pub lookup_error: Option<String>,
    pub trade_ids: Vec<String>,
}

/// The metadata as plain texts and values.
pub struct MetadataView {
    pub cancel_status: Option<Seq<char>>,
    pub cancel_reason: Option<Seq<char>>,
    pub lookup_status: Option<Seq<char>>,
    pub lookup_matched_shares: Option<int>,
    pub lookup_error: Option<Seq<char>>,
    pub trade_ids: Seq<String>,
}

impl View for HedgeVerificationMetadata {
    type V = MetadataView;

    open spec fn view(&self) -> MetadataView {
        MetadataView {
            cancel_status: opt_text(self.cancel_status),
            cancel_reason: opt_text(self.cancel_reason),
            lookup_status: opt_text(self.lookup_status),
            lookup_matched_shares: value_of(self.lookup_matched_shares),
            lookup_error: opt_text(self.lookup_error),
            trade_ids: self.trade_ids@,
        }
    }
}

pub open spec fn metadata_of_trades(trade_ids: Seq<String>) -> MetadataView {
    MetadataView {
        cancel_status: None,
        cancel_reason: None,
        lookup_status: None,
        lookup_matched_shares: None,
        lookup_error: None,
        trade_ids,
    }
}

impl HedgeVerificationMetadata {
    /// Metadata that holds the trades of a placed order, and nothing else.
    pub fn with_trade_ids(order_result: Option<&OrderResult>) -> (r: HedgeVerificationMetadata)
        ensures
            r@ == metadata_of_trades(
                match order_result {
                    Some(result) => result.trade_ids@,
                    None => Seq::empty(),
                },
            ),
    {
        HedgeVerificationMetadata {
            cancel_status: None,
            cancel_reason: None,
            lookup_status: None,
            lookup_matched_shares: None,
            lookup_error: None,
            trade_ids: match order_result {
                Some(result) => clone_texts(&result.trade_ids),
                None => Vec::new(),
            },
        }
    }
}

impl Default for HedgeVerificationMetadata {
    fn default() -> (r: HedgeVerificationMetadata)
        ensures
            r@ == metadata_of_trades(Seq::empty()),
    {
        HedgeVerificationMetadata::with_trade_ids(None)
    }
}

/// Result of a hedge execution attempt.
#[derive(Debug)]
pub struct HedgeResult {
    pub intent: HedgeIntent,
    pub success: bool,
    pub order_result: Option<OrderResult>,
    pub hedge_price: Option<Decimal>,
    pub failure_reason: Option<String>,
    pub verification_state: HedgeVerificationState,
    pub verification_metadata: HedgeVerificationMetadata,
}

impl HedgeResult {
    /// The result says these things.
    pub open spec fn says(
        self,
        intent: HedgeIntent,
        success: bool,
        order_result: Option<OrderResult>,
        hedge_price: Option<int>,
        failure_reason: Option<Seq<char>>,
        state: HedgeVerificationState,
        metadata: MetadataView,
    ) -> bool {
        &&& self.intent == intent
        &&& self.success == success
        &&& self.order_result == order_result
        &&& value_of(self.hedge_price) == hedge_price
        &&& opt_text(self.failure_reason) == failure_reason
        &&& self.verification_state == state
        &&& self.verification_metadata@ == metadata
    }
}

fn buy_hedge_limit_price() -> (r: Decimal)
    ensures
        r@ == 99 * cent(),
{
    proof {
        lemma_pow10_28();
    }
    Decimal::new(99, 2)
}

/// The price of a sale at any price.
pub fn sell_hedge_limit_price() -> (r: Decimal)
    ensures
        r@ == cent(),
{
    proof {
        lemma_pow10_28();
    }
    Decimal::new(1, 2)
}

pub open spec fn classified(order: Option<LiveOrder>) -> HedgeVerificationState {
    match order {
        Some(order) => if order.size_matched@ > 0 {
            HedgeVerificationState::VerifiedFilled
        } else {
            HedgeVerificationState::VerifiedZeroFill
        },
        None => HedgeVerificationState::Unknown,
    }
}

/// Whether a hedge order filled, by what the exchange says of it afterwards.
pub fn classify_buy_hedge_verification(order: Option<&LiveOrder>) -> (r: HedgeVerificationState)
    ensures
        r == classified(
            match order {
                Some(order) => Some(*order),
                None => None,
            },
        ),
{
    match order {
        Some(order) => if order.size_matched > Decimal::zero() {
            HedgeVerificationState::VerifiedFilled
        } else {
            HedgeVerificationState::VerifiedZeroFill
        },
        None => HedgeVerificationState::Unknown,
    }
}

pub open spec fn lookup_label(status: OrderStatus) -> Seq<char> {
    match status {
        OrderStatus::Matched => "matched"@,
        OrderStatus::Live | OrderStatus::Delayed => "live"@,
        OrderStatus::Cancelled => "cancelled"@,
        OrderStatus::Invalid => "invalid"@,
    }
}

/// The name under which a status is reported: a delayed order counts as live.
pub fn hedge_lookup_status_label(status: OrderStatus) -> (r: String)
    ensures
        r@ == lookup_label(status),
{
    match status {
        OrderStatus::Matched => "matched".to_owned(),
        OrderStatus::Live | OrderStatus::Delayed => "live".to_owned(),
        OrderStatus::Cancelled => "cancelled".to_owned(),
        OrderStatus::Invalid => "invalid".to_owned(),
    }
}

/// What has to be done first for a hedge.
#[derive(Debug)]
pub enum HedgeAction {
    /// Nothing can be placed.
    Finish(HedgeResult),
    /// Place this order, and cancel what rests of it half a second later.
    PlaceBuy(OrderRequest),
    /// Place this order.
    PlaceSell(OrderRequest),
}

/// What follows the placement of a hedge buy.
#[derive(Debug)]
pub enum BuyFollowUp {
    Finish(HedgeResult),
    /// Wait, cancel the order, then look it up.
    CancelAndLookUp(OrderResult),
}

/// Size and limit price of the order for a hedge.
pub open spec fn hedge_terms(intent: HedgeIntent, resolution: Option<HedgeResolution>) -> (int, int) {
    match resolution {
        Some(res) => (whole_cents(res.hedge_shares@), res.hedge_limit_price@),
        None => (whole_cents(intent.fill_size@), 99 * cent()),
    }
}

/// `request` asks for `size` shares of the hedge token of `intent`.
pub open spec fn asks_for(
    request: OrderRequest,
    intent: HedgeIntent,
    side: Side,
    order_type: OrderType,
    price: int,
    size: int,
) -> bool {
    &&& request.token_id@ == intent.hedge_token_id@
    &&& request.price@ == price
    &&& request.size@ == size
    &&& request.amount_kind == OrderAmountKind::Shares
    &&& request.side == side
    &&& request.order_type == order_type
    &&& !request.post_only
    &&& request.neg_risk == intent.neg_risk
    &&& request.tick_size@ == intent.tick_size@
}

/// The token that offsets a fill, the opposite one, and the side on which it is traded.
pub open spec fn hedge_params(leg: QuoteLeg, yes_token_id: Seq<char>, no_token_id: Seq<char>) -> (
    Seq<char>,
    Side,
) {
    (
        if leg == QuoteLeg::YesBid || leg == QuoteLeg::YesAsk {
            no_token_id
        } else {
            yes_token_id
        },
        if leg.bids() {
            Side::Buy
        } else {
            Side::Sell
        },
    )
}

/// What has to be done first for an offsetting hedge.
pub open spec fn begins_hedge(
    r: HedgeAction,
    intent: HedgeIntent,
    resolution: Option<HedgeResolution>,
) -> bool {
    let terms = hedge_terms(intent, resolution);
    if terms.0 <= 0 {
        r matches HedgeAction::Finish(result) && result.says(
            intent,
            false,
            None,
            None,
            Some("Hedge size rounded to zero"@),
            HedgeVerificationState::VerifiedZeroFill,
            metadata_of_trades(Seq::empty()),
        )
    } else if intent.hedge_side == Side::Buy {
        r matches HedgeAction::PlaceBuy(request) && asks_for(
            request,
            intent,
            Side::Buy,
            OrderType::GTC,
            terms.1,
            terms.0,
        )
    } else {
        r matches HedgeAction::PlaceSell(request) && asks_for(
            request,
            intent,
            Side::Sell,
            OrderType::FOK,
            cent(),
            terms.0,
        )
    }
}

/// Decides on offsetting hedges when fills occur on resting orders.
pub struct HedgeExecutor {}

impl HedgeExecutor {
    /// What has to be done first for an offsetting hedge.
    ///
    /// When `resolution` is provided, uses the book-aware limit price and size.
    /// When `None`, falls back to the hardcoded $0.99 limit price.
    pub fn execute_hedge(intent: &HedgeIntent, resolution: Option<&HedgeResolution>) -> (r:
        HedgeAction)
        requires
            resolution is None ==> cuttable(intent.fill_size@),
            resolution is Some ==> cuttable(resolution->0.hedge_shares@),
        ensures
            begins_hedge(
                r,
                *intent,
                match resolution {
                    Some(res) => Some(*res),
                    None => None,
                },
            ),
    {
        let (hedge_size, buy_limit) = match resolution {
            Some(res) => (normalize_share_size(res.hedge_shares), res.hedge_limit_price),
            None => (normalize_share_size(intent.fill_size), buy_hedge_limit_price()),
        };
        if hedge_size <= Decimal::zero() {
            return HedgeAction::Finish(
                HedgeResult {
                    intent: intent.clone(),
                    success: false,
                    order_result: None,
                    hedge_price: None,
                    failure_reason: Some("Hedge size rounded to zero".to_owned()),
                    verification_state: HedgeVerificationState::VerifiedZeroFill,
                    verification_metadata: HedgeVerificationMetadata::default(),
                },
            );
        }
        match intent.hedge_side {
            Side::Buy => HedgeAction::PlaceBuy(
                hedge_request(intent, Side::Buy, OrderType::GTC, buy_limit, hedge_size),
            ),
            Side::Sell => HedgeAction::PlaceSell(
                hedge_request(
                    intent,
                    Side::Sell,
                    OrderType::FOK,
                    sell_hedge_limit_price(),
                    hedge_size,
                ),
            ),
        }
    }

    /// Determine the hedge parameters for a given fill leg and market: the opposite token, bought
    /// after a bid filled and sold after an ask filled.
    pub fn compute_hedge_params(leg: QuoteLeg, yes_token_id: &str, no_token_id: &str) -> (r: (
        String,
        Side,
    ))
        ensures
            (r.0@, r.1) == hedge_params(leg, yes_token_id@, no_token_id@),
    {
        match leg {
            QuoteLeg::YesBid => (no_token_id.to_owned(), Side::Buy),
            QuoteLeg::YesAsk => (no_token_id.to_owned(), Side::Sell),
            QuoteLeg::NoBid => (yes_token_id.to_owned(), Side::Buy),
            QuoteLeg::NoAsk => (yes_token_id.to_owned(), Side::Sell),
        }
    }

    /// What follows the answer to the placement of a hedge buy at `hedge_price`.
    pub fn buy_placed(
        intent: &HedgeIntent,
        hedge_price: Decimal,
        placement: Result<OrderResult, String>,
    ) -> (r: BuyFollowUp)
        ensures
            match placement {
                Ok(result) => if result.order_id@.len() == 0 {
                    r matches BuyFollowUp::Finish(done) && done.says(
                        *intent,
                        false,
                        Some(result),
                        Some(hedge_price@),
                        Some("Aggressive hedge buy returned no order_id for cancellation"@),
                        HedgeVerificationState::VerifiedZeroFill,
                        metadata_of_trades(result.trade_ids@),
                    )
                } else {
                    r == BuyFollowUp::CancelAndLookUp(result)
                },
                Err(error) => r matches BuyFollowUp::Finish(done) && done.says(
                    *intent,
                    false,
                    None,
                    Some(hedge_price@),
                    Some("Order placement failed: "@ + error@),
                    HedgeVerificationState::VerifiedZeroFill,
                    metadata_of_trades(Seq::empty()),
                ),
            },
    {
        match placement {
            Ok(result) => {
                if result.order_id.as_str().is_empty() {
                    let verification_metadata = HedgeVerificationMetadata::with_trade_ids(
                        Some(&result),
                    );
                    BuyFollowUp::Finish(
                        HedgeResult {
                            intent: intent.clone(),
                            success: false,
                            order_result: Some(result),
                            hedge_price: Some(hedge_price),
                            failure_reason: Some(
                                "Aggressive hedge buy returned no order_id for cancellation".to_owned(),
                            ),
                            verification_state: HedgeVerificationState::VerifiedZeroFill,
                            verification_metadata,
                        },
                    )
                } else {
                    BuyFollowUp::CancelAndLookUp(result)
                }
            },
            Err(error) => BuyFollowUp::Finish(placement_failed(intent, hedge_price, error.as_str())),
        }
    }

    /// The result of a hedge buy, once its remainder was cancelled and the order looked up. An
    /// order that cannot be looked up may have filled: that counts as success until the positions
    /// show otherwise.
    pub fn execute_buy_gtc_cancel(
        intent: &HedgeIntent,
        hedge_price: Decimal,
        result: OrderResult,
        cancel: Result<CancelOrderOutcome, String>,
        lookup: Result<Option<LiveOrder>, String>,
    ) -> (r: HedgeResult)
        ensures
            r.says(
                *intent,
                lookup_state(lookup) != HedgeVerificationState::VerifiedZeroFill,
                Some(result),
                Some(hedge_price@),
                match lookup_state(lookup) {
                    HedgeVerificationState::VerifiedFilled => None,
                    HedgeVerificationState::Unknown => Some(
                        "Hedge fill could not be verified after cancel; awaiting position confirmation"@,
                    ),
                    HedgeVerificationState::VerifiedZeroFill => Some(
                        "GTC hedge cancelled with zero fills"@,
                    ),
                },
                lookup_state(lookup),
                verified_metadata(result, cancel, lookup),
            ),
    {
        let mut metadata = HedgeVerificationMetadata::with_trade_ids(Some(&result));
        match cancel {
            Ok(CancelOrderOutcome::Confirmed) => {
                metadata.cancel_status = Some("confirmed".to_owned());
            },
            Ok(CancelOrderOutcome::Rejected(reason)) => {
                metadata.cancel_status = Some("rejected".to_owned());
                metadata.cancel_reason = Some(reason);
            },
            Ok(CancelOrderOutcome::Unknown(reason)) => {
                metadata.cancel_status = Some("unknown".to_owned());
                metadata.cancel_reason = Some(reason);
            },
            Err(error) => {
                metadata.cancel_status = Some("unknown".to_owned());
                metadata.cancel_reason = Some(error);
            },
        }
        let verification_state = match lookup {
            Ok(Some(order)) => {
                metadata.lookup_status = Some(hedge_lookup_status_label(order.status));
                metadata.lookup_matched_shares = Some(order.size_matched);
                classify_buy_hedge_verification(Some(&order))
            },
            Ok(None) => {
                metadata.lookup_status = Some("missing".to_owned());
                HedgeVerificationState::Unknown
            },
            Err(error) => {
                metadata.lookup_status = Some("error".to_owned());
                metadata.lookup_error = Some(error);
                HedgeVerificationState::Unknown
            },
        };
        let failure_reason = match verification_state {
            HedgeVerificationState::VerifiedFilled => None,
            HedgeVerificationState::Unknown => Some(
                "Hedge fill could not be verified after cancel; awaiting position confirmation".to_owned(),
            ),
            HedgeVerificationState::VerifiedZeroFill => Some(
                "GTC hedge cancelled with zero fills".to_owned(),
            ),
        };
        HedgeResult {
            intent: intent.clone(),
            success: verification_state != HedgeVerificationState::VerifiedZeroFill,
            order_result: Some(result),
            hedge_price: Some(hedge_price),
            failure_reason,
            verification_state,
            verification_metadata: metadata,
        }
    }

    /// The result of a hedge sale, which either filled at once or was not placed.
    pub fn execute_fok_sell(intent: &HedgeIntent, placement: Result<OrderResult, String>) -> (r:
        HedgeResult)
        ensures
            match placement {
                Ok(result) => r.says(
                    *intent,
                    true,
                    Some(result),
                    Some(cent()),
                    None,
                    HedgeVerificationState::VerifiedFilled,
                    metadata_of_trades(result.trade_ids@),
                ),
                Err(error) => r.says(
                    *intent,
                    false,
                    None,
                    Some(cent()),
                    Some("Order placement failed: "@ + error@),
                    HedgeVerificationState::VerifiedZeroFill,
                    metadata_of_trades(Seq::empty()),
                ),
            },
    {
        let hedge_price = sell_hedge_limit_price();
        match placement {
            Ok(result) => {
                let verification_metadata = HedgeVerificationMetadata::with_trade_ids(Some(&result));
                HedgeResult {
                    intent: intent.clone(),
                    success: true,
                    order_result: Some(result),
                    hedge_price: Some(hedge_price),
                    failure_reason: None,
                    verification_state: HedgeVerificationState::VerifiedFilled,
                    verification_metadata,
                }
            },
            Err(error) => placement_failed(intent, hedge_price, error.as_str()),
        }
    }
}

pub open spec fn lookup_state(lookup: Result<Option<LiveOrder>, String>) -> HedgeVerificationState {
    match lookup {
        Ok(order) => classified(order),
        Err(_) => HedgeVerificationState::Unknown,
    }
}

pub open spec fn verified_metadata(
    result: OrderResult,
    cancel: Result<CancelOrderOutcome, String>,
    lookup: Result<Option<LiveOrder>, String>,
) -> MetadataView {
    MetadataView {
        cancel_status: Some(
            match cancel {
                Ok(CancelOrderOutcome::Confirmed) => "confirmed"@,
                Ok(CancelOrderOutcome::Rejected(_)) => "rejected"@,
                _ => "unknown"@,
            },
        ),
        cancel_reason: match cancel {
            Ok(CancelOrderOutcome::Confirmed) => None,
            Ok(CancelOrderOutcome::Rejected(reason)) => Some(reason@),
            Ok(CancelOrderOutcome::Unknown(reason)) => Some(reason@),
            Err(error) => Some(error@),
        },
        lookup_status: Some(
            match lookup {
                Ok(Some(order)) => lookup_label(order.status),
                Ok(None) => "missing"@,
                Err(_) => "error"@,
            },
        ),
        lookup_matched_shares: match lookup {
            Ok(Some(order)) => Some(order.size_matched@),
            _ => None,
        },
        lookup_error: match lookup {
            Err(error) => Some(error@),
            _ => None,
        },
        trade_ids: result.trade_ids@,
    }
}

fn placement_failed(intent: &HedgeIntent, hedge_price: Decimal, error: &str) -> (r: HedgeResult)
    ensures
        r.says(
            *intent,
            false,
            None,
            Some(hedge_price@),
            Some("Order placement failed: "@ + error@),
            HedgeVerificationState::VerifiedZeroFill,
            metadata_of_trades(Seq::empty()),
        ),
{
    HedgeResult {
        intent: intent.clone(),
        success: false,
        order_result: None,
        hedge_price: Some(hedge_price),
        failure_reason: Some(join2("Order placement failed: ", error)),
        verification_state: HedgeVerificationState::VerifiedZeroFill,
        verification_metadata: HedgeVerificationMetadata::default(),
    }
}

fn hedge_request(
    intent: &HedgeIntent,
    side: Side,
    order_type: OrderType,
    price: Decimal,
    size: Decimal,
) -> (r: OrderRequest)
    ensures
        asks_for(r, *intent, side, order_type, price@, size@),
{
    OrderRequest {
        token_id: intent.hedge_token_id.clone(),
        price,
        size,
        amount_kind: OrderAmountKind::Shares,
        side,
        order_type,
        post_only: false,
        neg_risk: intent.neg_risk,
        tick_size: intent.tick_size.clone(),
    }
}

} // verus!
