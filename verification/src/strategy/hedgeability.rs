//! Whether a fill could be hedged in the opposite book.

use crate::config::StrategyConfig;
use crate::decimal::{
    difference, difference_fits, product, product_fits, quotient, quotient_fits, unit, value_of,
    Decimal,
};
use crate::models::book::{
    average_fits, average_price, first_price, walk_fits, walked, Walk, WalkState,
};
use crate::models::{OrderBookSnapshot, PriceLevel, QuoteCandidate, QuoteLeg, QuoteStatus};
use crate::text::{clone_opt_text, join2, opt_text};
use vstd::pervasive::unreached;
use vstd::prelude::*;
use vstd::string::*;

pub mod laws;

verus! {

/// How a fill of a candidate could be hedged.
#[derive(Debug)]
pub struct HedgeabilityReport {
    pub condition_id: String,
    pub trigger_leg: QuoteLeg,
    pub candidate_size: Decimal,
    pub opposite_token_id: String,
    pub opposite_depth_available: Decimal,
    pub max_hedgeable_size: Decimal,
    pub weighted_avg_hedge_price: Decimal,
    pub estimated_hedge_cost: Decimal,
    pub slippage_bps: Decimal,
    pub is_approved: bool,
    pub rejection_reason: Option<String>,
}

/// The book in which a fill of the leg is hedged: that of the other token.
pub open spec fn opposite_book(
    leg: QuoteLeg,
    yes_book: OrderBookSnapshot,
    no_book: OrderBookSnapshot,
) -> OrderBookSnapshot {
    if leg == QuoteLeg::YesBid || leg == QuoteLeg::YesAsk {
        no_book
    } else {
        yes_book
    }
}

/// The levels that a hedge takes: asks after a bid filled, bids after an ask filled.
pub open spec fn hedge_levels(
    leg: QuoteLeg,
    yes_book: OrderBookSnapshot,
    no_book: OrderBookSnapshot,
) -> Seq<PriceLevel> {
    let book = opposite_book(leg, yes_book, no_book);
    if leg.bids() {
        book.asks@
    } else {
        book.bids@
    }
}

/// Distance of the average price from the best one, in ten-thousandths of the best one.
pub open spec fn slippage(best: Option<int>, average: int) -> int {
    match best {
        Some(best) => if best > 0 {
            let diff = if average > best {
                difference(average, best)
            } else {
                difference(best, average)
            };
            product(quotient(diff, best), 10_000 * unit())
        } else {
            0
        },
        None => 0,
    }
}

/// The slippage is not too large for a decimal.
pub open spec fn slippage_fits(best: Option<int>, average: int) -> bool {
    best matches Some(best) ==> (best > 0 ==> {
        let diff = if average > best {
            difference(average, best)
        } else {
            difference(best, average)
        };
        &&& if average > best {
            difference_fits(average, best)
        } else {
            difference_fits(best, average)
        }
        &&& quotient_fits(diff, best)
        &&& product_fits(quotient(diff, best), 10_000 * unit())
    })
}

/// Neither the average price nor the slippage is too large for a decimal.
pub open spec fn report_fits(best: Option<int>, st: WalkState) -> bool {
    average_fits(st) && slippage_fits(best, average_price(st))
}

/// Nothing in the report on a hedge is too large for a decimal.
pub open spec fn assessable(levels: Seq<PriceLevel>, size: int) -> bool {
    walk_fits(levels, size) && report_fits(first_price(levels), walked(levels, size))
}

/// The report says what a walk through the levels gives.
pub open spec fn reports_walk(
    r: HedgeabilityReport,
    candidate: QuoteCandidate,
    token_id: Seq<char>,
    best: Option<int>,
    st: WalkState,
    max_slippage_bps: Decimal,
) -> bool {
    let short = st.remaining > 0;
    let slips = slippage(best, average_price(st)) > max_slippage_bps@;
    &&& r.condition_id@ == candidate.condition_id@
    &&& r.trigger_leg == candidate.leg
    &&& r.candidate_size == candidate.size
    &&& r.opposite_token_id@ == token_id
    &&& r.opposite_depth_available@ == st.filled
    &&& r.max_hedgeable_size == r.opposite_depth_available
    &&& r.weighted_avg_hedge_price@ == average_price(st)
    &&& r.estimated_hedge_cost@ == st.cost
    &&& r.slippage_bps@ == slippage(best, average_price(st))
    &&& r.is_approved == (!short && !slips)
    &&& opt_text(r.rejection_reason) == if short {
        Some(
            "Insufficient opposite depth: need "@ + candidate.size.text_spec() + ", available "@
                + r.max_hedgeable_size.text_spec(),
        )
    } else if slips {
        Some(
            "Slippage "@ + r.slippage_bps.text_spec() + " bps exceeds max "@
                + max_slippage_bps.text_spec() + " bps"@,
        )
    } else {
        None
    }
}

fn checked_hedgeability(
    candidate: &QuoteCandidate,
    yes_book: &OrderBookSnapshot,
    no_book: &OrderBookSnapshot,
    config: &StrategyConfig,
) -> (r: Option<HedgeabilityReport>)
    ensures
        r is Some == assessable(
            hedge_levels(candidate.leg, *yes_book, *no_book),
            candidate.size@,
        ),
        r matches Some(report) ==> reports_walk(
            report,
            *candidate,
            opposite_book(candidate.leg, *yes_book, *no_book).token_id@,
            first_price(hedge_levels(candidate.leg, *yes_book, *no_book)),
            walked(hedge_levels(candidate.leg, *yes_book, *no_book), candidate.size@),
            config.max_slippage_bps,
        ),
{
    let (book, use_asks) = match candidate.leg {
        QuoteLeg::YesBid => (no_book, true),
        QuoteLeg::YesAsk => (no_book, false),
        QuoteLeg::NoBid => (yes_book, true),
        QuoteLeg::NoAsk => (yes_book, false),
    };
    let levels = if use_asks {
        &book.asks
    } else {
        &book.bids
    };
    let walk = Walk::through(levels, candidate.size)?;
    let best_price = if levels.len() == 0 {
        None
    } else {
        Some(levels[0].price)
    };
    report_of_walk(candidate, book.token_id.as_str(), best_price, walk, config.max_slippage_bps)
}

/// Compute hedgeability for a quote candidate.
///
/// For a YES BID fill (we bought YES), we hedge by buying NO (walk NO asks).
/// For a YES ASK fill (we sold YES), we hedge by selling NO (walk NO bids).
/// For a NO BID fill (we bought NO), we hedge by buying YES (walk YES asks).
/// For a NO ASK fill (we sold NO), we hedge by selling YES (walk YES bids).
pub fn compute_hedgeability(
    candidate: &QuoteCandidate,
    yes_book: &OrderBookSnapshot,
    no_book: &OrderBookSnapshot,
    config: &StrategyConfig,
) -> (r: HedgeabilityReport)
    requires
        assessable(hedge_levels(candidate.leg, *yes_book, *no_book), candidate.size@),
    ensures
        reports_walk(
            r,
            *candidate,
            opposite_book(candidate.leg, *yes_book, *no_book).token_id@,
            first_price(hedge_levels(candidate.leg, *yes_book, *no_book)),
            walked(hedge_levels(candidate.leg, *yes_book, *no_book), candidate.size@),
            config.max_slippage_bps,
        ),
{
    match checked_hedgeability(candidate, yes_book, no_book, config) {
        Some(report) => report,
        None => unreached(),
    }
}

/// The hedgeability of a candidate, unless some number in it is too large.
pub fn try_compute_hedgeability(
    candidate: &QuoteCandidate,
    yes_book: &OrderBookSnapshot,
    no_book: &OrderBookSnapshot,
    config: &StrategyConfig,
) -> (r: Option<HedgeabilityReport>)
    ensures
        r is Some == assessable(
            hedge_levels(candidate.leg, *yes_book, *no_book),
            candidate.size@,
        ),
        r matches Some(report) ==> reports_walk(
            report,
            *candidate,
            opposite_book(candidate.leg, *yes_book, *no_book).token_id@,
            first_price(hedge_levels(candidate.leg, *yes_book, *no_book)),
            walked(hedge_levels(candidate.leg, *yes_book, *no_book), candidate.size@),
            config.max_slippage_bps,
        ),
{
    if checked_hedgeability(candidate, yes_book, no_book, config).is_some() {
        Some(compute_hedgeability(candidate, yes_book, no_book, config))
    } else {
        None
    }
}

/// What a walk through the opposite book says of a candidate, unless some number is too large.
pub fn report_of_walk(
    candidate: &QuoteCandidate,
    opposite_token_id: &str,
    best_price: Option<Decimal>,
    walk: Walk,
    max_slippage_bps: Decimal,
) -> (r: Option<HedgeabilityReport>)
    ensures
        r is Some == report_fits(value_of(best_price), walk@),
        r matches Some(report) ==> reports_walk(
            report,
            *candidate,
            opposite_token_id@,
            value_of(best_price),
            walk@,
            max_slippage_bps,
        ),
{
    let result = walk.result()?;
    let slippage_bps = checked_slippage(best_price, result.weighted_avg_price)?;
    let mut is_approved = true;
    let mut rejection_reason = None;
    if !result.fully_filled {
        is_approved = false;
        let mut reason = join2(
            "Insufficient opposite depth: need ",
            candidate.size.to_text().as_str(),
        );
        reason.append(", available ");
        reason.append(result.filled_size.to_text().as_str());
        rejection_reason = Some(reason);
    } else if slippage_bps > max_slippage_bps {
        is_approved = false;
        let mut reason = join2("Slippage ", slippage_bps.to_text().as_str());
        reason.append(" bps exceeds max ");
        reason.append(max_slippage_bps.to_text().as_str());
        reason.append(" bps");
        rejection_reason = Some(reason);
    }
    Some(
        HedgeabilityReport {
            condition_id: candidate.condition_id.clone(),
            trigger_leg: candidate.leg,
            candidate_size: candidate.size,
            opposite_token_id: opposite_token_id.to_owned(),
            opposite_depth_available: result.filled_size,
            max_hedgeable_size: result.filled_size,
            weighted_avg_hedge_price: result.weighted_avg_price,
            estimated_hedge_cost: result.total_cost,
            slippage_bps,
            is_approved,
            rejection_reason,
        },
    )
}

fn checked_slippage(best_price: Option<Decimal>, average: Decimal) -> (r: Option<Decimal>)
    ensures
        r is Some == slippage_fits(value_of(best_price), average@),
        r matches Some(bps) ==> bps@ == slippage(value_of(best_price), average@),
{
    let best = match best_price {
        Some(best) => best,
        None => return Some(Decimal::zero()),
    };
    if best <= Decimal::zero() {
        return Some(Decimal::zero());
    }
    let diff = if average > best {
        average.checked_minus(best)?
    } else {
        best.checked_minus(average)?
    };
    diff.checked_over(best)?.checked_times(Decimal::from_u64(10_000))
}

/// A candidate held against its report: one that cannot be hedged is rejected if it was approved,
/// and says why; one rejected before stays as it was.
pub open spec fn gated(
    status: QuoteStatus,
    reason: Option<Seq<char>>,
    approved: bool,
    why_not: Option<Seq<char>>,
) -> (QuoteStatus, Option<Seq<char>>) {
    if status == QuoteStatus::Rejected || approved {
        (status, reason)
    } else {
        (
            if status == QuoteStatus::Approved {
                QuoteStatus::Rejected
            } else {
                status
            },
            why_not,
        )
    }
}

/// Update a quote candidate's status based on its hedgeability report.
pub fn apply_hedgeability_gate(candidate: &mut QuoteCandidate, report: &HedgeabilityReport)
    ensures
        (final(candidate).status, opt_text(final(candidate).reason)) == gated(
            old(candidate).status,
            opt_text(old(candidate).reason),
            report.is_approved,
            opt_text(report.rejection_reason),
        ),
        final(candidate).condition_id == old(candidate).condition_id,
        final(candidate).leg == old(candidate).leg,
        final(candidate).price == old(candidate).price,
        final(candidate).size == old(candidate).size,
{
    if candidate.status == QuoteStatus::Rejected {
        return;
    }
    if !report.is_approved {
        if candidate.status == QuoteStatus::Approved {
            candidate.status = QuoteStatus::Rejected;
        }
        candidate.reason = clone_opt_text(&report.rejection_reason);
    }
}

/// A candidate that stays approved against its report can be hedged in full within the slippage
/// limit.
pub proof fn law_only_hedgeable_quotes_stay(
    r: HedgeabilityReport,
    candidate: QuoteCandidate,
    token_id: Seq<char>,
    best: Option<int>,
    st: WalkState,
    max_slippage_bps: Decimal,
)
    requires
        reports_walk(r, candidate, token_id, best, st, max_slippage_bps),
        gated(
            candidate.status,
            opt_text(candidate.reason),
            r.is_approved,
            opt_text(r.rejection_reason),
        ).0 == QuoteStatus::Approved,
    ensures
        st.remaining <= 0,
        slippage(best, average_price(st)) <= max_slippage_bps@,
        candidate.status == QuoteStatus::Approved,
{
}

} // verus!
