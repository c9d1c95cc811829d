//! Where a fill is hedged, what that costs, and which quotes it lets stand.

use crate::decimal::{
    abs_value, lemma_exact_product, lemma_exact_product_fits, lemma_exact_quotient,
    lemma_exact_quotient_fits, lemma_representable_bound, mantissa_bound, representable, unit,
};
use crate::models::book::laws::{depth, law_walk_pays_each_level_its_price, paid, quoted_levels};
use crate::models::book::{average_price, first_price, walked};
use crate::models::{OrderBookSnapshot, PriceLevel, QuoteCandidate, QuoteLeg, QuoteStatus};
use crate::strategy::hedgeability::{
    gated, hedge_levels, opposite_book, report_fits, reports_walk, slippage, HedgeabilityReport,
};
use vstd::prelude::*;

verus! {

/// The levels of the other token that undo a fill: what was bought is paired by buying the other
/// token, what was sold by selling it.
pub open spec fn undoing(
    leg: QuoteLeg,
    yes_book: OrderBookSnapshot,
    no_book: OrderBookSnapshot,
) -> Seq<PriceLevel> {
    match leg {
        QuoteLeg::YesBid => no_book.asks@,
        QuoteLeg::YesAsk => no_book.bids@,
        QuoteLeg::NoBid => yes_book.asks@,
        QuoteLeg::NoAsk => yes_book.bids@,
    }
}

/// A report speaks of its candidate and of the other token. It counts the shares to be had there, up
/// to the candidate's, and what they cost level by level; without the shares the hedge is refused.
pub proof fn law_fills_are_hedged_with_the_other_token(
    r: HedgeabilityReport,
    candidate: QuoteCandidate,
    yes_book: OrderBookSnapshot,
    no_book: OrderBookSnapshot,
    max_slippage_bps: crate::decimal::Decimal,
)
    requires
        reports_walk(
            r,
            candidate,
            opposite_book(candidate.leg, yes_book, no_book).token_id@,
            first_price(hedge_levels(candidate.leg, yes_book, no_book)),
            walked(hedge_levels(candidate.leg, yes_book, no_book), candidate.size@),
            max_slippage_bps,
        ),
        quoted_levels(undoing(candidate.leg, yes_book, no_book)),
        0 <= candidate.size@ < mantissa_bound() * 100_000_000_000_000_000_000_000_000,
        candidate.size@ % 100_000_000_000_000_000_000_000_000 == 0,
        paid(undoing(candidate.leg, yes_book, no_book), candidate.size@) < mantissa_bound()
            * 10_000_000_000_000_000_000_000 * unit(),
    ensures
        ({
            let levels = undoing(candidate.leg, yes_book, no_book);
            let there = depth(levels);
            &&& r.condition_id@ == candidate.condition_id@
            &&& r.trigger_leg == candidate.leg
            &&& r.candidate_size == candidate.size
            &&& r.opposite_token_id@ == match candidate.leg {
                QuoteLeg::YesBid => no_book.token_id@,
                QuoteLeg::YesAsk => no_book.token_id@,
                QuoteLeg::NoBid => yes_book.token_id@,
                QuoteLeg::NoAsk => yes_book.token_id@,
            }
            &&& there >= candidate.size@ ==> r.max_hedgeable_size@ == candidate.size@
            &&& there < candidate.size@ ==> r.max_hedgeable_size@ == there && !r.is_approved
            &&& r.opposite_depth_available@ == r.max_hedgeable_size@
            &&& r.estimated_hedge_cost@ * unit() == paid(levels, candidate.size@)
            &&& r.rejection_reason is None == r.is_approved
        }),
{
    law_walk_pays_each_level_its_price(
        undoing(candidate.leg, yes_book, no_book),
        candidate.size@,
    );
}

/// A hedge of enough shares is approved exactly where its average price is no further from the best
/// one, above or below, than the limit in ten-thousandths of the best; the slippage reported is
/// that distance. For figures that decimals hold exactly.
pub proof fn law_slippage_decides(
    r: HedgeabilityReport,
    candidate: QuoteCandidate,
    yes_book: OrderBookSnapshot,
    no_book: OrderBookSnapshot,
    max_slippage_bps: crate::decimal::Decimal,
    average: int,
    ratio: int,
)
    requires
        reports_walk(
            r,
            candidate,
            opposite_book(candidate.leg, yes_book, no_book).token_id@,
            first_price(hedge_levels(candidate.leg, yes_book, no_book)),
            walked(hedge_levels(candidate.leg, yes_book, no_book), candidate.size@),
            max_slippage_bps,
        ),
        r.max_hedgeable_size@ > 0,
        average * r.max_hedgeable_size@ == r.estimated_hedge_cost@ * unit(),
        undoing(candidate.leg, yes_book, no_book).len() > 0,
        undoing(candidate.leg, yes_book, no_book)[0].price@ > 0,
        ratio * undoing(candidate.leg, yes_book, no_book)[0].price@ == abs_value(
            average - undoing(candidate.leg, yes_book, no_book)[0].price@,
        ) * unit(),
        representable(average),
        representable(average - undoing(candidate.leg, yes_book, no_book)[0].price@),
        representable(undoing(candidate.leg, yes_book, no_book)[0].price@ - average),
        representable(ratio),
        representable(10_000 * ratio),
    ensures
        r.weighted_avg_hedge_price@ == average,
        r.slippage_bps@ == 10_000 * ratio,
        10_000 * ratio > max_slippage_bps@ ==> !r.is_approved,
        r.is_approved == (10_000 * ratio <= max_slippage_bps@ && walked(
            undoing(candidate.leg, yes_book, no_book),
            candidate.size@,
        ).remaining <= 0),
        report_fits(
            Some(undoing(candidate.leg, yes_book, no_book)[0].price@),
            walked(undoing(candidate.leg, yes_book, no_book), candidate.size@),
        ),
{
    let best = undoing(candidate.leg, yes_book, no_book)[0].price@;
    let st = walked(undoing(candidate.leg, yes_book, no_book), candidate.size@);
    lemma_exact_quotient(st.cost, st.filled, average);
    lemma_exact_quotient(abs_value(average - best), best, ratio);
    lemma_exact_product(ratio, 10_000 * unit(), 10_000 * ratio);
    lemma_exact_quotient_fits(st.cost, st.filled, average);
    lemma_representable_bound(average - best);
    lemma_exact_quotient_fits(abs_value(average - best), best, ratio);
    lemma_exact_product_fits(ratio, 10_000 * unit(), 10_000 * ratio);
}

/// A report on a quote's hedge never approves the quote. It rejects an approved one exactly where the
/// hedge is refused; it leaves a simulated quote simulated, and a rejected one with the reason it
/// had; and a refusal says why.
pub proof fn law_reports_only_take_away(
    status: QuoteStatus,
    reason: Option<Seq<char>>,
    approved: bool,
    why_not: Option<Seq<char>>,
)
    ensures
        ({
            let (after, says) = gated(status, reason, approved, why_not);
            &&& (after == QuoteStatus::Approved) == (status == QuoteStatus::Approved && approved)
            &&& (after == QuoteStatus::SimulatedOnly) == (status == QuoteStatus::SimulatedOnly)
            &&& approved ==> says == reason
            &&& status == QuoteStatus::Rejected ==> says == reason
            &&& !approved && status != QuoteStatus::Rejected ==> says == why_not
        }),
{
}

} // verus!
