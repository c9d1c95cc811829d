//! When exposure halts a market, and which orders there is money for.

use crate::decimal::{abs_value, difference, representable, Decimal};
use crate::text::count_chars;
use crate::trading::risk::RiskView;
use vstd::prelude::*;

verus! {

/// The exposure of a market is how far its YES and NO shares are apart. It counts as unhedged from
/// the first time that it is seen beyond the tolerance, until it is seen within it. Nothing else
/// changes, in this market or another.
pub proof fn law_exposure_counts_from_its_start(
    v: RiskView,
    id: Seq<char>,
    other: Seq<char>,
    yes: int,
    no: int,
    tolerance: int,
    now: int,
)
    requires
        representable(yes - no),
        other != id,
    ensures
        ({
            let w = v.exposure_seen(id, abs_value(difference(yes, no)), tolerance, now);
            let known = v.markets.contains_key(id);
            let apart = if yes >= no {
                yes - no
            } else {
                no - yes
            };
            &&& w.markets.contains_key(id)
            &&& w.markets[id].total_exposure == apart
            &&& apart <= tolerance ==> w.markets[id].unhedged_since is None
            &&& apart > tolerance && (!known || v.markets[id].unhedged_since is None)
                ==> w.markets[id].unhedged_since == Some(now)
            &&& apart > tolerance && known && v.markets[id].unhedged_since is Some
                ==> w.markets[id].unhedged_since == v.markets[id].unhedged_since
            &&& known ==> w.markets[id].halted == v.markets[id].halted && w.markets[id].halt_reason
                == v.markets[id].halt_reason
            &&& !known ==> !w.markets[id].halted && w.markets[id].halt_reason is None
            &&& w.markets.contains_key(other) == v.markets.contains_key(other)
            &&& w.markets.contains_key(other) ==> w.markets[other] == v.markets[other]
            &&& w.global_halt == v.global_halt && w.cached_balance == v.cached_balance
        }),
{
}

/// A timeout halts exactly the markets whose exposure has lasted longer, and says for how many whole
/// seconds. Those halted before keep their reason, and nothing else changes.
pub proof fn law_lasting_exposure_halts(
    v: RiskView,
    id: Seq<char>,
    timeout_secs: nat,
    now: int,
    lasted: nat,
)
    requires
        v.markets.contains_key(id),
        v.markets[id].unhedged_since matches Some(since) ==> {
            now >= since ==> lasted * 1_000_000_000 <= now - since < (lasted + 1) * 1_000_000_000
        },
    ensures
        ({
            let w = v.timeouts_checked(timeout_secs as int, now);
            let before = v.markets[id];
            let after = w.markets[id];
            let late = before.unhedged_since is Some && now - before.unhedged_since->0
                > timeout_secs * 1_000_000_000;
            &&& w.markets.dom() == v.markets.dom()
            &&& after.halted == (before.halted || late)
            &&& before.halted || !late ==> after == before
            &&& !before.halted && late ==> after.halt_reason == Some(
                "Unhedged exposure for "@ + count_chars(lasted) + "s exceeds timeout "@
                    + count_chars(timeout_secs) + "s"@,
            )
            &&& after.unhedged_since == before.unhedged_since
            &&& after.total_exposure == before.total_exposure
            &&& after.condition_id == before.condition_id
            &&& w.global_halt == v.global_halt && w.cached_balance == v.cached_balance
        }),
{
    let w = v.timeouts_checked(timeout_secs as int, now);
    assert(w.markets.dom() =~= v.markets.dom());
    if v.markets[id].unhedged_since is Some {
        let since = v.markets[id].unhedged_since->0;
        if now >= since {
            assert((now - since) / 1_000_000_000 == lasted);
        }
    }
}

/// Exposure beyond the tolerance that is seen twice lasts from the first time: a later check halts the
/// market exactly where more than the timeout has passed since then.
pub proof fn law_exposure_seen_again_goes_on(
    v: RiskView,
    id: Seq<char>,
    first: int,
    again: int,
    tolerance: int,
    timeout_secs: nat,
    start: int,
    later: int,
    end: int,
)
    requires
        !v.markets.contains_key(id),
        first > tolerance,
        again > tolerance,
    ensures
        v.exposure_seen(id, first, tolerance, start).exposure_seen(
            id,
            again,
            tolerance,
            later,
        ).timeouts_checked(timeout_secs as int, end).is_halted(id) == (end - start > timeout_secs
            * 1_000_000_000),
{
}

/// A halt or its end leaves the exposure of the market as it was, and all of the other markets.
pub proof fn law_halts_keep_the_exposure(
    v: RiskView,
    id: Seq<char>,
    other: Seq<char>,
    reason: Seq<char>,
)
    requires
        v.markets.contains_key(id),
        other != id,
    ensures
        ({
            let h = v.halted(id, reason);
            let r = v.resumed(id);
            &&& h.markets[id].unhedged_since == v.markets[id].unhedged_since
            &&& h.markets[id].total_exposure == v.markets[id].total_exposure
            &&& r.markets[id].unhedged_since == v.markets[id].unhedged_since
            &&& r.markets[id].total_exposure == v.markets[id].total_exposure
            &&& h.markets.contains_key(other) == v.markets.contains_key(other)
            &&& r.markets.contains_key(other) == v.markets.contains_key(other)
            &&& v.markets.contains_key(other) ==> h.markets[other] == v.markets[other]
                && r.markets[other] == v.markets[other]
            &&& h.global_halt == v.global_halt && r.global_halt == v.global_halt
        }),
{
}

/// Where a market can be traded, an order that hedges is refused exactly where the balance, the one
/// given or else the one last seen, is less than its cost.
pub proof fn law_hedges_need_the_money(
    v: RiskView,
    id: Seq<char>,
    cost: Decimal,
    given: Decimal,
)
    requires
        !v.global_halt,
        !v.markets.contains_key(id) || !v.markets[id].halted,
    ensures
        v.objection(id, Some(cost), Some(given)) is Some == (given@ < cost@),
        v.objection(id, Some(cost), None) is Some == (v.cached_balance@ < cost@),
        v.objection(id, None, Some(given)) is None,
        v.objection(id, None, None) is None,
{
}

} // verus!
