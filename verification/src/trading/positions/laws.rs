//! What the positions hold after a report, and what they cost.

use crate::decimal::{
    decimal_of_text, lemma_six_place_product, lemma_twelve_places_add_up, mantissa_bound, product,
    six_places, unit,
};
use crate::trading::positions::{
    in_stock, last_report, merges_reports, no_of, position_cost, position_cost_fits, with_position,
    yes_of, PositionView, RawPositionView,
};
use vstd::prelude::*;

verus! {

/// Shares times average price of both sides of every position, in square units.
pub open spec fn locked(s: Seq<PositionView>) -> int
    decreases s.len(),
{
    if s.len() == 0 {
        0
    } else {
        locked(s.drop_first()) + s[0].yes_size * s[0].avg_yes_price + s[0].no_size
            * s[0].avg_no_price
    }
}

pub open spec fn plain_position(p: PositionView) -> bool {
    &&& six_places(p.yes_size) && six_places(p.avg_yes_price)
    &&& six_places(p.no_size) && six_places(p.avg_no_price)
}

proof fn lemma_locked_last(s: Seq<PositionView>)
    requires
        s.len() > 0,
    ensures
        locked(s) == locked(s.drop_last()) + s.last().yes_size * s.last().avg_yes_price
            + s.last().no_size * s.last().avg_no_price,
    decreases s.len(),
{
    if s.len() == 1 {
        assert(locked(s.drop_first()) == 0);
        assert(locked(s.drop_last()) == 0);
    } else {
        lemma_locked_last(s.drop_first());
        assert(s.drop_first().drop_last() =~= s.drop_last().drop_first());
        assert(s.drop_first().last() == s.last());
        let t = s.drop_last();
        assert(t[0] == s[0]);
        assert(locked(t) == locked(t.drop_first()) + t[0].yes_size * t[0].avg_yes_price
            + t[0].no_size * t[0].avg_no_price);
    }
}

proof fn lemma_cost(s: Seq<PositionView>)
    requires
        forall|i: int| 0 <= i < s.len() ==> plain_position(#[trigger] s[i]),
        locked(s) < mantissa_bound() * 10_000_000_000_000_000 * unit(),
    ensures
        position_cost(s) * unit() == locked(s),
        position_cost_fits(s),
        position_cost(s) >= 0,
        position_cost(s) % 10_000_000_000_000_000 == 0,
    decreases s.len(),
{
    if s.len() > 0 {
        let rest = s.drop_last();
        let p = s[s.len() - 1];
        assert(plain_position(p));
        assert forall|i: int| 0 <= i < rest.len() implies plain_position(#[trigger] rest[i]) by {
            assert(rest[i] == s[i]);
        }
        lemma_locked_last(s);
        assert(p.yes_size * p.avg_yes_price >= 0) by (nonlinear_arith)
            requires
                p.yes_size >= 0,
                p.avg_yes_price >= 0,
        ;
        assert(p.no_size * p.avg_no_price >= 0) by (nonlinear_arith)
            requires
                p.no_size >= 0,
                p.avg_no_price >= 0,
        ;
        lemma_locked_positive(rest);
        lemma_cost(rest);
        lemma_six_place_product(p.yes_size, p.avg_yes_price);
        lemma_six_place_product(p.no_size, p.avg_no_price);
        let yes = product(p.yes_size, p.avg_yes_price);
        let no = product(p.no_size, p.avg_no_price);
        let before = position_cost(rest);
        assert((before + yes + no) * unit() == locked(s));
        lemma_twelve_places_add_up(before, yes);
        lemma_twelve_places_add_up(before + yes, no);
    }
}

proof fn lemma_locked_positive(s: Seq<PositionView>)
    requires
        forall|i: int| 0 <= i < s.len() ==> plain_position(#[trigger] s[i]),
    ensures
        locked(s) >= 0,
    decreases s.len(),
{
    if s.len() > 0 {
        let rest = s.drop_first();
        let p = s[0];
        assert(plain_position(p));
        assert forall|i: int| 0 <= i < rest.len() implies plain_position(#[trigger] rest[i]) by {
            assert(rest[i] == s[i + 1]);
        }
        lemma_locked_positive(rest);
        assert(p.yes_size * p.avg_yes_price >= 0) by (nonlinear_arith)
            requires
                p.yes_size >= 0,
                p.avg_yes_price >= 0,
        ;
        assert(p.no_size * p.avg_no_price >= 0) by (nonlinear_arith)
            requires
                p.no_size >= 0,
                p.avg_no_price >= 0,
        ;
    }
}

/// Positions lock in what their shares cost on average: for numbers of up to six places, exactly the
/// YES shares at the average YES price and the NO shares at the average NO price, over all markets.
pub proof fn law_positions_cost_their_average_prices(s: Seq<PositionView>)
    requires
        forall|i: int| 0 <= i < s.len() ==> plain_position(#[trigger] s[i]),
        locked(s) < mantissa_bound() * 10_000_000_000_000_000 * unit(),
    ensures
        position_cost(s) * unit() == locked(s),
        position_cost_fits(s),
{
    lemma_cost(s);
}

proof fn lemma_last_report(
    s: Seq<RawPositionView>,
    p: spec_fn(RawPositionView) -> bool,
    k: int,
)
    requires
        0 <= k < s.len(),
        p(s[k]),
        forall|i: int| k < i < s.len() ==> !p(#[trigger] s[i]),
    ensures
        last_report(s, p) == Some(s[k]),
    decreases s.len(),
{
    if k < s.len() - 1 {
        assert(!p(s[s.len() - 1]));
        let t = s.drop_last();
        assert forall|i: int| k < i < t.len() implies !p(#[trigger] t[i]) by {
            assert(t[i] == s[i]);
        }
        lemma_last_report(t, p, k);
    }
}

proof fn lemma_no_report(s: Seq<RawPositionView>, p: spec_fn(RawPositionView) -> bool)
    requires
        forall|i: int| 0 <= i < s.len() ==> !p(#[trigger] s[i]),
    ensures
        last_report(s, p) is None,
    decreases s.len(),
{
    if s.len() > 0 {
        assert(!p(s[s.len() - 1]));
        let t = s.drop_last();
        assert forall|i: int| 0 <= i < t.len() implies !p(#[trigger] t[i]) by {
            assert(t[i] == s[i]);
        }
        lemma_no_report(t, p);
    }
}

/// The report is of shares of that outcome, written with a capital or in capitals.
pub open spec fn reports_outcome(r: RawPositionView, id: Seq<char>, yes: bool) -> bool {
    &&& r.condition_id == Some(id)
    &&& yes ==> r.outcome == Some("Yes"@) || r.outcome == Some("YES"@)
    &&& !yes ==> r.outcome == Some("No"@) || r.outcome == Some("NO"@)
}

proof fn lemma_outcomes_differ()
    ensures
        "Yes"@ != "No"@ && "Yes"@ != "NO"@ && "YES"@ != "No"@ && "YES"@ != "NO"@,
{
    reveal_strlit("Yes");
    reveal_strlit("YES");
    reveal_strlit("No");
    reveal_strlit("NO");
    assert("Yes"@.len() == 3 && "YES"@.len() == 3 && "No"@.len() == 2 && "NO"@.len() == 2);
}

/// After a report of positions, a market holds on each side the shares, and has paid the price, that
/// the last report of that side says, as far as its texts are numbers.
pub proof fn law_last_report_of_a_side_stands(
    p: Seq<PositionView>,
    s: Seq<RawPositionView>,
    id: Seq<char>,
    yes: bool,
    at: int,
    k: int,
)
    requires
        merges_reports(p, s),
        0 <= at < p.len(),
        p[at].condition_id == id,
        0 <= k < s.len(),
        reports_outcome(s[k], id, yes),
        forall|i: int| k < i < s.len() ==> !reports_outcome(#[trigger] s[i], id, yes),
    ensures
        ({
            let (size, price) = if yes {
                (p[at].yes_size, p[at].avg_yes_price)
            } else {
                (p[at].no_size, p[at].avg_no_price)
            };
            &&& s[k].size is Some && decimal_of_text(s[k].size->0) is Some ==> Some(size)
                == decimal_of_text(s[k].size->0)
            &&& (s[k].size is None || decimal_of_text(s[k].size->0) is None) ==> size == 0
            &&& s[k].avg_price is Some && decimal_of_text(s[k].avg_price->0) is Some ==> Some(price)
                == decimal_of_text(s[k].avg_price->0)
            &&& (s[k].avg_price is None || decimal_of_text(s[k].avg_price->0) is None) ==> price
                == 0
        }),
{
    lemma_outcomes_differ();
    if yes {
        assert forall|i: int| k < i < s.len() implies !yes_of(id)(#[trigger] s[i]) by {
            assert(!reports_outcome(s[i], id, yes));
        }
        lemma_last_report(s, yes_of(id), k);
    } else {
        assert forall|i: int| k < i < s.len() implies !no_of(id)(#[trigger] s[i]) by {
            assert(!reports_outcome(s[i], id, yes));
        }
        lemma_last_report(s, no_of(id), k);
    }
}

/// A side that no report speaks of holds nothing.
pub proof fn law_unreported_sides_are_empty(
    p: Seq<PositionView>,
    s: Seq<RawPositionView>,
    id: Seq<char>,
    yes: bool,
    at: int,
)
    requires
        merges_reports(p, s),
        0 <= at < p.len(),
        p[at].condition_id == id,
        forall|i: int| 0 <= i < s.len() ==> !reports_outcome(#[trigger] s[i], id, yes),
    ensures
        yes ==> p[at].yes_size == 0 && p[at].avg_yes_price == 0,
        !yes ==> p[at].no_size == 0 && p[at].avg_no_price == 0,
{
    lemma_outcomes_differ();
    if yes {
        assert forall|i: int| 0 <= i < s.len() implies !yes_of(id)(#[trigger] s[i]) by {
            assert(!reports_outcome(s[i], id, yes));
        }
        lemma_no_report(s, yes_of(id));
    } else {
        assert forall|i: int| 0 <= i < s.len() implies !no_of(id)(#[trigger] s[i]) by {
            assert(!reports_outcome(s[i], id, yes));
        }
        lemma_no_report(s, no_of(id));
    }
}

/// After a position was set, so many shares of an outcome are in stock exactly where it holds them. A
/// market without a position has none, nor has any an outcome that is neither.
pub proof fn law_stock_is_what_was_set(
    s: Seq<PositionView>,
    p: PositionView,
    other: Seq<char>,
    size: int,
)
    ensures
        in_stock(with_position(s, p), p.condition_id, "YES"@, size) == (p.yes_size >= size),
        in_stock(with_position(s, p), p.condition_id, "NO"@, size) == (p.no_size >= size),
        other != "YES"@ && other != "NO"@ ==> !in_stock(s, p.condition_id, other, size),
        !in_stock(Seq::empty(), p.condition_id, other, size),
{
    lemma_outcomes_differ();
    crate::trading::positions::law_updated_position_is_read(s, p, p.condition_id);
    crate::keyed::lemma_not_found(
        Seq::<PositionView>::empty(),
        crate::trading::positions::position_with_id(p.condition_id),
    );
}

} // verus!
