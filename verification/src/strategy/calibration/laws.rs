//! How feedback on scoring moves the competition multiplier.

use crate::decimal::{lemma_exact_product, lemma_grid_point, pow10, quotient, representable, unit};
use crate::strategy::calibration::{
    adjusted, false_negative, false_positive, least_multiplier, most_multiplier, predicted,
    rate_rounds, rated, tally, Verdict,
};
use vstd::prelude::*;

verus! {

/// How many of the first orders were predicted to score and did not, or the reverse.
pub open spec fn mistaken(s: Seq<Verdict>, prediction: bool) -> nat
    decreases s.len(),
{
    if s.len() == 0 {
        0
    } else {
        mistaken(s.drop_first(), prediction) + if s[0].predicted == prediction && s[0].actual
            != prediction {
            1nat
        } else {
            0nat
        }
    }
}

/// How many of the orders were predicted to score.
pub open spec fn expected_to_score(s: Seq<Verdict>) -> nat
    decreases s.len(),
{
    if s.len() == 0 {
        0
    } else {
        expected_to_score(s.drop_first()) + if s[0].predicted {
            1nat
        } else {
            0nat
        }
    }
}

proof fn lemma_counts(s: Seq<Verdict>)
    ensures
        tally(s, predicted()) == expected_to_score(s),
        tally(s, false_positive()) == mistaken(s, true),
        tally(s, false_negative()) == mistaken(s, false),
        mistaken(s, true) <= expected_to_score(s) <= s.len(),
    decreases s.len(),
{
    if s.len() > 0 {
        lemma_counts(s.drop_first());
        lemma_tally_from_the_front(s, predicted());
        lemma_tally_from_the_front(s, false_positive());
        lemma_tally_from_the_front(s, false_negative());
    }
}

proof fn lemma_tally_from_the_front(s: Seq<Verdict>, v: spec_fn(Verdict) -> bool)
    requires
        s.len() > 0,
    ensures
        tally(s, v) == tally(s.drop_first(), v) + if v(s[0]) {
            1nat
        } else {
            0nat
        },
    decreases s.len(),
{
    if s.len() == 1 {
        assert(tally(s.drop_last(), v) == 0);
        assert(tally(s.drop_first(), v) == 0);
    } else {
        lemma_tally_from_the_front(s.drop_last(), v);
        assert(s.drop_last().drop_first() =~= s.drop_first().drop_last());
        assert(s.drop_first().last() == s.last());
        assert(tally(s.drop_first(), v) == tally(s.drop_first().drop_last(), v) + if v(s.last()) {
            1nat
        } else {
            0nat
        });
        assert(s.drop_last()[0] == s[0]);
    }
}

proof fn lemma_rate(wrong: int, hits: int)
    requires
        0 <= wrong <= hits,
        0 < hits < 4_294_967_296,
        crate::decimal::is_rounding(
            quotient(wrong * unit(), hits * unit()),
            wrong * unit() * unit(),
            hits * unit(),
        ),
    ensures
        quotient(wrong * unit(), hits * unit()) > 3_000_000_000_000_000_000_000_000_000
            <==> 10 * wrong > 3 * hits,
        quotient(wrong * unit(), hits * unit()) < 1_000_000_000_000_000_000_000_000_000
            <==> 10 * wrong < hits,
{
    let u = unit();
    let tenth = 1_000_000_000_000_000_000_000_000_000int;
    assert(pow10(0) == 1);
    lemma_grid_point(3 * tenth, 0);
    lemma_grid_point(3 * tenth + 1, 0);
    lemma_grid_point(tenth, 0);
    lemma_grid_point(tenth - 1, 0);
    assert(10 * wrong > 3 * hits ==> (3 * tenth + 1) * hits <= wrong * u);
    assert(10 * wrong < hits ==> wrong * u <= (tenth - 1) * hits);
    lemma_scaled(3 * tenth + 1, hits, wrong * u);
    lemma_scaled(3 * tenth, hits, wrong * u);
    lemma_scaled(tenth, hits, wrong * u);
    lemma_scaled(tenth - 1, hits, wrong * u);
}

proof fn lemma_scaled(b: int, hits: int, x: int)
    ensures
        b * hits <= x ==> b * (hits * unit()) <= x * unit(),
        x <= b * hits ==> x * unit() <= b * (hits * unit()),
{
    let u = unit();
    assert(b * (hits * u) == (b * hits) * u) by (nonlinear_arith);
    assert(b * hits <= x ==> (b * hits) * u <= x * u) by (nonlinear_arith)
        requires
            u > 0,
    ;
    assert(x <= b * hits ==> x * u <= (b * hits) * u) by (nonlinear_arith)
        requires
            u > 0,
    ;
}

/// The multiplier grows by a fifth where more than three in ten of the orders predicted to score did
/// not. It shrinks by a tenth where fewer than one in ten did not, or none was predicted to, and
/// some order scored against the prediction. Else it stays; and it never leaves one half to five.
pub proof fn law_mistakes_move_the_multiplier(
    multiplier: int,
    raised: int,
    lowered: int,
    s: Seq<Verdict>,
)
    requires
        s.len() < 4_294_967_296,
        rate_rounds(s),
        10 * raised == 12 * multiplier && representable(raised),
        10 * lowered == 9 * multiplier && representable(lowered),
    ensures
        ({
            let next = adjusted(multiplier, s, least_multiplier(), most_multiplier());
            let wrong = mistaken(s, true);
            let missed = mistaken(s, false);
            let hits = expected_to_score(s);
            let goal = if 10 * wrong > 3 * hits {
                raised
            } else if missed > 0 && (hits == 0 || 10 * wrong < hits) {
                lowered
            } else {
                multiplier
            };
            &&& 2 * goal < unit() ==> 2 * next == unit()
            &&& goal > 5 * unit() ==> next == 5 * unit()
            &&& unit() <= 2 * goal && goal <= 5 * unit() ==> next == goal
        }),
{
    lemma_counts(s);
    let wrong = mistaken(s, true);
    let hits = expected_to_score(s);
    if hits > 0 {
        lemma_rate(wrong as int, hits as int);
    }
    let c = crate::decimal::cent();
    assert(multiplier * (120 * c) == raised * unit()) by (nonlinear_arith)
        requires
            10 * raised == 12 * multiplier,
            unit() == 100 * c,
    ;
    assert(multiplier * (90 * c) == lowered * unit()) by (nonlinear_arith)
        requires
            10 * lowered == 9 * multiplier,
            unit() == 100 * c,
    ;
    lemma_exact_product(multiplier, 120 * c, raised);
    lemma_exact_product(multiplier, 90 * c, lowered);
}

} // verus!
