//! Feedback on scoring that corrects the estimate of the competition.

use crate::decimal::{
    abs_value, cent, is_rounding, lemma_pow10_28, max_of, max_value, min_of, pow10, product,
    quotient, unit, Decimal,
};
use crate::time::{utc_now, Timestamp};
use vstd::prelude::*;

pub mod laws;

verus! {

/// Whether an order was scoring, and whether that had been predicted.
#[derive(Debug)]
pub struct CalibrationSample {
    pub condition_id: String,
    pub order_id: String,
    pub predicted_scoring: bool,
    pub actual_scoring: bool,
    pub predicted_share: Decimal,
    pub timestamp: Timestamp,
}

/// A change of the multiplier, and the samples that led to it.
#[derive(Clone, Copy, Debug)]
pub struct CalibrationAdjustment {
    pub old_multiplier: Decimal,
    pub new_multiplier: Decimal,
    pub sample_count: usize,
    pub false_positives: usize,
    pub false_negatives: usize,
}

/// Tracks per-order scoring feedback to calibrate the competition multiplier.
///
/// Whether resting orders are scoring is checked from time to time. By comparing predicted with
/// actual, the competition multiplier is adjusted:
/// - Too many false positives (predicted scoring but not): competition is
///   higher than estimated, the multiplier grows.
/// - False negatives (predicted not scoring but is): the estimate is too pessimistic,
///   the multiplier shrinks.
#[derive(Debug)]
pub struct CalibrationTracker {
    samples: Vec<CalibrationSample>,
    current_multiplier: Decimal,
    min_multiplier: Decimal,
    max_multiplier: Decimal,
    sample_threshold: usize,
}

/// A prediction and what became of it.
pub struct Verdict {
    pub predicted: bool,
    pub actual: bool,
}

pub open spec fn verdicts(s: Seq<CalibrationSample>) -> Seq<Verdict> {
    s.map_values(
        |c: CalibrationSample|
            Verdict { predicted: c.predicted_scoring, actual: c.actual_scoring },
    )
}

/// How many verdicts have this outcome.
pub open spec fn tally(s: Seq<Verdict>, v: spec_fn(Verdict) -> bool) -> nat
    decreases s.len(),
{
    if s.len() == 0 {
        0
    } else {
        tally(s.drop_last(), v) + if v(s.last()) {
            1nat
        } else {
            0nat
        }
    }
}

pub open spec fn predicted() -> spec_fn(Verdict) -> bool {
    |v: Verdict| v.predicted
}

pub open spec fn false_positive() -> spec_fn(Verdict) -> bool {
    |v: Verdict| v.predicted && !v.actual
}

pub open spec fn false_negative() -> spec_fn(Verdict) -> bool {
    |v: Verdict| !v.predicted && v.actual
}

/// A count as it enters the rate: in 32 bits.
pub open spec fn rated(count: nat) -> nat {
    count % 4_294_967_296
}

/// The rate can be worked out: the predicted orders, if any, do not count as none.
pub open spec fn can_be_rated(s: Seq<Verdict>) -> bool {
    tally(s, predicted()) > 0 ==> rated(tally(s, predicted())) > 0
}

/// The multiplier after a set of verdicts: more than thirty percent of false positives raise it by a
/// fifth; less than ten, with false negatives among the rest, lower it by a tenth; it stays between
/// its bounds.
pub open spec fn adjusted(multiplier: int, s: Seq<Verdict>, least: int, most: int) -> int {
    let hits = tally(s, predicted());
    let wrong = tally(s, false_positive());
    let missed = tally(s, false_negative());
    let rate = quotient(rated(wrong) * unit(), rated(hits) * unit());
    let raised = product(multiplier, 120 * cent());
    let lowered = product(multiplier, 90 * cent());
    let next = if hits > 0 {
        if rate > 30 * cent() {
            raised
        } else if rate < 10 * cent() && missed > 0 {
            lowered
        } else {
            multiplier
        }
    } else if missed > 0 {
        lowered
    } else {
        multiplier
    };
    min_of(max_of(next, least), most)
}

/// The rate of false positives is the exact one or a decimal next to it.
pub open spec fn rate_rounds(s: Seq<Verdict>) -> bool {
    tally(s, predicted()) > 0 ==> is_rounding(
        quotient(
            rated(tally(s, false_positive())) * unit(),
            rated(tally(s, predicted())) * unit(),
        ),
        rated(tally(s, false_positive())) * unit() * unit(),
        rated(tally(s, predicted())) * unit(),
    )
}

pub struct TrackerState {
    pub verdicts: Seq<Verdict>,
    pub multiplier: int,
    pub threshold: int,
}

impl View for CalibrationTracker {
    type V = TrackerState;

    closed spec fn view(&self) -> TrackerState {
        TrackerState {
            verdicts: verdicts(self.samples@),
            multiplier: self.current_multiplier@,
            threshold: self.sample_threshold as int,
        }
    }
}

/// A fifth more is not too large for a decimal.
pub open spec fn can_grow(multiplier: int) -> bool {
    6 * abs_value(multiplier) <= 5 * max_value()
}

/// The lower bound of the multiplier.
pub open spec fn least_multiplier() -> int {
    50 * cent()
}

/// The upper bound of the multiplier.
pub open spec fn most_multiplier() -> int {
    500 * cent()
}

proof fn lemma_tally_bounds(s: Seq<Verdict>)
    ensures
        tally(s, false_positive()) <= tally(s, predicted()) <= s.len(),
        tally(s, false_negative()) <= s.len(),
    decreases s.len(),
{
    if s.len() > 0 {
        lemma_tally_bounds(s.drop_last());
    }
}

impl CalibrationTracker {
    pub closed spec fn well_formed(&self) -> bool {
        &&& self.min_multiplier@ == least_multiplier()
        &&& self.max_multiplier@ == most_multiplier()
        &&& self.samples@.len() < self.sample_threshold || self.samples@.len() == 0
    }

    pub fn new(initial_multiplier: Decimal, sample_threshold: usize) -> (r: CalibrationTracker)
        ensures
            r.well_formed(),
            r@.verdicts.len() == 0,
            r@.multiplier == initial_multiplier@,
            r@.threshold == sample_threshold,
    {
        proof {
            lemma_pow10_28();
            reveal_with_fuel(pow10, 29);
        }
        CalibrationTracker {
            samples: Vec::new(),
            current_multiplier: initial_multiplier,
            min_multiplier: Decimal::new(5, 1),
            max_multiplier: Decimal::new(5, 0),
            sample_threshold,
        }
    }

    /// Record a calibration sample and auto-adjust if threshold is reached.
    pub fn record_sample(
        &mut self,
        condition_id: String,
        order_id: String,
        predicted_scoring: bool,
        actual_scoring: bool,
        predicted_share: Decimal,
    ) -> (r: Option<CalibrationAdjustment>)
        requires
            old(self).well_formed(),
            old(self)@.verdicts.len() + 1 >= old(self)@.threshold ==> {
                &&& can_be_rated(
                    old(self)@.verdicts.push(
                        Verdict { predicted: predicted_scoring, actual: actual_scoring },
                    ),
                )
                &&& can_grow(old(self)@.multiplier)
            },
        ensures
            final(self).well_formed(),
            final(self)@.threshold == old(self)@.threshold,
            ({
                let all = old(self)@.verdicts.push(
                    Verdict { predicted: predicted_scoring, actual: actual_scoring },
                );
                let next = adjusted(
                    old(self)@.multiplier,
                    all,
                    least_multiplier(),
                    most_multiplier(),
                );
                if all.len() >= old(self)@.threshold {
                    &&& r matches Some(a) && a.old_multiplier@ == old(self)@.multiplier
                        && a.new_multiplier@ == next && a.sample_count == all.len()
                        && a.false_positives == tally(all, false_positive()) && a.false_negatives
                        == tally(all, false_negative())
                    &&& final(self)@.multiplier == next
                    &&& final(self)@.verdicts.len() == 0
                    &&& rate_rounds(all)
                } else {
                    &&& r is None
                    &&& final(self)@.multiplier == old(self)@.multiplier
                    &&& final(self)@.verdicts == all
                }
            }),
    {
        let ghost before = self@.verdicts;
        let timestamp = utc_now();
        self.samples.push(
            CalibrationSample {
                condition_id,
                order_id,
                predicted_scoring,
                actual_scoring,
                predicted_share,
                timestamp,
            },
        );
        assert(self@.verdicts =~= before.push(
            Verdict { predicted: predicted_scoring, actual: actual_scoring },
        ));
        if self.samples.len() >= self.sample_threshold {
            return self.adjust();
        }
        None
    }

    /// Current competition multiplier (may have been adjusted by calibration).
    pub fn current_multiplier(&self) -> (r: Decimal)
        ensures
            r@ == self@.multiplier,
    {
        self.current_multiplier
    }

    /// Analyze samples and adjust the competition multiplier.
    fn adjust(&mut self) -> (r: Option<CalibrationAdjustment>)
        requires
            old(self).min_multiplier@ == least_multiplier(),
            old(self).max_multiplier@ == most_multiplier(),
            can_grow(old(self).current_multiplier@),
            can_be_rated(old(self)@.verdicts),
        ensures
            final(self).well_formed(),
            final(self)@.threshold == old(self)@.threshold,
            final(self)@.verdicts.len() == 0,
            ({
                let all = old(self)@.verdicts;
                let next = adjusted(
                    old(self)@.multiplier,
                    all,
                    least_multiplier(),
                    most_multiplier(),
                );
                &&& final(self)@.multiplier == next
                &&& rate_rounds(all)
                &&& r matches Some(a) && a.old_multiplier@ == old(self)@.multiplier
                    && a.new_multiplier@ == next && a.sample_count == all.len()
                    && a.false_positives == tally(all, false_positive()) && a.false_negatives
                    == tally(all, false_negative())
            }),
    {
        let ghost all = verdicts(self.samples@);
        let total: usize = self.samples.len();
        let mut predicted_count: usize = 0;
        let mut false_positives: usize = 0;
        let mut false_negatives: usize = 0;
        let mut i: usize = 0;
        assert(all.take(0).len() == 0);
        while i < self.samples.len()
            invariant
                i <= self.samples@.len(),
                all == verdicts(self.samples@),
                predicted_count == tally(all.take(i as int), predicted()),
                false_positives == tally(all.take(i as int), false_positive()),
                false_negatives == tally(all.take(i as int), false_negative()),
                predicted_count <= i,
                false_positives <= i,
                false_negatives <= i,
                *self == *old(self),
            decreases self.samples@.len() - i,
        {
            let sample = &self.samples[i];
            assert(all.take(i + 1).drop_last() =~= all.take(i as int));
            assert(all.take(i + 1).last() == (Verdict {
                predicted: sample.predicted_scoring,
                actual: sample.actual_scoring,
            }));
            if sample.predicted_scoring {
                predicted_count = predicted_count + 1;
                if !sample.actual_scoring {
                    false_positives = false_positives + 1;
                }
            } else if sample.actual_scoring {
                false_negatives = false_negatives + 1;
            }
            i = i + 1;
        }
        proof {
            assert(all.take(i as int) =~= all);
            lemma_tally_bounds(all);
            lemma_pow10_28();
            reveal_with_fuel(pow10, 29);
        }
        let old_multiplier = self.current_multiplier;
        let mut next = old_multiplier;
        if predicted_count > 0 {
            // Counts enter the rate in 32 bits.
            let wrong = Decimal::from_u64(false_positives as u64 % 4_294_967_296);
            let hits = Decimal::from_u64(predicted_count as u64 % 4_294_967_296);
            let fp_rate = wrong.over_whole(hits);
            if fp_rate > Decimal::new(30, 2) {
                // More false positives than expected: competition is underestimated.
                next = scaled(old_multiplier, Decimal::new(12, 1));
            } else if fp_rate < Decimal::new(10, 2) && false_negatives > 0 {
                next = scaled(old_multiplier, Decimal::new(9, 1));
            }
        } else if false_negatives > 0 {
            next = scaled(old_multiplier, Decimal::new(9, 1));
        }
        self.current_multiplier = next.max(self.min_multiplier).min(self.max_multiplier);
        self.samples = Vec::new();
        assert(self@.verdicts =~= Seq::<Verdict>::empty());
        Some(
            CalibrationAdjustment {
                old_multiplier,
                new_multiplier: self.current_multiplier,
                sample_count: total,
                false_positives,
                false_negatives,
            },
        )
    }
}

fn scaled(multiplier: Decimal, factor: Decimal) -> (r: Decimal)
    requires
        can_grow(multiplier@),
        0 <= factor@ <= 120 * cent(),
    ensures
        r@ == product(multiplier@, factor@),
{
    proof {
        let m = multiplier@;
        let f = factor@;
        let a = abs_value(m);
        assert(a * f <= max_value() * unit()) by (nonlinear_arith)
            requires
                0 <= a,
                6 * a <= 5 * max_value(),
                0 <= f <= 120 * cent(),
        ;
        assert(m < 0 ==> m * f == -(a * f)) by (nonlinear_arith)
            requires
                m < 0 ==> a == -m,
        ;
        assert(-max_value() * unit() <= m * f <= max_value() * unit()) by {
            assert(a * f >= 0) by (nonlinear_arith)
                requires
                    a >= 0,
                    f >= 0,
            ;
        }
    }
    multiplier.times(factor)
}

/// Every set of less than 2^32 verdicts can be rated.
pub proof fn law_fewer_samples_can_be_rated(s: Seq<Verdict>)
    requires
        s.len() < 4_294_967_296,
    ensures
        can_be_rated(s),
        rated(tally(s, predicted())) == tally(s, predicted()),
        rated(tally(s, false_positive())) == tally(s, false_positive()),
{
    lemma_tally_bounds(s);
}

/// Whatever the samples, the multiplier ends up between its bounds, where it can always grow.
pub proof fn law_multiplier_keeps_to_bounds(multiplier: int, s: Seq<Verdict>)
    ensures
        least_multiplier() <= adjusted(
            multiplier,
            s,
            least_multiplier(),
            most_multiplier(),
        ) <= most_multiplier(),
        can_grow(adjusted(multiplier, s, least_multiplier(), most_multiplier())),
{
}

} // verus!
