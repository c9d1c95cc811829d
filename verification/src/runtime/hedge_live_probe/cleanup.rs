//! Bringing a market back to where it stood before a probe.
//!
//! The work alternates between looking at the exchange, deciding and acting. Each decision is a
//! function from the state and what was seen to the next state and the next thing to do.

use crate::decimal::{
    abs_value, cent, difference, lemma_pow10_28, max_value, product, product_fits, sum, sum_fits,
    value_of, Decimal,
};
use crate::models::{
    OrderAmountKind, OrderBookSnapshot, OrderRequest, OrderType, Position, QuoteLeg, Side,
};
use crate::runtime::hedge_live_probe::preflight::{best_bid_price, is_highest};
use crate::runtime::hedge_live_probe::trigger::{
    best_known_fill, best_known_trigger_fill_shares, both_can_be_acquired, differ_by_a_decimal,
    fills_can_be_cut, owned_no, owned_on, owned_pairs, owned_yes, probe_owned_no,
    probe_owned_pairs, probe_owned_shares, probe_owned_yes, trigger_summary_has_unconfirmed_fill_evidence,
    unconfirmed_fill, TriggerAcquisitionSummary,
};
use crate::runtime::hedge_live_probe::{
    leg_is_yes, CleanupStatus, HedgeLiveProbeScenario, LiveProbeMarket, LiveProbeRuntimeOptions,
    CLEANUP_VERIFICATION_DELAY_MS,
};
use crate::text::{count_chars, count_text, join2, opt_text};
use crate::trading::hedge_executor::{cuttable, normalize_share_size, whole_cents};
use vstd::prelude::*;
use vstd::string::*;

verus! {

/// How a cleanup ended.
#[derive(Debug)]
pub struct CleanupSummary {
    pub attempted: bool,
    pub attempted_merge: bool,
    pub flatten_orders_placed: u64,
    pub status: Option<CleanupStatus>,
    pub success: bool,
    pub failure_code: Option<String>,
    pub failure_reason: Option<String>,
    pub cleanup_notional_usdc: Decimal,
    pub clean_end_state: bool,
    pub final_yes_size: Option<Decimal>,
    pub final_no_size: Option<Decimal>,
    pub final_direct_yes_size: Option<Decimal>,
    pub final_direct_no_size: Option<Decimal>,
    pub resting_order_count: u64,
}

/// The summary as plain texts and values.
pub struct CleanupSummaryView {
    pub attempted: bool,
    pub attempted_merge: bool,
    pub flatten_orders_placed: int,
    pub status: Option<CleanupStatus>,
    pub success: bool,
    pub failure_code: Option<Seq<char>>,
    pub failure_reason: Option<Seq<char>>,
    pub cleanup_notional_usdc: int,
    pub clean_end_state: bool,
    pub final_yes_size: Option<int>,
    pub final_no_size: Option<int>,
    pub final_direct_yes_size: Option<int>,
    pub final_direct_no_size: Option<int>,
    pub resting_order_count: int,
}

impl View for CleanupSummary {
    type V = CleanupSummaryView;

    open spec fn view(&self) -> CleanupSummaryView {
        CleanupSummaryView {
            attempted: self.attempted,
            attempted_merge: self.attempted_merge,
            flatten_orders_placed: self.flatten_orders_placed as int,
            status: self.status,
            success: self.success,
            failure_code: opt_text(self.failure_code),
            failure_reason: opt_text(self.failure_reason),
            cleanup_notional_usdc: self.cleanup_notional_usdc@,
            clean_end_state: self.clean_end_state,
            final_yes_size: value_of(self.final_yes_size),
            final_no_size: value_of(self.final_no_size),
            final_direct_yes_size: value_of(self.final_direct_yes_size),
            final_direct_no_size: value_of(self.final_direct_no_size),
            resting_order_count: self.resting_order_count as int,
        }
    }
}

/// What does not change during a cleanup: the scenario, the position and the number of open
/// orders before the probe, the tolerance, and what is known of the trigger.
pub struct CleanupContext<'a> {
    pub scenario: &'a HedgeLiveProbeScenario,
    pub baseline: &'a Position,
    pub baseline_open_orders: u64,
    pub tolerance: Decimal,
    pub trigger: &'a TriggerAcquisitionSummary,
}

/// How far a cleanup has come.
#[derive(Debug)]
pub struct CleanupState {
    pub attempted_merge: bool,
    pub merge_succeeded: bool,
    pub flatten_attempted_yes: bool,
    pub flatten_attempted_no: bool,
    pub trigger_recovery_flatten_attempted: bool,
    pub flatten_orders_placed: u64,
    pub cleanup_notional_usdc: Decimal,
    pub failure_code: Option<String>,
    pub failure_reason: Option<String>,
    pub engine_position: Position,
    pub direct_position: Position,
    pub resting_order_count: u64,
}

/// The state as plain texts and values.
pub struct CleanupView {
    pub attempted_merge: bool,
    pub merge_succeeded: bool,
    pub flatten_attempted_yes: bool,
    pub flatten_attempted_no: bool,
    pub recovery_flattened: bool,
    pub placed: int,
    pub notional: int,
    pub failure_code: Option<Seq<char>>,
    pub failure_reason: Option<Seq<char>>,
    pub engine: Position,
    pub direct: Position,
    pub resting: int,
}

impl View for CleanupState {
    type V = CleanupView;

    open spec fn view(&self) -> CleanupView {
        CleanupView {
            attempted_merge: self.attempted_merge,
            merge_succeeded: self.merge_succeeded,
            flatten_attempted_yes: self.flatten_attempted_yes,
            flatten_attempted_no: self.flatten_attempted_no,
            recovery_flattened: self.trigger_recovery_flatten_attempted,
            placed: self.flatten_orders_placed as int,
            notional: self.cleanup_notional_usdc@,
            failure_code: opt_text(self.failure_code),
            failure_reason: opt_text(self.failure_reason),
            engine: self.engine_position,
            direct: self.direct_position,
            resting: self.resting_order_count as int,
        }
    }
}

/// Why the trigger side is sold out of turn.
#[derive(Clone, Copy, Debug, PartialEq, Eq, Structural)]
pub enum RecoveryPhase {
    /// No inventory showed up, but the trigger is known to have filled.
    Recovery,
    /// Inventory of the trigger side showed up.
    Observed,
}

/// What has to be done next.
#[derive(Debug)]
pub enum CleanupStep {
    /// Look again, as long as attempts are left.
    Continue,
    /// Nothing more.
    Finish(CleanupSummary),
    /// Watch whether the market stays clean.
    VerifyStability,
    /// Estimate what selling these shares of the trigger side brings.
    EstimateRecovery(RecoveryPhase, Decimal),
    /// Sell these shares of the trigger side; the sale was estimated at the second figure.
    PlaceRecovery(RecoveryPhase, Decimal, Decimal),
    /// Merge these pairs.
    Merge(Decimal),
    /// Estimate what selling these YES and NO shares brings.
    EstimateFlatten(Decimal, Decimal),
    /// Sell these YES and NO shares; the sales were estimated at the third figure.
    PlaceFlatten(Decimal, Decimal, Decimal),
}

pub enum StepView {
    Continue,
    Finish(CleanupSummaryView),
    VerifyStability,
    EstimateRecovery(RecoveryPhase, int),
    PlaceRecovery(RecoveryPhase, int, int),
    Merge(int),
    EstimateFlatten(int, int),
    PlaceFlatten(int, int, int),
}

impl View for CleanupStep {
    type V = StepView;

    open spec fn view(&self) -> StepView {
        match *self {
            CleanupStep::Continue => StepView::Continue,
            CleanupStep::Finish(s) => StepView::Finish(s@),
            CleanupStep::VerifyStability => StepView::VerifyStability,
            CleanupStep::EstimateRecovery(phase, shares) => StepView::EstimateRecovery(
                phase,
                shares@,
            ),
            CleanupStep::PlaceRecovery(phase, shares, notional) => StepView::PlaceRecovery(
                phase,
                shares@,
                notional@,
            ),
            CleanupStep::Merge(pairs) => StepView::Merge(pairs@),
            CleanupStep::EstimateFlatten(yes, no) => StepView::EstimateFlatten(yes@, no@),
            CleanupStep::PlaceFlatten(yes, no, notional) => StepView::PlaceFlatten(
                yes@,
                no@,
                notional@,
            ),
        }
    }
}

pub open spec fn success_status(merge_succeeded: bool, placed: int) -> Option<CleanupStatus> {
    if placed > 0 {
        Some(CleanupStatus::Flattened)
    } else if merge_succeeded {
        Some(CleanupStatus::Merged)
    } else {
        None
    }
}

pub fn cleanup_success_status(merge_succeeded: bool, flatten_orders_placed: u64) -> (r: Option<
    CleanupStatus,
>)
    ensures
        r == success_status(merge_succeeded, flatten_orders_placed as int),
{
    if flatten_orders_placed > 0 {
        Some(CleanupStatus::Flattened)
    } else if merge_succeeded {
        Some(CleanupStatus::Merged)
    } else {
        None
    }
}

/// The summary of a cleanup that failed with `notional` spent or about to be.
pub open spec fn failed(v: CleanupView, notional: int, code: Seq<char>, reason: Seq<char>) -> CleanupSummaryView {
    CleanupSummaryView {
        attempted: true,
        attempted_merge: v.attempted_merge,
        flatten_orders_placed: v.placed,
        status: None,
        success: false,
        failure_code: Some(code),
        failure_reason: Some(reason),
        cleanup_notional_usdc: notional,
        clean_end_state: false,
        final_yes_size: Some(v.engine.yes_size@),
        final_no_size: Some(v.engine.no_size@),
        final_direct_yes_size: Some(v.direct.yes_size@),
        final_direct_no_size: Some(v.direct.no_size@),
        resting_order_count: v.resting,
    }
}

/// The summary of a cleanup that left the market clean.
pub open spec fn succeeded(v: CleanupView) -> CleanupSummaryView {
    CleanupSummaryView {
        attempted: true,
        attempted_merge: v.attempted_merge,
        flatten_orders_placed: v.placed,
        status: success_status(v.merge_succeeded, v.placed),
        success: true,
        failure_code: None,
        failure_reason: None,
        cleanup_notional_usdc: v.notional,
        clean_end_state: true,
        final_yes_size: Some(v.engine.yes_size@),
        final_no_size: Some(v.engine.no_size@),
        final_direct_yes_size: Some(v.direct.yes_size@),
        final_direct_no_size: Some(v.direct.no_size@),
        resting_order_count: v.resting,
    }
}

pub fn cleanup_failure_summary(
    st: &CleanupState,
    cleanup_notional_usdc: Decimal,
    failure_code: &str,
    failure_reason: String,
) -> (r: CleanupSummary)
    ensures
        r@ == failed(st@, cleanup_notional_usdc@, failure_code@, failure_reason@),
{
    CleanupSummary {
        attempted: true,
        attempted_merge: st.attempted_merge,
        flatten_orders_placed: st.flatten_orders_placed,
        status: None,
        success: false,
        failure_code: Some(failure_code.to_owned()),
        failure_reason: Some(failure_reason),
        cleanup_notional_usdc,
        clean_end_state: false,
        final_yes_size: Some(st.engine_position.yes_size),
        final_no_size: Some(st.engine_position.no_size),
        final_direct_yes_size: Some(st.direct_position.yes_size),
        final_direct_no_size: Some(st.direct_position.no_size),
        resting_order_count: st.resting_order_count,
    }
}

fn success_summary(st: &CleanupState) -> (r: CleanupSummary)
    ensures
        r@ == succeeded(st@),
{
    CleanupSummary {
        attempted: true,
        attempted_merge: st.attempted_merge,
        flatten_orders_placed: st.flatten_orders_placed,
        status: cleanup_success_status(st.merge_succeeded, st.flatten_orders_placed),
        success: true,
        failure_code: None,
        failure_reason: None,
        cleanup_notional_usdc: st.cleanup_notional_usdc,
        clean_end_state: true,
        final_yes_size: Some(st.engine_position.yes_size),
        final_no_size: Some(st.engine_position.no_size),
        final_direct_yes_size: Some(st.direct_position.yes_size),
        final_direct_no_size: Some(st.direct_position.no_size),
        resting_order_count: st.resting_order_count,
    }
}

/// A position is back at the baseline, with no more open orders than before.
pub open spec fn is_clean(
    baseline: Position,
    current: Position,
    baseline_open_orders: int,
    open_orders: int,
    tolerance: int,
) -> bool {
    &&& abs_value(difference(current.yes_size@, baseline.yes_size@)) <= tolerance
    &&& abs_value(difference(current.no_size@, baseline.no_size@)) <= tolerance
    &&& open_orders <= baseline_open_orders
}

pub fn is_clean_against_baseline(
    baseline: &Position,
    current: &Position,
    baseline_open_orders: u64,
    current_open_orders: u64,
    tolerance: Decimal,
) -> (r: bool)
    requires
        differ_by_a_decimal(baseline.yes_size@, current.yes_size@),
        differ_by_a_decimal(baseline.no_size@, current.no_size@),
    ensures
        r == is_clean(
            *baseline,
            *current,
            baseline_open_orders as int,
            current_open_orders as int,
            tolerance@,
        ),
{
    let yes_delta = current.yes_size.minus(baseline.yes_size).abs();
    let no_delta = current.no_size.minus(baseline.no_size).abs();
    yes_delta <= tolerance && no_delta <= tolerance && current_open_orders <= baseline_open_orders
}

/// The trigger may have filled, and nothing has been done about it yet.
pub open spec fn awaits_recovery(ctx: CleanupContext, v: CleanupView) -> bool {
    unconfirmed_fill(ctx.trigger@) && v.placed == 0 && !v.merge_succeeded
}

fn is_awaiting_recovery(ctx: &CleanupContext, st: &CleanupState) -> (r: bool)
    ensures
        r == awaits_recovery(*ctx, st@),
{
    trigger_summary_has_unconfirmed_fill_evidence(ctx.trigger) && st.flatten_orders_placed == 0
        && !st.merge_succeeded
}

pub open spec fn engine_clean(ctx: CleanupContext, v: CleanupView) -> bool {
    is_clean(
        *ctx.baseline,
        v.engine,
        ctx.baseline_open_orders as int,
        v.resting,
        ctx.tolerance@,
    )
}

pub open spec fn direct_clean(ctx: CleanupContext, v: CleanupView) -> bool {
    is_clean(
        *ctx.baseline,
        v.direct,
        ctx.baseline_open_orders as int,
        v.resting,
        ctx.tolerance@,
    )
}

/// The differences of both positions from the baseline can be reckoned, and what the exchange says
/// was acquired can be cut.
pub open spec fn can_be_compared(ctx: CleanupContext, v: CleanupView) -> bool {
    &&& differ_by_a_decimal(ctx.baseline.yes_size@, v.engine.yes_size@)
    &&& differ_by_a_decimal(ctx.baseline.no_size@, v.engine.no_size@)
    &&& both_can_be_acquired(*ctx.baseline, v.direct)
}

/// What a look needs: positions that can be compared, and where the trigger may have filled unseen,
/// shares that can be cut.
pub open spec fn can_be_looked_at(ctx: CleanupContext, v: CleanupView) -> bool {
    can_be_compared(ctx, v) && (awaits_recovery(ctx, v) ==> fills_can_be_cut(ctx.trigger@))
}

/// What was sold so far and a further sale add up to no more than a decimal can hold.
pub open spec fn adds_up(v: CleanupView, step: int) -> bool {
    -max_value() <= v.notional + step <= max_value()
}

/// Before the first look at the exchange.
pub fn start_cleanup(ctx: &CleanupContext) -> (r: CleanupState)
    ensures
        !r.attempted_merge && !r.merge_succeeded && !r.flatten_attempted_yes
            && !r.flatten_attempted_no && !r.trigger_recovery_flatten_attempted,
        r.flatten_orders_placed == 0,
        r.cleanup_notional_usdc@ == 0,
        r.failure_code is None && r.failure_reason is None,
        r.engine_position.yes_size@ == 0 && r.engine_position.no_size@ == 0,
        r.direct_position.yes_size@ == 0 && r.direct_position.no_size@ == 0,
        r.resting_order_count == ctx.baseline_open_orders,
{
    CleanupState {
        attempted_merge: false,
        merge_succeeded: false,
        flatten_attempted_yes: false,
        flatten_attempted_no: false,
        trigger_recovery_flatten_attempted: false,
        flatten_orders_placed: 0,
        cleanup_notional_usdc: Decimal::zero(),
        failure_code: None,
        failure_reason: None,
        engine_position: Position::new(ctx.scenario.market.condition_id.clone()),
        direct_position: Position::new(ctx.scenario.market.condition_id.clone()),
        resting_order_count: ctx.baseline_open_orders,
    }
}

/// Milliseconds to wait before the next look.
pub fn cleanup_poll_delay_ms(
    ctx: &CleanupContext,
    st: &CleanupState,
    options: &LiveProbeRuntimeOptions,
) -> (r: u64)
    ensures
        r == if awaits_recovery(*ctx, st@) {
            options.cleanup_trigger_recovery_poll_ms
        } else {
            CLEANUP_VERIFICATION_DELAY_MS
        },
{
    if is_awaiting_recovery(ctx, st) {
        options.cleanup_trigger_recovery_poll_ms
    } else {
        CLEANUP_VERIFICATION_DELAY_MS
    }
}

/// The look number `attempt` (from zero) failed.
pub fn snapshot_failed(st: &mut CleanupState, attempt: u64, error: &str)
    requires
        attempt < u64::MAX,
    ensures
        final(st)@ == (CleanupView {
            failure_code: Some("cleanup_truth_unconfirmed"@),
            failure_reason: Some(
                "cleanup_truth_unconfirmed: failed to refresh engine/direct truth after "@
                    + count_chars((attempt + 1) as nat) + " verification attempts: "@ + error@,
            ),
            ..old(st)@
        }),
{
    let mut reason =
        "cleanup_truth_unconfirmed: failed to refresh engine/direct truth after ".to_owned();
    reason.append(count_text(attempt + 1).as_str());
    reason.append(" verification attempts: ");
    reason.append(error);
    st.failure_code = Some("cleanup_truth_unconfirmed".to_owned());
    st.failure_reason = Some(reason);
}

/// What the market looks like, in words.
pub open spec fn residue_chars(v: CleanupView, code: Seq<char>, attempts: nat) -> Seq<char> {
    code + ": engine yes/no=("@ + v.engine.yes_size.text_spec() + ","@
        + v.engine.no_size.text_spec() + ") direct yes/no=("@ + v.direct.yes_size.text_spec()
        + ","@ + v.direct.no_size.text_spec() + ") resting_orders="@ + count_chars(
        v.resting as nat,
    ) + " after "@ + count_chars(attempts) + " verification attempts"@
}

fn residue_text(st: &CleanupState, code: &str, attempts: u64) -> (r: String)
    ensures
        r@ == residue_chars(st@, code@, attempts as nat),
{
    let mut r = code.to_owned();
    r.append(": engine yes/no=(");
    r.append(st.engine_position.yes_size.to_text().as_str());
    r.append(",");
    r.append(st.engine_position.no_size.to_text().as_str());
    r.append(") direct yes/no=(");
    r.append(st.direct_position.yes_size.to_text().as_str());
    r.append(",");
    r.append(st.direct_position.no_size.to_text().as_str());
    r.append(") resting_orders=");
    r.append(count_text(st.resting_order_count).as_str());
    r.append(" after ");
    r.append(count_text(attempts).as_str());
    r.append(" verification attempts");
    r
}

/// What is left to sell once merging is out of the question: each side at most once, and only
/// what the direct look at the position shows.
pub open spec fn flatten_decision(ctx: CleanupContext, v: CleanupView) -> StepView {
    let yes = owned_yes(*ctx.baseline, v.direct);
    let no = owned_no(*ctx.baseline, v.direct);
    let yes_now = yes > ctx.tolerance@ && !v.flatten_attempted_yes;
    let no_now = no > ctx.tolerance@ && !v.flatten_attempted_no;
    if v.merge_succeeded && owned_pairs(*ctx.baseline, v.direct) > 0 {
        StepView::Continue
    } else if direct_clean(ctx, v) && !engine_clean(ctx, v) {
        StepView::Continue
    } else if !yes_now && !no_now {
        StepView::Continue
    } else {
        StepView::EstimateFlatten(
            if yes_now {
                yes
            } else {
                0
            },
            if no_now {
                no
            } else {
                0
            },
        )
    }
}

/// What a look that found the market clean leads to.
pub open spec fn clean_decision(ctx: CleanupContext, v: CleanupView, window_active: bool) -> (
    CleanupView,
    StepView,
) {
    if awaits_recovery(ctx, v) {
        if window_active {
            (
                CleanupView {
                    failure_code: Some("cleanup_truth_unconfirmed"@),
                    failure_reason: Some(
                        "cleanup_truth_unconfirmed: awaiting late trigger-side inventory before cleanup can verify the market is flat"@,
                    ),
                    ..v
                },
                StepView::Continue,
            )
        } else {
            match best_known_fill(ctx.trigger@, *ctx.baseline, v.direct, ctx.scenario.trigger.leg) {
                Some(shares) if !v.recovery_flattened => (
                    v,
                    StepView::EstimateRecovery(RecoveryPhase::Recovery, shares),
                ),
                _ => (
                    v,
                    StepView::Finish(
                        failed(
                            v,
                            v.notional,
                            "cleanup_truth_unconfirmed"@,
                            "cleanup_truth_unconfirmed: trigger fill evidence never became numeric enough for out-of-band trigger recovery cleanup"@,
                        ),
                    ),
                ),
            }
        }
    } else if ctx.trigger.order_id is Some {
        (v, StepView::VerifyStability)
    } else {
        (v, StepView::Finish(succeeded(v)))
    }
}

/// What a look that did not find the market clean leads to.
pub open spec fn dirty_decision(
    ctx: CleanupContext,
    v: CleanupView,
    attempt: int,
    window_active: bool,
) -> (CleanupView, StepView) {
    let code = if engine_clean(ctx, v) != direct_clean(ctx, v) {
        "cleanup_truth_disagreed"@
    } else {
        "cleanup_residual_inventory"@
    };
    let w = CleanupView {
        failure_code: Some(code),
        failure_reason: Some(residue_chars(v, code, (attempt + 1) as nat)),
        ..v
    };
    let delta = owned_on(*ctx.baseline, v.direct, ctx.scenario.trigger.leg);
    let pairs = owned_pairs(*ctx.baseline, v.direct);
    if awaits_recovery(ctx, v) && delta > ctx.tolerance@ {
        (w, StepView::EstimateRecovery(RecoveryPhase::Observed, delta))
    } else if awaits_recovery(ctx, v) && window_active {
        (w, StepView::Continue)
    } else if pairs > 0 && !v.attempted_merge {
        (CleanupView { attempted_merge: true, ..w }, StepView::Merge(pairs))
    } else {
        (w, flatten_decision(ctx, w))
    }
}

/// What look number `attempt` (from zero) leads to. `window_active` says that inventory of the
/// trigger may still show up.
pub open spec fn look_decision(
    ctx: CleanupContext,
    v: CleanupView,
    attempt: int,
    window_active: bool,
) -> (CleanupView, StepView) {
    if engine_clean(ctx, v) && direct_clean(ctx, v) {
        clean_decision(ctx, v, window_active)
    } else {
        dirty_decision(ctx, v, attempt, window_active)
    }
}

fn decide_flatten(ctx: &CleanupContext, st: &CleanupState) -> (r: CleanupStep)
    requires
        can_be_compared(*ctx, st@),
    ensures
        r@ == flatten_decision(*ctx, st@),
{
    let pairs = probe_owned_pairs(ctx.baseline, &st.direct_position);
    let yes = probe_owned_yes(ctx.baseline, &st.direct_position);
    let no = probe_owned_no(ctx.baseline, &st.direct_position);
    if st.merge_succeeded && pairs > Decimal::zero() {
        return CleanupStep::Continue;
    }
    let engine_is_clean = is_clean_against_baseline(
        ctx.baseline,
        &st.engine_position,
        ctx.baseline_open_orders,
        st.resting_order_count,
        ctx.tolerance,
    );
    let direct_is_clean = is_clean_against_baseline(
        ctx.baseline,
        &st.direct_position,
        ctx.baseline_open_orders,
        st.resting_order_count,
        ctx.tolerance,
    );
    if direct_is_clean && !engine_is_clean {
        return CleanupStep::Continue;
    }
    let yes_now = yes > ctx.tolerance && !st.flatten_attempted_yes;
    let no_now = no > ctx.tolerance && !st.flatten_attempted_no;
    if !yes_now && !no_now {
        return CleanupStep::Continue;
    }
    CleanupStep::EstimateFlatten(
        if yes_now {
            yes
        } else {
            Decimal::zero()
        },
        if no_now {
            no
        } else {
            Decimal::zero()
        },
    )
}

/// Decides on a fresh look at the market: what the engine says and what the exchange says of the
/// position, and the number of resting orders.
pub fn run_probe_cleanup(
    ctx: &CleanupContext,
    st: &mut CleanupState,
    engine_position: Position,
    direct_position: Position,
    resting_order_count: u64,
    attempt: u64,
    window_active: bool,
) -> (r: CleanupStep)
    requires
        attempt < u64::MAX,
        can_be_looked_at(
            *ctx,
            (CleanupView {
                engine: engine_position,
                direct: direct_position,
                resting: resting_order_count as int,
                ..old(st)@
            }),
        ),
    ensures
        (final(st)@, r@) == look_decision(
            *ctx,
            (CleanupView {
                engine: engine_position,
                direct: direct_position,
                resting: resting_order_count as int,
                ..old(st)@
            }),
            attempt as int,
            window_active,
        ),
{
    st.engine_position = engine_position;
    st.direct_position = direct_position;
    st.resting_order_count = resting_order_count;
    let engine_is_clean = is_clean_against_baseline(
        ctx.baseline,
        &st.engine_position,
        ctx.baseline_open_orders,
        st.resting_order_count,
        ctx.tolerance,
    );
    let direct_is_clean = is_clean_against_baseline(
        ctx.baseline,
        &st.direct_position,
        ctx.baseline_open_orders,
        st.resting_order_count,
        ctx.tolerance,
    );
    let awaiting = is_awaiting_recovery(ctx, st);
    let leg = ctx.scenario.trigger.leg;
    if engine_is_clean && direct_is_clean {
        if awaiting {
            if window_active {
                st.failure_code = Some("cleanup_truth_unconfirmed".to_owned());
                st.failure_reason = Some(
                    "cleanup_truth_unconfirmed: awaiting late trigger-side inventory before cleanup can verify the market is flat".to_owned(),
                );
                return CleanupStep::Continue;
            }
            if !st.trigger_recovery_flatten_attempted {
                match best_known_trigger_fill_shares(
                    ctx.trigger,
                    ctx.baseline,
                    &st.direct_position,
                    leg,
                ) {
                    Some(shares) => {
                        return CleanupStep::EstimateRecovery(RecoveryPhase::Recovery, shares);
                    },
                    None => {},
                }
            }
            return CleanupStep::Finish(
                cleanup_failure_summary(
                    st,
                    st.cleanup_notional_usdc,
                    "cleanup_truth_unconfirmed",
                    "cleanup_truth_unconfirmed: trigger fill evidence never became numeric enough for out-of-band trigger recovery cleanup".to_owned(),
                ),
            );
        }
        if ctx.trigger.order_id.is_some() {
            return CleanupStep::VerifyStability;
        }
        return CleanupStep::Finish(success_summary(st));
    }
    let code = if engine_is_clean != direct_is_clean {
        "cleanup_truth_disagreed"
    } else {
        "cleanup_residual_inventory"
    };
    let reason = residue_text(st, code, attempt + 1);
    st.failure_code = Some(code.to_owned());
    st.failure_reason = Some(reason);
    if awaiting {
        let delta = probe_owned_shares(ctx.baseline, &st.direct_position, leg);
        if delta > ctx.tolerance {
            return CleanupStep::EstimateRecovery(RecoveryPhase::Observed, delta);
        }
        if window_active {
            return CleanupStep::Continue;
        }
    }
    let pairs = probe_owned_pairs(ctx.baseline, &st.direct_position);
    if pairs > Decimal::zero() && !st.attempted_merge {
        st.attempted_merge = true;
        return CleanupStep::Merge(pairs);
    }
    decide_flatten(ctx, st)
}

/// What an attempted merge leads to.
pub open spec fn merge_decision(
    ctx: CleanupContext,
    v: CleanupView,
    outcome: Result<Option<String>, String>,
) -> (CleanupView, StepView) {
    match outcome {
        Ok(Some(_)) => (CleanupView { merge_succeeded: true, ..v }, StepView::Continue),
        Ok(None) => (v, flatten_decision(ctx, v)),
        Err(error) => {
            let w = CleanupView {
                failure_reason: Some("probe merge attempt failed: "@ + error@),
                ..v
            };
            (w, flatten_decision(ctx, w))
        },
    }
}

/// Decides on the outcome of a merge: a transaction id, nothing where merging is not set up, or an
/// error. Without a merge the sides are sold.
pub fn merge_done(
    ctx: &CleanupContext,
    st: &mut CleanupState,
    outcome: Result<Option<String>, String>,
) -> (r: CleanupStep)
    requires
        !(outcome matches Ok(Some(_))) ==> can_be_compared(*ctx, old(st)@),
    ensures
        (final(st)@, r@) == merge_decision(*ctx, old(st)@, outcome),
{
    match outcome {
        Ok(Some(_)) => {
            st.merge_succeeded = true;
            CleanupStep::Continue
        },
        Ok(None) => decide_flatten(ctx, st),
        Err(error) => {
            st.failure_reason = Some(join2("probe merge attempt failed: ", error.as_str()));
            decide_flatten(ctx, st)
        },
    }
}

/// Money that selling shares at the best bids brings.
pub open spec fn sale_value(yes: int, yes_bid: int, no: int, no_bid: int) -> int {
    sum(product(yes, yes_bid), product(no, no_bid))
}

/// `bid` is the best bid of a book, zero where there is none.
pub open spec fn best_bid_or_zero(book: OrderBookSnapshot, bid: int) -> bool {
    if book.bids@.len() == 0 {
        bid == 0
    } else {
        is_highest(book.bids@, bid)
    }
}

/// What the sale brings is not too large for a decimal.
pub open spec fn sale_fits(yes: int, yes_bid: int, no: int, no_bid: int) -> bool {
    &&& product_fits(yes, yes_bid)
    &&& product_fits(no, no_bid)
    &&& sum_fits(product(yes, yes_bid), product(no, no_bid))
}

/// `r` is what selling shares of both sides at the best bids brings, unless that is too large.
pub open spec fn estimates_sale(
    yes_book: OrderBookSnapshot,
    no_book: OrderBookSnapshot,
    yes: int,
    no: int,
    r: Option<Decimal>,
) -> bool {
    exists|yes_bid: int, no_bid: int| #[trigger]
        best_bid_or_zero(yes_book, yes_bid) && #[trigger] best_bid_or_zero(no_book, no_bid) && (
        r is Some == sale_fits(yes, yes_bid, no, no_bid)) && (r matches Some(value) ==> value@
            == sale_value(yes, yes_bid, no, no_bid))
}

fn bid_or_zero(book: &OrderBookSnapshot) -> (r: Decimal)
    ensures
        best_bid_or_zero(*book, r@),
{
    match best_bid_price(book) {
        Some(bid) => bid,
        None => Decimal::zero(),
    }
}

fn checked_sale(yes: Decimal, yes_bid: Decimal, no: Decimal, no_bid: Decimal) -> (r: Option<
    Decimal,
>)
    ensures
        r is Some == sale_fits(yes@, yes_bid@, no@, no_bid@),
        r matches Some(value) ==> value@ == sale_value(yes@, yes_bid@, no@, no_bid@),
{
    let yes_value = yes.checked_times(yes_bid)?;
    let no_value = no.checked_times(no_bid)?;
    yes_value.checked_plus(no_value)
}

/// Estimates what selling shares of both sides brings, unless that is too large.
pub fn estimate_cleanup_notional(
    yes_book: &OrderBookSnapshot,
    no_book: &OrderBookSnapshot,
    delta_yes: Decimal,
    delta_no: Decimal,
) -> (r: Option<Decimal>)
    ensures
        estimates_sale(*yes_book, *no_book, delta_yes@, delta_no@, r),
{
    let yes_bid = bid_or_zero(yes_book);
    let no_bid = bid_or_zero(no_book);
    let r = checked_sale(delta_yes, yes_bid, delta_no, no_bid);
    assert(best_bid_or_zero(*yes_book, yes_bid@) && best_bid_or_zero(*no_book, no_bid@));
    r
}

/// Estimates what selling shares of the trigger side brings, unless that is too large.
pub fn estimate_trigger_side_cleanup_notional(
    yes_book: &OrderBookSnapshot,
    no_book: &OrderBookSnapshot,
    leg: QuoteLeg,
    shares: Decimal,
) -> (r: Option<Decimal>)
    ensures
        if leg_is_yes(leg) {
            estimates_sale(*yes_book, *no_book, shares@, 0, r)
        } else {
            estimates_sale(*yes_book, *no_book, 0, shares@, r)
        },
{
    match leg {
        QuoteLeg::YesBid | QuoteLeg::YesAsk => estimate_cleanup_notional(
            yes_book,
            no_book,
            shares,
            Decimal::zero(),
        ),
        QuoteLeg::NoBid | QuoteLeg::NoAsk => estimate_cleanup_notional(
            yes_book,
            no_book,
            Decimal::zero(),
            shares,
        ),
    }
}

/// The order sells shares at any price, all at once or not at all.
pub open spec fn sells_off(
    r: OrderRequest,
    token_id: Seq<char>,
    size: int,
    market: LiveProbeMarket,
) -> bool {
    &&& r.token_id@ == token_id
    &&& r.price@ == cent()
    &&& r.size@ == whole_cents(size)
    &&& r.amount_kind == OrderAmountKind::Shares
    &&& r.side == Side::Sell
    &&& r.order_type == OrderType::FOK
    &&& !r.post_only
    &&& r.neg_risk == market.neg_risk
    &&& r.tick_size@ == market.tick_size@
}

/// The order that sells shares at any price.
pub fn place_flatten_order(token_id: &str, size: Decimal, market: &LiveProbeMarket) -> (r: OrderRequest)
    requires
        cuttable(size@),
    ensures
        sells_off(r, token_id@, size@, *market),
{
    proof {
        lemma_pow10_28();
    }
    OrderRequest {
        token_id: token_id.to_owned(),
        price: Decimal::new(1, 2),
        size: normalize_share_size(size),
        amount_kind: OrderAmountKind::Shares,
        side: Side::Sell,
        order_type: OrderType::FOK,
        post_only: false,
        neg_risk: market.neg_risk,
        tick_size: market.tick_size.clone(),
    }
}

/// The words of a failure in a sale, by what kind of sale it is.
pub open spec fn estimate_failed_chars(phase: Option<RecoveryPhase>) -> Seq<char> {
    match phase {
        Some(RecoveryPhase::Recovery) =>
        "cleanup_truth_unconfirmed: failed to estimate trigger recovery cleanup notional: "@,
        Some(RecoveryPhase::Observed) =>
        "cleanup_truth_unconfirmed: failed to estimate cleanup notional for observed trigger-side residue: "@,
        None => "cleanup_truth_unconfirmed: failed to estimate cleanup notional: "@,
    }
}

pub open spec fn exceeded_suffix_chars(phase: Option<RecoveryPhase>) -> Seq<char> {
    match phase {
        Some(RecoveryPhase::Recovery) => " during trigger recovery cleanup"@,
        Some(RecoveryPhase::Observed) => " during trigger-side recovery cleanup"@,
        None => ""@,
    }
}

pub open spec fn recovery_failed_chars(phase: RecoveryPhase) -> Seq<char> {
    match phase {
        RecoveryPhase::Recovery =>
        "cleanup_flattened_after_trigger_only: trigger recovery flatten failed: "@,
        RecoveryPhase::Observed =>
        "cleanup_flattened_after_trigger_only: observed trigger-side cleanup flatten failed: "@,
    }
}

/// A sale that would take the cleanup beyond its limit ends it.
pub open spec fn is_exceeded(
    v: CleanupView,
    total: Decimal,
    max: Decimal,
    phase: Option<RecoveryPhase>,
    s: StepView,
) -> bool {
    s == StepView::Finish(
        failed(
            v,
            total@,
            "cleanup_notional_exceeded"@,
            "cleanup_notional_usdc "@ + total.text_spec()
                + " exceeded safety.max_cleanup_notional_usdc "@ + max.text_spec()
                + exceeded_suffix_chars(phase),
        ),
    )
}

/// Holds an estimate against the limit: the end of the cleanup where there is no estimate or it
/// takes the cleanup beyond its limit, else the estimate.
fn check_estimate(
    ctx: &CleanupContext,
    st: &CleanupState,
    phase: Option<RecoveryPhase>,
    estimate: Result<Decimal, String>,
) -> (r: Result<Decimal, CleanupStep>)
    requires
        estimate matches Ok(step) ==> adds_up(st@, step@),
    ensures
        match estimate {
            Err(error) => r is Err && r->Err_0@ == StepView::Finish(
                failed(
                    st@,
                    st@.notional,
                    "cleanup_truth_unconfirmed"@,
                    estimate_failed_chars(phase) + error@,
                ),
            ),
            Ok(step) => {
                let max = ctx.scenario.safety.max_cleanup_notional_usdc;
                if sum(st@.notional, step@) > max@ {
                    r is Err && exists|total: Decimal|
                        total@ == sum(st@.notional, step@) && is_exceeded(
                            st@,
                            total,
                            max,
                            phase,
                            r->Err_0@,
                        )
                } else {
                    r == Ok::<Decimal, CleanupStep>(step)
                }
            },
        },
{
    match estimate {
        Err(error) => {
            let prefix = match phase {
                Some(RecoveryPhase::Recovery) =>
                "cleanup_truth_unconfirmed: failed to estimate trigger recovery cleanup notional: ",
                Some(RecoveryPhase::Observed) =>
                "cleanup_truth_unconfirmed: failed to estimate cleanup notional for observed trigger-side residue: ",
                None => "cleanup_truth_unconfirmed: failed to estimate cleanup notional: ",
            };
            Err(
                CleanupStep::Finish(
                    cleanup_failure_summary(
                        st,
                        st.cleanup_notional_usdc,
                        "cleanup_truth_unconfirmed",
                        join2(prefix, error.as_str()),
                    ),
                ),
            )
        },
        Ok(step) => {
            let total = st.cleanup_notional_usdc.plus(step);
            let max = ctx.scenario.safety.max_cleanup_notional_usdc;
            if total > max {
                let suffix = match phase {
                    Some(RecoveryPhase::Recovery) => " during trigger recovery cleanup",
                    Some(RecoveryPhase::Observed) => " during trigger-side recovery cleanup",
                    None => "",
                };
                let mut reason = "cleanup_notional_usdc ".to_owned();
                reason.append(total.to_text().as_str());
                reason.append(" exceeded safety.max_cleanup_notional_usdc ");
                reason.append(max.to_text().as_str());
                reason.append(suffix);
                let finish = CleanupStep::Finish(
                    cleanup_failure_summary(st, total, "cleanup_notional_exceeded", reason),
                );
                assert(is_exceeded(st@, total, max, phase, finish@));
                Err(finish)
            } else {
                Ok(step)
            }
        },
    }
}

/// What an estimate leads to: the end of the cleanup, or `next` where the estimate is within the
/// limit.
pub open spec fn estimate_decision(
    ctx: CleanupContext,
    v: CleanupView,
    phase: Option<RecoveryPhase>,
    estimate: Result<Decimal, String>,
    next: StepView,
    s: StepView,
) -> bool {
    match estimate {
        Err(error) => s == StepView::Finish(
            failed(
                v,
                v.notional,
                "cleanup_truth_unconfirmed"@,
                estimate_failed_chars(phase) + error@,
            ),
        ),
        Ok(step) => {
            let max = ctx.scenario.safety.max_cleanup_notional_usdc;
            if sum(v.notional, step@) > max@ {
                exists|total: Decimal|
                    total@ == sum(v.notional, step@) && is_exceeded(v, total, max, phase, s)
            } else {
                s == next
            }
        },
    }
}

/// Decides on the estimate for a sale of `shares` of the trigger side.
pub fn recovery_estimated(
    ctx: &CleanupContext,
    st: &CleanupState,
    phase: RecoveryPhase,
    shares: Decimal,
    estimate: Result<Decimal, String>,
) -> (r: CleanupStep)
    requires
        estimate matches Ok(step) ==> adds_up(st@, step@),
    ensures
        estimate_decision(
            *ctx,
            st@,
            Some(phase),
            estimate,
            StepView::PlaceRecovery(
                phase,
                shares@,
                match estimate {
                    Ok(step) => step@,
                    Err(_) => 0,
                },
            ),
            r@,
        ),
{
    match check_estimate(ctx, st, Some(phase), estimate) {
        Ok(step) => CleanupStep::PlaceRecovery(phase, shares, step),
        Err(finish) => finish,
    }
}

/// Decides on the outcome of the sale of the trigger side.
pub fn recovery_placed(
    ctx: &CleanupContext,
    st: &mut CleanupState,
    phase: RecoveryPhase,
    step_notional: Decimal,
    outcome: Result<(), String>,
) -> (r: CleanupStep)
    requires
        adds_up(old(st)@, step_notional@),
        old(st).flatten_orders_placed < u64::MAX,
    ensures
        match outcome {
            Err(error) => {
                &&& final(st)@ == old(st)@
                &&& r@ == StepView::Finish(
                    failed(
                        old(st)@,
                        sum(old(st)@.notional, step_notional@),
                        "cleanup_flatten_failed"@,
                        recovery_failed_chars(phase) + error@,
                    ),
                )
            },
            Ok(_) => {
                &&& final(st)@ == (CleanupView {
                    flatten_attempted_yes: old(st)@.flatten_attempted_yes || leg_is_yes(
                        ctx.scenario.trigger.leg,
                    ),
                    flatten_attempted_no: old(st)@.flatten_attempted_no || !leg_is_yes(
                        ctx.scenario.trigger.leg,
                    ),
                    recovery_flattened: true,
                    placed: old(st)@.placed + 1,
                    notional: sum(old(st)@.notional, step_notional@),
                    ..old(st)@
                })
                &&& r@ == StepView::Continue
            },
        },
{
    let total = st.cleanup_notional_usdc.plus(step_notional);
    match outcome {
        Err(error) => {
            let prefix = match phase {
                RecoveryPhase::Recovery =>
                "cleanup_flattened_after_trigger_only: trigger recovery flatten failed: ",
                RecoveryPhase::Observed =>
                "cleanup_flattened_after_trigger_only: observed trigger-side cleanup flatten failed: ",
            };
            CleanupStep::Finish(
                cleanup_failure_summary(
                    st,
                    total,
                    "cleanup_flatten_failed",
                    join2(prefix, error.as_str()),
                ),
            )
        },
        Ok(_) => {
            match ctx.scenario.trigger.leg {
                QuoteLeg::YesBid | QuoteLeg::YesAsk => {
                    st.flatten_attempted_yes = true;
                },
                QuoteLeg::NoBid | QuoteLeg::NoAsk => {
                    st.flatten_attempted_no = true;
                },
            }
            st.trigger_recovery_flatten_attempted = true;
            st.flatten_orders_placed = st.flatten_orders_placed + 1;
            st.cleanup_notional_usdc = total;
            CleanupStep::Continue
        },
    }
}

/// Decides on the estimate for a sale of both sides.
pub fn flatten_estimated(
    ctx: &CleanupContext,
    st: &CleanupState,
    yes: Decimal,
    no: Decimal,
    estimate: Result<Decimal, String>,
) -> (r: CleanupStep)
    requires
        estimate matches Ok(step) ==> adds_up(st@, step@),
    ensures
        estimate_decision(
            *ctx,
            st@,
            None,
            estimate,
            StepView::PlaceFlatten(
                yes@,
                no@,
                match estimate {
                    Ok(step) => step@,
                    Err(_) => 0,
                },
            ),
            r@,
        ),
{
    match check_estimate(ctx, st, None, estimate) {
        Ok(step) => CleanupStep::PlaceFlatten(yes, no, step),
        Err(finish) => finish,
    }
}

/// The words of a failed sale of one side.
pub open spec fn side_failed_chars(side: crate::models::Outcome) -> Seq<char> {
    match side {
        crate::models::Outcome::Yes =>
        "cleanup_flattened_after_trigger_only: cleanup YES flatten failed: "@,
        crate::models::Outcome::No =>
        "cleanup_flattened_after_trigger_only: cleanup NO flatten failed: "@,
    }
}

/// Decides on the outcome of the sale of one side. The sale of the other side may follow.
pub fn flatten_placed(
    st: &mut CleanupState,
    side: crate::models::Outcome,
    step_notional: Decimal,
    outcome: Result<(), String>,
) -> (r: CleanupStep)
    requires
        outcome is Err ==> adds_up(old(st)@, step_notional@),
        old(st).flatten_orders_placed < u64::MAX,
    ensures
        match outcome {
            Err(error) => {
                &&& final(st)@ == old(st)@
                &&& r@ == StepView::Finish(
                    failed(
                        old(st)@,
                        sum(old(st)@.notional, step_notional@),
                        "cleanup_flatten_failed"@,
                        side_failed_chars(side) + error@,
                    ),
                )
            },
            Ok(_) => {
                &&& final(st)@ == (CleanupView {
                    flatten_attempted_yes: old(st)@.flatten_attempted_yes || side
                        == crate::models::Outcome::Yes,
                    flatten_attempted_no: old(st)@.flatten_attempted_no || side
                        == crate::models::Outcome::No,
                    placed: old(st)@.placed + 1,
                    ..old(st)@
                })
                &&& r@ == StepView::Continue
            },
        },
{
    match outcome {
        Err(error) => {
            let total = st.cleanup_notional_usdc.plus(step_notional);
            let prefix = match side {
                crate::models::Outcome::Yes =>
                "cleanup_flattened_after_trigger_only: cleanup YES flatten failed: ",
                crate::models::Outcome::No =>
                "cleanup_flattened_after_trigger_only: cleanup NO flatten failed: ",
            };
            CleanupStep::Finish(
                cleanup_failure_summary(
                    st,
                    total,
                    "cleanup_flatten_failed",
                    join2(prefix, error.as_str()),
                ),
            )
        },
        Ok(_) => {
            match side {
                crate::models::Outcome::Yes => {
                    st.flatten_attempted_yes = true;
                },
                crate::models::Outcome::No => {
                    st.flatten_attempted_no = true;
                },
            }
            st.flatten_orders_placed = st.flatten_orders_placed + 1;
            CleanupStep::Continue
        },
    }
}

/// Accounts for the sales of both sides once they went through.
pub fn flatten_done(st: &mut CleanupState, step_notional: Decimal)
    requires
        adds_up(old(st)@, step_notional@),
    ensures
        final(st)@ == (CleanupView {
            notional: sum(old(st)@.notional, step_notional@),
            ..old(st)@
        }),
{
    st.cleanup_notional_usdc = st.cleanup_notional_usdc.plus(step_notional);
}

/// The end of a cleanup whose attempts are used up.
pub fn cleanup_exhausted(st: &CleanupState) -> (r: CleanupSummary)
    ensures
        r@ == failed(
            st@,
            st@.notional,
            match st@.failure_code {
                Some(code) => code,
                None => "cleanup_truth_unconfirmed"@,
            },
            match st@.failure_reason {
                Some(reason) => reason,
                None =>
                "cleanup_truth_unconfirmed: cleanup retries exhausted before engine and direct truth agreed on a clean end state"@,
            },
        ),
{
    let code = match &st.failure_code {
        Some(code) => code.clone(),
        None => "cleanup_truth_unconfirmed".to_owned(),
    };
    let reason = match &st.failure_reason {
        Some(reason) => reason.clone(),
        None =>
        "cleanup_truth_unconfirmed: cleanup retries exhausted before engine and direct truth agreed on a clean end state".to_owned(),
    };
    cleanup_failure_summary(st, st.cleanup_notional_usdc, code.as_str(), reason)
}

/// What a market that became dirty again looks like, in words.
pub open spec fn relapse_chars(v: CleanupView, code: Seq<char>, pass: nat) -> Seq<char> {
    code + ": cleanup became dirty again during post-clean stabilization on verification pass "@
        + count_chars(pass) + " with engine yes/no=("@ + v.engine.yes_size.text_spec() + ","@
        + v.engine.no_size.text_spec() + ") direct yes/no=("@ + v.direct.yes_size.text_spec()
        + ","@ + v.direct.no_size.text_spec() + ") resting_orders="@ + count_chars(v.resting as nat)
}

/// The look of stabilization pass `pass` (from one) failed: so did the cleanup.
pub fn stability_look_failed(st: &CleanupState, pass: u64, error: &str) -> (r: CleanupSummary)
    ensures
        r@ == failed(
            st@,
            st@.notional,
            "cleanup_truth_unconfirmed"@,
            "cleanup_truth_unconfirmed: stabilization refresh failed on verification pass "@
                + count_chars(pass as nat) + ": "@ + error@,
        ),
{
    let mut reason =
        "cleanup_truth_unconfirmed: stabilization refresh failed on verification pass ".to_owned();
    reason.append(count_text(pass).as_str());
    reason.append(": ");
    reason.append(error);
    cleanup_failure_summary(st, st.cleanup_notional_usdc, "cleanup_truth_unconfirmed", reason)
}

/// Decides on the look of stabilization pass `pass` (from one) of `passes`: a market that is not
/// clean any more ends the cleanup as failed, one that is still clean after the last pass ends it
/// as done.
pub fn verify_cleanup_stability_after_candidate_clean(
    ctx: &CleanupContext,
    st: &mut CleanupState,
    engine_position: Position,
    direct_position: Position,
    resting_order_count: u64,
    pass: u64,
    passes: u64,
) -> (r: Option<CleanupSummary>)
    requires
        can_be_compared(
            *ctx,
            (CleanupView {
                engine: engine_position,
                direct: direct_position,
                resting: resting_order_count as int,
                ..old(st)@
            }),
        ),
    ensures
        ({
            let v = CleanupView {
                engine: engine_position,
                direct: direct_position,
                resting: resting_order_count as int,
                ..old(st)@
            };
            let code = if engine_clean(*ctx, v) != direct_clean(*ctx, v) {
                "cleanup_truth_disagreed"@
            } else {
                "cleanup_residual_inventory"@
            };
            &&& final(st)@ == v
            &&& if !(engine_clean(*ctx, v) && direct_clean(*ctx, v)) {
                r is Some && r->0@ == failed(
                    v,
                    v.notional,
                    code,
                    relapse_chars(v, code, pass as nat),
                )
            } else if pass >= passes {
                r is Some && r->0@ == succeeded(v)
            } else {
                r is None
            }
        }),
{
    st.engine_position = engine_position;
    st.direct_position = direct_position;
    st.resting_order_count = resting_order_count;
    let engine_is_clean = is_clean_against_baseline(
        ctx.baseline,
        &st.engine_position,
        ctx.baseline_open_orders,
        st.resting_order_count,
        ctx.tolerance,
    );
    let direct_is_clean = is_clean_against_baseline(
        ctx.baseline,
        &st.direct_position,
        ctx.baseline_open_orders,
        st.resting_order_count,
        ctx.tolerance,
    );
    if !(engine_is_clean && direct_is_clean) {
        let code = if engine_is_clean != direct_is_clean {
            "cleanup_truth_disagreed"
        } else {
            "cleanup_residual_inventory"
        };
        let mut reason = code.to_owned();
        reason.append(
            ": cleanup became dirty again during post-clean stabilization on verification pass ",
        );
        reason.append(count_text(pass).as_str());
        reason.append(" with engine yes/no=(");
        reason.append(st.engine_position.yes_size.to_text().as_str());
        reason.append(",");
        reason.append(st.engine_position.no_size.to_text().as_str());
        reason.append(") direct yes/no=(");
        reason.append(st.direct_position.yes_size.to_text().as_str());
        reason.append(",");
        reason.append(st.direct_position.no_size.to_text().as_str());
        reason.append(") resting_orders=");
        reason.append(count_text(st.resting_order_count).as_str());
        return Some(cleanup_failure_summary(st, st.cleanup_notional_usdc, code, reason));
    }
    if pass >= passes {
        return Some(success_summary(st));
    }
    None
}

/// A cleanup reports success on a look only if the engine and the exchange both see the market
/// clean.
pub proof fn law_success_means_clean(
    ctx: CleanupContext,
    v: CleanupView,
    attempt: int,
    window_active: bool,
)
    ensures
        look_decision(ctx, v, attempt, window_active).1 matches StepView::Finish(s) && s.success
            ==> engine_clean(ctx, v) && direct_clean(ctx, v),
        look_decision(ctx, v, attempt, window_active).1 is VerifyStability ==> engine_clean(ctx, v)
            && direct_clean(ctx, v),
{
}

/// Pairs are merged at most once: after a merge was asked for, no look asks for another.
pub proof fn law_merge_at_most_once(
    ctx: CleanupContext,
    v: CleanupView,
    attempt: int,
    window_active: bool,
)
    ensures
        look_decision(ctx, v, attempt, window_active).1 is Merge ==> !v.attempted_merge
            && look_decision(ctx, v, attempt, window_active).0.attempted_merge,
        v.attempted_merge ==> look_decision(ctx, v, attempt, window_active).0.attempted_merge,
{
}

/// A side that was sold is not sold again by a regular sale.
pub proof fn law_side_flattened_at_most_once(ctx: CleanupContext, v: CleanupView)
    requires
        ctx.tolerance@ >= 0,
    ensures
        flatten_decision(ctx, v) matches StepView::EstimateFlatten(yes, no) ==> (
        v.flatten_attempted_yes ==> yes == 0) && (v.flatten_attempted_no ==> no == 0),
{
}

/// Nothing is sold beyond the limit on the notional of the cleanup.
pub proof fn law_sales_stay_within_limit(
    ctx: CleanupContext,
    v: CleanupView,
    phase: Option<RecoveryPhase>,
    estimate: Result<Decimal, String>,
    next: StepView,
    s: StepView,
)
    requires
        estimate_decision(ctx, v, phase, estimate, next, s),
        s !is Finish,
    ensures
        estimate is Ok,
        sum(v.notional, estimate->Ok_0@) <= ctx.scenario.safety.max_cleanup_notional_usdc@,
{
}

/// A trigger that may have filled is never written off silently: as long as nothing was done about
/// it, no look ends the cleanup with success.
pub proof fn law_unconfirmed_trigger_is_not_ignored(
    ctx: CleanupContext,
    v: CleanupView,
    attempt: int,
    window_active: bool,
)
    requires
        awaits_recovery(ctx, v),
    ensures
        !(look_decision(ctx, v, attempt, window_active).1 is VerifyStability),
        look_decision(ctx, v, attempt, window_active).1 matches StepView::Finish(s) ==> !s.success,
{
}

/// A look at the exchange from the state `a`, and what it leads to.
pub open spec fn looked(
    ctx: CleanupContext,
    a: CleanupView,
    engine: Position,
    direct: Position,
    resting: int,
    attempt: int,
    window_active: bool,
) -> (CleanupView, StepView) {
    look_decision(ctx, CleanupView { engine, direct, resting, ..a }, attempt, window_active)
}

/// One move of a cleanup from `a` to `b`, which asks for `merges` merges: a look, the end of a
/// merge, a sale of a side that was not sold yet, a sale of what a trigger may have bought, or a
/// note of what was sold or failed.
pub open spec fn moves(ctx: CleanupContext, a: CleanupView, b: CleanupView, merges: int) -> bool {
    ||| exists|
        engine: Position,
        direct: Position,
        resting: int,
        attempt: int,
        window_active: bool,
    |
        {
            let (after, step) = #[trigger] looked(
                ctx,
                a,
                engine,
                direct,
                resting,
                attempt,
                window_active,
            );
            b == after && merges == if step is Merge {
                1int
            } else {
                0
            }
        }
    ||| merges == 0 && exists|outcome: Result<Option<String>, String>|
        b == (#[trigger] merge_decision(ctx, a, outcome)).0
    ||| merges == 0 && !a.flatten_attempted_yes && b == (CleanupView {
        flatten_attempted_yes: true,
        placed: a.placed + 1,
        ..a
    })
    ||| merges == 0 && !a.flatten_attempted_no && b == (CleanupView {
        flatten_attempted_no: true,
        placed: a.placed + 1,
        ..a
    })
    ||| merges == 0 && awaits_recovery(ctx, a) && b == (CleanupView {
        flatten_attempted_yes: a.flatten_attempted_yes || leg_is_yes(ctx.scenario.trigger.leg),
        flatten_attempted_no: a.flatten_attempted_no || !leg_is_yes(ctx.scenario.trigger.leg),
        recovery_flattened: true,
        placed: a.placed + 1,
        notional: b.notional,
        ..a
    })
    ||| merges == 0 && b == (CleanupView {
        notional: b.notional,
        failure_code: b.failure_code,
        failure_reason: b.failure_reason,
        ..a
    })
}

pub open spec fn total(merges: Seq<int>) -> int
    decreases merges.len(),
{
    if merges.len() == 0 {
        0
    } else {
        total(merges.drop_last()) + merges.last()
    }
}

/// The states that a cleanup went through, and the merges that each move asked for.
pub open spec fn is_run(ctx: CleanupContext, states: Seq<CleanupView>, merges: Seq<int>) -> bool {
    &&& states.len() == merges.len() + 1
    &&& !states[0].attempted_merge && states[0].placed == 0
    &&& forall|i: int|
        0 <= i < merges.len() ==> moves(
            ctx,
            #[trigger] states[i],
            states[i + 1],
            #[trigger] merges[i],
        )
}

/// Over a whole run pairs are merged at most once, and at most two orders sell what is left: one
/// of each side.
pub proof fn law_run_merges_once_and_sells_twice(
    ctx: CleanupContext,
    states: Seq<CleanupView>,
    merges: Seq<int>,
)
    requires
        is_run(ctx, states, merges),
    ensures
        total(merges) <= 1,
        states.last().placed <= 2,
{
    lemma_run(ctx, states, merges);
}

pub open spec fn one_if(b: bool) -> int {
    if b {
        1
    } else {
        0
    }
}

proof fn lemma_run(ctx: CleanupContext, states: Seq<CleanupView>, merges: Seq<int>)
    requires
        is_run(ctx, states, merges),
    ensures
        total(merges) <= one_if(states.last().attempted_merge),
        states.last().placed <= one_if(states.last().flatten_attempted_yes) + one_if(
            states.last().flatten_attempted_no,
        ),
    decreases merges.len(),
{
    if merges.len() > 0 {
        let n = merges.len() - 1;
        let before = states.drop_last();
        let fewer = merges.drop_last();
        assert forall|i: int| 0 <= i < fewer.len() implies moves(
            ctx,
            #[trigger] before[i],
            before[i + 1],
            #[trigger] fewer[i],
        ) by {
            assert(moves(ctx, states[i], states[i + 1], merges[i]));
        }
        lemma_run(ctx, before, fewer);
        assert(before.last() == states[n]);
        assert(moves(ctx, states[n], states[n + 1], merges[n]));
        lemma_move(ctx, states[n], states[n + 1], merges[n]);
    } else {
        assert(states.last() == states[0]);
    }
}

proof fn lemma_move(ctx: CleanupContext, a: CleanupView, b: CleanupView, merges: int)
    requires
        moves(ctx, a, b, merges),
        a.placed <= one_if(a.flatten_attempted_yes) + one_if(a.flatten_attempted_no),
    ensures
        merges <= one_if(b.attempted_merge) - one_if(a.attempted_merge),
        b.placed <= one_if(b.flatten_attempted_yes) + one_if(b.flatten_attempted_no),
{
}

} // verus!
