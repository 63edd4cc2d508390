//! Laws of the forecasting state machine, proved over its model.
//!
//! The executable forecaster's contract pins each call to `observe_model` /
//! `observe_output`; the proof functions here state what whole sequences of
//! calls do: the warm-up echoes, the transition to the full state, the
//! full-cycle behavior of the cursor, and bounds that let callers discharge
//! the machine-limit precondition.

use vstd::prelude::*;

use vstd::arithmetic::div_mod::{
    lemma_add_mod_noop, lemma_div_is_ordered, lemma_div_multiples_vanish,
    lemma_fundamental_div_mod, lemma_mod_add_multiples_vanish, lemma_mod_bound, lemma_small_mod,
};

use crate::curve::Error;
use crate::model::{
    coef, feed, forecast_fits, forecast_result, forecast_sum, forecast_value, init_model,
    observe_model, observe_output, slot, wf_model, wsum, CurveModel, COEF_BOUND, N, SAMPLE_LIMIT,
    SCALE,
};

verus! {

/// Every coefficient's magnitude is at most `COEF_BOUND`.
proof fn lemma_coef_bound(i: int)
    ensures
        -COEF_BOUND <= coef(i) <= COEF_BOUND,
{
}

/// The partial weighted sum over `k` samples, all at most `b`, is bounded
/// by `k * COEF_BOUND * b` in magnitude.
proof fn lemma_wsum_bound(h: Seq<u64>, start: int, k: int, b: int)
    requires
        h.len() == N,
        0 <= start < N,
        0 <= k <= N,
        0 <= b,
        forall|j: int| 0 <= j < N ==> h[j] <= b,
    ensures
        -(k * (COEF_BOUND as int) * b) <= wsum(h, start, k) <= k * (COEF_BOUND as int) * b,
    decreases k,
{
    let c = COEF_BOUND as int;
    if k > 0 {
        lemma_wsum_bound(h, start, k - 1, b);
        lemma_mod_bound(start + k - 1, N as int);
        lemma_coef_bound(k - 1);
        let v = h[slot(start, k - 1)] as int;
        assert(-(c * b) <= coef(k - 1) * v <= c * b) by (nonlinear_arith)
            requires
                -c <= coef(k - 1) <= c,
                0 <= v <= b,
        ;
        assert(k * c * b == (k - 1) * c * b + c * b) by (nonlinear_arith);
    }
}

/// A history of bounded samples always rescales to a prediction that fits
/// the 64-bit sample type: callers that keep every observation at or below
/// `SAMPLE_LIMIT` can always take a forecast.
pub proof fn lemma_bounded_history_fits(h: Seq<u64>, start: int)
    requires
        h.len() == N,
        0 <= start < N,
        forall|j: int| 0 <= j < N ==> h[j] <= SAMPLE_LIMIT,
    ensures
        forecast_value(h, start) <= u64::MAX,
{
    lemma_wsum_bound(h, start, N as int, SAMPLE_LIMIT as int);
    assert((N as int) * (COEF_BOUND as int) * (SAMPLE_LIMIT as int) <= (SCALE as int) * (
    u64::MAX as int)) by (nonlinear_arith);
    lemma_div_is_ordered(forecast_sum(h, start), (SCALE as int) * (u64::MAX as int),
        SCALE as int);
    lemma_div_multiples_vanish(u64::MAX as int, SCALE as int);
}

/// The machine-limit precondition of one call holds whenever every sample
/// involved stays at or below `SAMPLE_LIMIT`.
pub proof fn lemma_bounded_observe_fits(m: CurveModel, v: u64)
    requires
        wf_model(m),
        v <= SAMPLE_LIMIT,
        forall|j: int| 0 <= j < N ==> m.history[j] <= SAMPLE_LIMIT,
    ensures
        forecast_fits(observe_model(m, v)),
{
    let m2 = observe_model(m, v);
    if m2.n_items == N {
        assert(forall|j: int| 0 <= j < N ==> m2.history[j] <= SAMPLE_LIMIT);
        lemma_bounded_history_fits(m2.history, m2.index);
    }
}

/// Forecast determinism: the forecast is a pure function of the persisted
/// history contents and cursor position, so two states that agree on both
/// yield the same forecast.
pub proof fn lemma_forecast_deterministic(m1: CurveModel, m2: CurveModel)
    requires
        m1.history == m2.history,
        m1.index == m2.index,
    ensures
        forecast_result(m1.history, m1.index) == forecast_result(m2.history, m2.index),
{
}

/// Feeding up to `N` samples into a fresh forecaster stores them in order:
/// the fill counter equals the number of samples fed, the cursor has not
/// moved, and the slots beyond the fill counter still hold zero.
pub proof fn lemma_feed_warmup(vs: Seq<u64>)
    requires
        vs.len() <= N,
    ensures
        ({
            let m = feed(init_model(), vs);
            &&& wf_model(m)
            &&& m.n_items == vs.len()
            &&& m.index == 0
            &&& forall|j: int| 0 <= j < vs.len() ==> m.history[j] == vs[j]
            &&& forall|j: int| vs.len() <= j < N ==> m.history[j] == 0u64
        }),
    decreases vs.len(),
{
    if vs.len() > 0 {
        lemma_feed_warmup(vs.drop_last());
        let prev = feed(init_model(), vs.drop_last());
        let m = feed(init_model(), vs);
        assert(m == observe_model(prev, vs.last()));
        assert(m.history == prev.history.update(vs.len() - 1, vs.last()));
        assert forall|j: int| 0 <= j < vs.len() implies m.history[j] == vs[j] by {
            if j < vs.len() - 1 {
                assert(prev.history[j] == vs.drop_last()[j]);
            }
        }
        assert forall|j: int| vs.len() <= j < N implies m.history[j] == 0u64 by {
            assert(prev.history[j] == 0u64);
        }
    }
}

/// Warm-up echoes: each of the first `N` calls on a fresh forecaster
/// returns exactly its input, and after the `k`-th call the fill counter
/// is exactly `k`.
pub proof fn lemma_warmup_echo(vs: Seq<u64>)
    requires
        vs.len() <= N,
    ensures
        forall|k: int|
            0 <= k <= vs.len() ==> (#[trigger] feed(init_model(), vs.take(k))).n_items == k,
        forall|k: int|
            0 <= k < vs.len() ==> observe_output(
                #[trigger] feed(init_model(), vs.take(k)),
                vs[k],
            ) == Ok::<u64, Error>(vs[k]),
{
    assert forall|k: int| 0 <= k <= vs.len() implies (#[trigger] feed(
        init_model(),
        vs.take(k),
    )).n_items == k by {
        lemma_feed_warmup(vs.take(k));
    }
}

/// The warm-up to full transition: after exactly `N` calls on a fresh
/// forecaster the fill counter has reached `N`, the cursor is back at
/// slot zero, and the ring holds exactly the `N` inputs in arrival order.
pub proof fn lemma_fill_transition(vs: Seq<u64>)
    requires
        vs.len() == N,
    ensures
        feed(init_model(), vs).n_items == N,
        feed(init_model(), vs).index == 0,
        feed(init_model(), vs).history == vs,
        wf_model(feed(init_model(), vs)),
{
    lemma_feed_warmup(vs);
    assert(feed(init_model(), vs).history =~= vs);
}

/// The full state is terminal: once the fill counter has reached `N`, no
/// sequence of further calls ever changes it, and the state stays well
/// formed.
pub proof fn lemma_full_is_terminal(m: CurveModel, vs: Seq<u64>)
    requires
        wf_model(m),
        m.n_items == N,
    ensures
        feed(m, vs).n_items == N,
        wf_model(feed(m, vs)),
    decreases vs.len(),
{
    if vs.len() > 0 {
        lemma_full_is_terminal(m, vs.drop_last());
        lemma_mod_bound(feed(m, vs.drop_last()).index + 1, N as int);
    }
}

/// Two distinct steps forward from the same start, fewer than `N` apart,
/// land on distinct ring slots.
proof fn lemma_distinct_slots(start: int, j: int, k: int)
    requires
        0 <= start,
        0 <= j < k,
        k - j < N,
    ensures
        slot(start, j) != slot(start, k),
{
    let n = N as int;
    lemma_mod_bound(start + j, n);
    lemma_mod_bound(start + k, n);
    lemma_fundamental_div_mod(start + j, n);
    lemma_fundamental_div_mod(start + k, n);
    if slot(start, j) == slot(start, k) {
        let qa = (start + j) / n;
        let qb = (start + k) / n;
        let d = qb - qa;
        assert(k - j == n * d) by (nonlinear_arith)
            requires
                start + j == n * qa + slot(start, j),
                start + k == n * qb + slot(start, k),
                slot(start, j) == slot(start, k),
                d == qb - qa,
        ;
        assert(false) by (nonlinear_arith)
            requires
                k - j == n * d,
                0 < k - j < n,
                n == 20,
        ;
    }
}

/// Feeding up to `N` samples into a full forecaster: the fill counter stays
/// at `N` (the full state is terminal), the cursor advances by one slot per
/// call, and each fed sample sits that many steps past the old cursor while
/// the remaining slots are untouched.
pub proof fn lemma_feed_steady(m: CurveModel, vs: Seq<u64>)
    requires
        wf_model(m),
        m.n_items == N,
        vs.len() <= N,
    ensures
        ({
            let m2 = feed(m, vs);
            &&& wf_model(m2)
            &&& m2.n_items == N
            &&& m2.index == slot(m.index, vs.len() as int)
            &&& forall|j: int|
                0 <= j < N ==> m2.history[#[trigger] slot(m.index, j)] == (if j < vs.len() {
                    vs[j]
                } else {
                    m.history[slot(m.index, j)]
                })
        }),
    decreases vs.len(),
{
    let n = N as int;
    if vs.len() == 0 {
        lemma_small_mod(m.index as nat, n as nat);
    } else {
        let prev = feed(m, vs.drop_last());
        lemma_feed_steady(m, vs.drop_last());
        let k = vs.len() - 1;
        let m2 = feed(m, vs);
        lemma_mod_bound(m.index + k, n);
        lemma_small_mod(1nat, n as nat);
        lemma_add_mod_noop(m.index + k, 1, n);
        assert(m2.index == slot(m.index, k + 1));
        assert forall|j: int| 0 <= j < n implies m2.history[#[trigger] slot(m.index, j)] == (if j
            < vs.len() {
            vs[j]
        } else {
            m.history[slot(m.index, j)]
        }) by {
            lemma_mod_bound(m.index + j, n);
            if j < k {
                lemma_distinct_slots(m.index, j, k);
            } else if j > k {
                lemma_distinct_slots(m.index, k, j);
            }
        }
    }
}

/// The full-cycle idempotence law: once full, after exactly `N` further
/// calls the cursor is back where it started and the ring holds exactly
/// those `N` most recent inputs, oldest first from the cursor.
pub proof fn lemma_full_cycle(m: CurveModel, vs: Seq<u64>)
    requires
        wf_model(m),
        m.n_items == N,
        vs.len() == N,
    ensures
        feed(m, vs).index == m.index,
        feed(m, vs).n_items == N,
        wf_model(feed(m, vs)),
        forall|j: int| 0 <= j < N ==> feed(m, vs).history[#[trigger] slot(m.index, j)] == vs[j],
{
    lemma_feed_steady(m, vs);
    lemma_mod_add_multiples_vanish(m.index, N as int);
    lemma_small_mod(m.index as nat, N as nat);
}

} // verus!
