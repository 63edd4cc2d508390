//! The executable forecaster.
//!
//! `UniswapCurve` owns the ring of retained volatility samples, the
//! overwrite cursor and the fill counter.  Its one operation records a new
//! sample and returns either the echoed input (while the ring is still
//! filling) or the rescaled linear-model prediction (once the ring is full).

use vstd::prelude::*;

use crate::model::{
    coef, forecast_fits, forecast_result, forecast_sum, forecast_value, init_model, observe_model,
    observe_output, slot, wf_model, wsum, CurveModel, COEF_BOUND, N, SCALE,
};

verus! {

/// The one domain error: the rescaled prediction was not strictly positive,
/// which a volatility forecast must be.
#[derive(Clone, Copy, Debug, PartialEq, Eq)]
pub enum Error {
    /// The rescaled prediction was zero or negative.
    InvalidForecast,
}

/// The forecasting interface: record one sample, get back an echo or a
/// prediction.
pub trait ICurve: Sized {
    /// The ghost image of the implementor's persistent state.
    spec fn model(&self) -> CurveModel;

    /// The invariant every reachable state of the implementor satisfies.
    spec fn inv(&self) -> bool;

    /// Store `new_volatility` and return the forecast volatility based on it.
    ///
    /// While the ring is still filling the input is echoed back unchanged;
    /// once the ring is full the call overwrites the oldest sample, advances
    /// the cursor and returns the rescaled prediction over the updated ring,
    /// failing exactly when that prediction is not strictly positive.
    fn forcast_volatility(&mut self, new_volatility: u64) -> (r: Result<u64, Error>)
        requires
            old(self).inv(),
            forecast_fits(observe_model(old(self).model(), new_volatility)),
        ensures
            final(self).inv(),
            final(self).model() == observe_model(old(self).model(), new_volatility),
            r == observe_output(old(self).model(), new_volatility),
    ;
}

/// The forecaster's persistent state: the sample ring, the overwrite cursor
/// and the fill counter.
pub struct UniswapCurve {
    /// The previous volatility points; always exactly `N` slots.
    volatility_history: Vec<u64>,
    /// The slot the next steady-state sample overwrites.
    index: usize,
    /// How many samples have been stored, saturating at `N`.
    n_items: usize,
}

impl View for UniswapCurve {
    type V = CurveModel;

    closed spec fn view(&self) -> CurveModel {
        CurveModel {
            history: self.volatility_history@,
            index: self.index as int,
            n_items: self.n_items as int,
        }
    }
}

impl UniswapCurve {
    /// A fresh forecaster: all-zero history, cursor and fill counter at zero.
    pub fn new() -> (c: UniswapCurve)
        ensures
            c@ == init_model(),
            wf_model(c@),
    {
        let mut history: Vec<u64> = Vec::new();
        let mut i: usize = 0;
        while i < N
            invariant
                i <= N,
                history@.len() == i,
                forall|j: int| 0 <= j < i ==> history@[j] == 0u64,
            decreases N - i,
        {
            history.push(0u64);
            i = i + 1;
        }
        let c = UniswapCurve { volatility_history: history, index: 0, n_items: 0 };
        proof {
            assert(c@.history =~= init_model().history);
        }
        c
    }

    /// How many samples have been stored so far (saturating at `N`).
    pub fn n_items(&self) -> (n: usize)
        ensures
            n as int == self@.n_items,
    {
        self.n_items
    }

    /// The slot the next steady-state sample will overwrite.
    pub fn index(&self) -> (i: usize)
        ensures
            i as int == self@.index,
    {
        self.index
    }

    /// A snapshot of the sample ring, slot 0 first.
    pub fn volatility_history(&self) -> (h: Vec<u64>)
        requires
            wf_model(self@),
        ensures
            h@ == self@.history,
    {
        let mut h: Vec<u64> = Vec::new();
        let mut i: usize = 0;
        while i < N
            invariant
                i <= N,
                h@.len() == i,
                wf_model(self@),
                forall|j: int| 0 <= j < i ==> h@[j] == self@.history[j],
            decreases N - i,
        {
            h.push(self.volatility_history[i]);
            i = i + 1;
        }
        proof {
            assert(h@ =~= self@.history);
        }
        h
    }

    /// The linear-model weight for the `i`-th sample in chronological order.
    fn coefficient(i: usize) -> (c: i64)
        requires
            i < N,
        ensures
            c as int == coef(i as int),
            -COEF_BOUND <= c <= COEF_BOUND,
    {
        match i {
            0 => -146693,
            1 => 5476,
            2 => -132090,
            3 => 80985,
            4 => -61377,
            5 => -18760,
            6 => 113246,
            7 => -115346,
            8 => 42895,
            9 => -54885,
            10 => 94450,
            11 => -69297,
            12 => 144672,
            13 => -83620,
            14 => -178140,
            15 => -19045,
            16 => 55406,
            17 => 62330,
            18 => -441246,
            _ => 10240533,
        }
    }

    /// Forecast the next volatility from the stored ring.
    ///
    /// Reads the ring in chronological order starting at the cursor (the
    /// oldest retained sample), accumulates the coefficient-weighted sum,
    /// rescales it by `SCALE` with truncating division, and fails exactly
    /// when the rescaled prediction is not strictly positive.
    fn compute_forcast_volatility(&self) -> (r: Result<u64, Error>)
        requires
            wf_model(self@),
            self@.n_items == N,
            forecast_value(self@.history, self@.index) <= u64::MAX,
        ensures
            r == forecast_result(self@.history, self@.index),
    {
        let ghost h: Seq<u64> = self@.history;
        let ghost start: int = self@.index;
        let mut idx: usize = self.index;
        let mut prediction: i128 = 0;
        let mut i: usize = 0;
        while i < N
            invariant
                wf_model(self@),
                h == self@.history,
                start == self@.index,
                i <= N,
                0 <= idx < N,
                idx as int == slot(start, i as int),
                prediction as int == wsum(h, start, i as int),
                -(i as int) * (COEF_BOUND as int) * (u64::MAX as int) <= prediction as int
                    <= (i as int) * (COEF_BOUND as int) * (u64::MAX as int),
            decreases N - i,
        {
            let val: u64 = self.volatility_history[idx];
            let c: i64 = Self::coefficient(i);
            proof {
                lemma_term_bound(c as int, val as int);
                assert((i + 1) as int * (COEF_BOUND as int) * (u64::MAX as int) == (i as int)
                    * (COEF_BOUND as int) * (u64::MAX as int) + (COEF_BOUND as int) * (
                u64::MAX as int)) by (nonlinear_arith);
            }
            let term: i128 = (c as i128) * (val as i128);
            prediction = prediction + term;
            proof {
                lemma_next_slot(start, i as int, idx as int);
            }
            idx = if idx == N - 1 {
                0
            } else {
                idx + 1
            };
            i = i + 1;
        }
        assert(prediction as int == forecast_sum(h, start));
        if prediction >= SCALE as i128 {
            let q: u128 = (prediction as u128) / (SCALE as u128);
            proof {
                vstd::arithmetic::div_mod::lemma_div_is_ordered(SCALE as int, prediction as int,
                    SCALE as int);
                assert(forecast_value(h, start) >= 1);
            }
            Ok(q as u64)
        } else {
            proof {
                lemma_small_sum_rescales_nonpositive(forecast_sum(h, start));
            }
            Err(Error::InvalidForecast)
        }
    }
}

impl ICurve for UniswapCurve {
    open spec fn model(&self) -> CurveModel {
        self@
    }

    open spec fn inv(&self) -> bool {
        wf_model(self@)
    }

    fn forcast_volatility(&mut self, new_volatility: u64) -> (r: Result<u64, Error>) {
        if self.n_items < N {
            let k: usize = self.n_items;
            self.volatility_history[k] = new_volatility;
            self.n_items = self.n_items + 1;
            Ok(new_volatility)
        } else {
            let pos: usize = self.index;
            self.volatility_history[pos] = new_volatility;
            self.index = (self.index + 1) % N;
            self.compute_forcast_volatility()
        }
    }
}

/// One weighted term is bounded by the coefficient bound times the largest
/// sample value.
proof fn lemma_term_bound(c: int, v: int)
    requires
        -COEF_BOUND <= c <= COEF_BOUND,
        0 <= v <= u64::MAX,
    ensures
        -(COEF_BOUND as int) * (u64::MAX as int) <= c * v <= (COEF_BOUND as int) * (
        u64::MAX as int),
{
    assert(-(COEF_BOUND as int) * (u64::MAX as int) <= c * v <= (COEF_BOUND as int) * (
    u64::MAX as int)) by (nonlinear_arith)
        requires
            -COEF_BOUND <= c <= COEF_BOUND,
            0 <= v <= u64::MAX,
    ;
}

/// Stepping the ring cursor: one more step from `start + i` moves to the
/// next slot, wrapping from the last slot back to slot zero.
proof fn lemma_next_slot(start: int, i: int, idx: int)
    requires
        0 <= start,
        0 <= i,
        idx == slot(start, i),
    ensures
        0 <= idx < N,
        slot(start, i + 1) == if idx == N - 1 {
            0int
        } else {
            idx + 1
        },
{
    let n = N as int;
    let a = start + i;
    vstd::arithmetic::div_mod::lemma_mod_bound(a, n);
    vstd::arithmetic::div_mod::lemma_fundamental_div_mod(a, n);
    let q = a / n;
    if idx == n - 1 {
        assert(a + 1 == (q + 1) * n + 0) by (nonlinear_arith)
            requires
                a == n * q + idx,
                idx == n - 1,
                n == 20,
        ;
        vstd::arithmetic::div_mod::lemma_fundamental_div_mod_converse_mod(a + 1, n, q + 1, 0);
    } else {
        assert(a + 1 == q * n + (idx + 1)) by (nonlinear_arith)
            requires
                a == n * q + idx,
        ;
        vstd::arithmetic::div_mod::lemma_fundamental_div_mod_converse_mod(a + 1, n, q, idx + 1);
    }
}

/// A weighted sum below `SCALE` rescales to zero or less.
proof fn lemma_small_sum_rescales_nonpositive(s: int)
    requires
        s < SCALE,
    ensures
        s / (SCALE as int) <= 0,
{
    if s >= 0 {
        vstd::arithmetic::div_mod::lemma_basic_div(s, SCALE as int);
    } else {
        vstd::arithmetic::div_mod::lemma_div_is_ordered(s, 0, SCALE as int);
        vstd::arithmetic::div_mod::lemma_basic_div(0, SCALE as int);
    }
}

} // verus!
