//! The mathematical model of the forecasting state machine.
//!
//! A `CurveModel` is the ghost image of the persistent contract state: the
//! ring of retained samples, the overwrite cursor and the fill counter.  The
//! spec functions here define, over that model, exactly what one call to the
//! forecaster does and what value it returns.

use vstd::prelude::*;

verus! {

/// Capacity of the history ring: how many samples are retained.
pub const N: usize = 20;

/// Divisor that rescales the raw weighted sum back to the sample's unit.
pub const SCALE: u64 = 10_000_000;

/// An upper bound on the magnitude of every model coefficient.
pub const COEF_BOUND: i64 = 10_240_533;

/// A sample magnitude under which every forecast provably fits back into
/// the 64-bit sample type: when all retained samples stay at or below this
/// value, the rescaled prediction cannot exceed `u64::MAX`.
pub const SAMPLE_LIMIT: u64 = 900_000_000_000_000_000;

/// Ghost image of the forecaster's persistent state.
pub struct CurveModel {
    /// The retained samples; always exactly `N` of them.
    pub history: Seq<u64>,
    /// Index of the next slot to overwrite once the buffer is full.
    pub index: int,
    /// Number of samples stored since initialization, saturating at `N`.
    pub n_items: int,
}

/// The basic shape every reachable state satisfies.
pub open spec fn wf_model(m: CurveModel) -> bool {
    &&& m.history.len() == N
    &&& 0 <= m.index < N
    &&& 0 <= m.n_items <= N
}

/// The state the collaborator constructs: all-zero history, cursor and
/// fill counter at zero.
pub open spec fn init_model() -> CurveModel {
    CurveModel { history: Seq::new(N as nat, |i: int| 0u64), index: 0, n_items: 0 }
}

/// The fixed linear-model weight applied to the `i`-th sample in
/// chronological order (0 is the oldest retained sample).
pub open spec fn coef(i: int) -> int {
    if i == 0 {
        -146693
    } else if i == 1 {
        5476
    } else if i == 2 {
        -132090
    } else if i == 3 {
        80985
    } else if i == 4 {
        -61377
    } else if i == 5 {
        -18760
    } else if i == 6 {
        113246
    } else if i == 7 {
        -115346
    } else if i == 8 {
        42895
    } else if i == 9 {
        -54885
    } else if i == 10 {
        94450
    } else if i == 11 {
        -69297
    } else if i == 12 {
        144672
    } else if i == 13 {
        -83620
    } else if i == 14 {
        -178140
    } else if i == 15 {
        -19045
    } else if i == 16 {
        55406
    } else if i == 17 {
        62330
    } else if i == 18 {
        -441246
    } else if i == 19 {
        10240533
    } else {
        0
    }
}

/// The ring slot reached by stepping `i` places forward from `start`.
pub open spec fn slot(start: int, i: int) -> int {
    (start + i) % (N as int)
}

/// Weighted sum of the first `k` samples in chronological order, reading
/// the ring `h` starting at slot `start` (the oldest retained sample).
pub open spec fn wsum(h: Seq<u64>, start: int, k: int) -> int
    decreases k,
{
    if k <= 0 {
        0
    } else {
        wsum(h, start, k - 1) + coef(k - 1) * h[slot(start, k - 1)]
    }
}

/// The raw weighted sum over the whole ring.
pub open spec fn forecast_sum(h: Seq<u64>, start: int) -> int {
    wsum(h, start, N as int)
}

/// The rescaled prediction: the weighted sum divided by `SCALE`.
///
/// The division is Euclidean; whenever the prediction is positive (the only
/// case in which it is returned) this coincides with the truncating integer
/// division the executable code performs.
pub open spec fn forecast_value(h: Seq<u64>, start: int) -> int {
    forecast_sum(h, start) / (SCALE as int)
}

/// The machine limit on one forecast: once computed, the rescaled
/// prediction must fit back into the 64-bit sample type.
pub open spec fn forecast_fits(m: CurveModel) -> bool {
    m.n_items == N ==> forecast_value(m.history, m.index) <= u64::MAX
}

/// The state after one call that records `v`.
///
/// During warm-up the sample lands in slot `n_items` and the fill counter
/// advances; once full, it lands in slot `index` and the cursor advances
/// modulo `N`.
pub open spec fn observe_model(m: CurveModel, v: u64) -> CurveModel {
    if m.n_items < N {
        CurveModel { history: m.history.update(m.n_items, v), index: m.index, n_items: m.n_items + 1 }
    } else {
        CurveModel {
            history: m.history.update(m.index, v),
            index: (m.index + 1) % (N as int),
            n_items: m.n_items,
        }
    }
}

/// What one forecast over the ring `h`, oldest sample at `start`, returns:
/// the rescaled prediction when it is strictly positive, the one domain
/// error otherwise.
pub open spec fn forecast_result(h: Seq<u64>, start: int) -> Result<u64, crate::curve::Error> {
    if forecast_value(h, start) > 0 {
        Ok(forecast_value(h, start) as u64)
    } else {
        Err(crate::curve::Error::InvalidForecast)
    }
}

/// The value one call that records `v` returns: the echoed input during
/// warm-up; once full, the forecast over the updated ring.
pub open spec fn observe_output(m: CurveModel, v: u64) -> Result<u64, crate::curve::Error> {
    if m.n_items < N {
        Ok(v)
    } else {
        let m2 = observe_model(m, v);
        forecast_result(m2.history, m2.index)
    }
}

/// The state after a whole sequence of calls, first element first.
pub open spec fn feed(m: CurveModel, vs: Seq<u64>) -> CurveModel
    decreases vs.len(),
{
    if vs.len() == 0 {
        m
    } else {
        observe_model(feed(m, vs.drop_last()), vs.last())
    }
}

} // verus!
