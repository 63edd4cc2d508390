use uniswap_curve::curve::Error;
use uniswap_curve::curve::ICurve;
use uniswap_curve::curve::UniswapCurve;

const X_POINTS: [u64; 20] = [
    1660, 1673, 1681, 1721, 1626, 1574, 1587, 1550, 1566, 936, 857, 855, 1078, 1062, 1077, 1096,
    1119, 1114, 1428, 1454,
];

/// End-to-end: every warm-up call echoes its input, and the first
/// steady-state call returns the model's prediction.
#[test]
fn forcast_volatility() {
    let mut contract = UniswapCurve::new();

    // Check the initialization
    for i in 0..20 {
        let volatility = contract
            .forcast_volatility(X_POINTS[i])
            .expect("should compute `volatility`");
        assert_eq!(X_POINTS[i], volatility);
    }

    // Check model prediction
    let volatility = contract
        .forcast_volatility(1570)
        .expect("should compute `volatility`");
    assert_eq!(1496, volatility);
}

/// During warm-up every call returns its input unchanged and the fill
/// counter after the k-th call is exactly k.
#[test]
fn warmup_echoes_and_counts() {
    let mut contract = UniswapCurve::new();
    assert_eq!(contract.n_items(), 0);
    for k in 0..19 {
        let r = contract.forcast_volatility(1_000 + k as u64);
        assert_eq!(r, Ok(1_000 + k as u64));
        assert_eq!(contract.n_items(), k + 1);
        assert_eq!(contract.index(), 0);
    }
}

/// On the 20th call the buffer becomes full: it holds exactly the 20
/// inputs in arrival order and the fill counter stays at 20 afterwards.
#[test]
fn fill_transition_retains_inputs() {
    let mut contract = UniswapCurve::new();
    for i in 0..20 {
        let r = contract.forcast_volatility(X_POINTS[i]);
        assert_eq!(r, Ok(X_POINTS[i]));
    }
    assert_eq!(contract.n_items(), 20);
    assert_eq!(contract.index(), 0);
    assert_eq!(contract.volatility_history(), X_POINTS.to_vec());

    // Full is terminal: further calls leave the fill counter at 20.
    let _ = contract.forcast_volatility(1570);
    assert_eq!(contract.n_items(), 20);
}

/// After reaching the full state the cursor advances by exactly one slot
/// per call, modulo the capacity.
#[test]
fn cursor_advances_modulo_capacity() {
    let mut contract = UniswapCurve::new();
    for i in 0..20 {
        let _ = contract.forcast_volatility(X_POINTS[i]);
    }
    assert_eq!(contract.index(), 0);
    for k in 0..25 {
        let _ = contract.forcast_volatility(2_000 + k as u64);
        assert_eq!(contract.index(), (k + 1) % 20);
    }
}

/// A full cycle of 20 steady-state calls brings the cursor back to where
/// it started, and the history then holds exactly those 20 most recent
/// inputs in arrival order.
#[test]
fn full_cycle_returns_cursor() {
    let mut contract = UniswapCurve::new();
    for i in 0..20 {
        let _ = contract.forcast_volatility(X_POINTS[i]);
    }
    let start = contract.index();
    let replacements: Vec<u64> = (0..20).map(|k| 3_000 + k as u64).collect();
    for v in &replacements {
        let _ = contract.forcast_volatility(*v);
    }
    assert_eq!(contract.index(), start);
    // The cursor is back at slot 0, so arrival order equals slot order.
    assert_eq!(contract.volatility_history(), replacements);
}

/// The forecast is a pure function of the persisted state: two instances
/// fed the same observations return the same prediction.
#[test]
fn forecast_is_deterministic() {
    let mut a = UniswapCurve::new();
    let mut b = UniswapCurve::new();
    for i in 0..20 {
        let _ = a.forcast_volatility(X_POINTS[i]);
        let _ = b.forcast_volatility(X_POINTS[i]);
    }
    let ra = a.forcast_volatility(1570);
    let rb = b.forcast_volatility(1570);
    assert_eq!(ra, rb);
    assert_eq!(ra, Ok(1496));
}

/// A rescaled prediction of exactly zero must fail: an all-zero history
/// sums to zero, which is not a valid (strictly positive) volatility.
#[test]
fn zero_prediction_fails() {
    let mut contract = UniswapCurve::new();
    for _ in 0..20 {
        let r = contract.forcast_volatility(0);
        assert_eq!(r, Ok(0));
    }
    let r = contract.forcast_volatility(0);
    assert_eq!(r, Err(Error::InvalidForecast));
}

/// A rescaled prediction of exactly one must succeed: with zeros
/// everywhere except the newest slot (weight 10_240_533), a newest sample
/// of 1 rescales to exactly 1.
#[test]
fn unit_prediction_succeeds() {
    let mut contract = UniswapCurve::new();
    for _ in 0..20 {
        let _ = contract.forcast_volatility(0);
    }
    let r = contract.forcast_volatility(1);
    assert_eq!(r, Ok(1));
}

/// With every retained sample equal, the prediction is the net coefficient
/// sum times the sample, rescaled: 9_519_494 * 10_000_000 / 10_000_000.
#[test]
fn all_equal_samples_forecast() {
    let mut contract = UniswapCurve::new();
    for _ in 0..20 {
        let r = contract.forcast_volatility(10_000_000);
        assert_eq!(r, Ok(10_000_000));
    }
    let r = contract.forcast_volatility(10_000_000);
    assert_eq!(r, Ok(9_519_494));
}

/// The wide accumulator at full stretch: every sample at the bound under
/// which a forecast always fits the sample type.
#[test]
fn largest_bounded_samples() {
    let sample = 900_000_000_000_000_000u64;
    let mut contract = UniswapCurve::new();
    for _ in 0..20 {
        let r = contract.forcast_volatility(sample);
        assert_eq!(r, Ok(sample));
    }
    // 9_519_494 * 900_000_000_000_000_000 / 10_000_000
    let r = contract.forcast_volatility(sample);
    assert_eq!(r, Ok(856_754_460_000_000_000));
}
