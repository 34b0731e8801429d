use rust_expr::{
    pct_change, rolling_correlation, rolling_mean, rolling_rank, rolling_std, ExprError,
};

fn bits_of(v: &[f64]) -> Vec<u64> {
    v.iter().map(|x| x.to_bits()).collect()
}

fn floats_of(v: &[u64]) -> Vec<f64> {
    v.iter().map(|x| f64::from_bits(*x)).collect()
}

fn same(a: f64, b: f64) -> bool {
    (a.is_nan() && b.is_nan()) || a.to_bits() == b.to_bits()
}

#[test]
fn mean_concrete_scenario() {
    let out = rolling_mean(&bits_of(&[1.0, 2.0, 3.0, 4.0, 5.0]), 3).unwrap();
    let out = floats_of(&out);
    assert!(out[0].is_nan());
    assert!(out[1].is_nan());
    assert_eq!(out[2], 2.0);
    assert_eq!(out[3], 3.0);
    assert_eq!(out[4], 4.0);
}

#[test]
fn pct_change_concrete_scenario() {
    let out = pct_change(&bits_of(&[10.0, 20.0, 15.0, 30.0]), 1).unwrap();
    let out = floats_of(&out);
    assert!(out[0].is_nan());
    assert_eq!(out[1], 1.0);
    assert_eq!(out[2], -0.25);
    assert_eq!(out[3], 1.0);
}

#[test]
fn std_constant_window_is_sentinel() {
    let out = rolling_std(&bits_of(&[1.0, 1.0, 1.0, 1.0]), 2).unwrap();
    for b in out {
        assert!(f64::from_bits(b).is_nan());
    }
}

#[test]
fn std_exact_value() {
    let out = rolling_std(&bits_of(&[1.0, 2.0, 4.0]), 2).unwrap();
    let out = floats_of(&out);
    assert!(out[0].is_nan());
    assert_eq!(out[1], 0.5);
    assert_eq!(out[2], 1.0);
}

#[test]
fn std_skips_non_finite_samples() {
    let out = rolling_std(&bits_of(&[1.0, f64::NAN, 2.0, 3.0]), 2).unwrap();
    let out = floats_of(&out);
    assert!(out[0].is_nan());
    assert!(out[1].is_nan());
    assert_eq!(out[2], 0.5);
    assert_eq!(out[3], 0.5);
}

#[test]
fn mean_propagates_non_finite_samples() {
    // The mean does not screen its inputs: a NaN poisons the running sum
    // and, since subtracting it back still leaves NaN, every later output.
    let out = rolling_mean(&bits_of(&[1.0, f64::NAN, 3.0, 4.0]), 2).unwrap();
    let out = floats_of(&out);
    assert!(out[0].is_nan());
    assert!(out[1].is_nan());
    assert!(out[2].is_nan());
    assert!(out[3].is_nan());
}

#[test]
fn pct_change_zero_and_infinite_base() {
    let out = pct_change(&bits_of(&[0.0, 5.0, f64::INFINITY, 10.0, 20.0]), 1).unwrap();
    let out = floats_of(&out);
    assert!(out[0].is_nan());
    assert!(out[1].is_nan());
    assert!(out[2].is_nan());
    assert!(out[3].is_nan());
    assert_eq!(out[4], 1.0);
}

#[test]
fn pct_change_formula_positions() {
    let data = [12.5, 3.25, 9.75, 41.0, 7.5, 2.25];
    let p = 2;
    let out = floats_of(&pct_change(&bits_of(&data), p).unwrap());
    for i in 0..data.len() {
        if i < p {
            assert!(out[i].is_nan());
        } else {
            let expect = (data[i] - data[i - p]) / data[i - p];
            assert_eq!(out[i].to_bits(), expect.to_bits());
        }
    }
}

#[test]
fn rank_increasing_and_decreasing_windows() {
    let up = floats_of(&rolling_rank(&bits_of(&[1.0, 2.0, 3.0, 4.0, 5.0]), 3).unwrap());
    assert!(up[0].is_nan());
    assert!(up[1].is_nan());
    assert_eq!(up[2], 1.0);
    assert_eq!(up[3], 1.0);
    assert_eq!(up[4], 1.0);
    let down = floats_of(&rolling_rank(&bits_of(&[9.0, 7.0, 5.0, 3.0]), 4).unwrap());
    assert!(down[0].is_nan());
    assert!(down[2].is_nan());
    assert_eq!(down[3], 0.25);
}

#[test]
fn rank_counts_ties_inclusively() {
    let out = floats_of(&rolling_rank(&bits_of(&[2.0, 2.0, 2.0, 1.0]), 3).unwrap());
    assert!(out[0].is_nan());
    assert!(out[1].is_nan());
    assert_eq!(out[2], 1.0);
    assert_eq!(out[3], 1.0 / 3.0);
}

#[test]
fn rank_skips_non_finite_window_samples() {
    let out = floats_of(&rolling_rank(&bits_of(&[5.0, f64::NAN, 3.0, 4.0]), 3).unwrap());
    assert!(out[0].is_nan());
    assert!(out[1].is_nan());
    assert_eq!(out[2], 0.5);
    assert_eq!(out[3], 1.0);
}

#[test]
fn correlation_of_series_with_itself_is_one() {
    let data = [1.0, 2.0, 4.0, 8.0, 3.0, 5.0, 7.0];
    let xb = bits_of(&data);
    let out = floats_of(&rolling_correlation(&xb, &xb, 3).unwrap());
    assert!(out[0].is_nan());
    assert!(out[1].is_nan());
    for i in 2..data.len() {
        assert!((out[i] - 1.0).abs() < 1e-12);
    }
}

#[test]
fn correlation_with_negation_is_minus_one() {
    let data = [1.0, 2.0, 4.0, 8.0, 3.0, 5.0, 7.0];
    let neg: Vec<f64> = data.iter().map(|x| -x).collect();
    let out = floats_of(&rolling_correlation(&bits_of(&data), &bits_of(&neg), 3).unwrap());
    for i in 2..data.len() {
        assert!((out[i] + 1.0).abs() < 1e-12);
    }
}

#[test]
fn correlation_skips_non_finite_pairs() {
    let x = [1.0, f64::INFINITY, 2.0, 4.0, 8.0];
    let y = [2.0, 1.0, 3.0, 5.0, 13.0];
    let out = floats_of(&rolling_correlation(&bits_of(&x), &bits_of(&y), 2).unwrap());
    // The window slides over valid pairs: the non-finite step emits the
    // sentinel without consuming a slot, so the pair window is already full
    // two valid steps in.
    assert!(out[0].is_nan());
    assert!(out[1].is_nan());
    assert_eq!(out[2], 1.0);
    assert!(out[3].is_finite());
    assert!(out[4].is_finite());
}

#[test]
fn invalid_window_is_rejected() {
    let s = bits_of(&[1.0, 2.0, 3.0]);
    assert!(matches!(rolling_mean(&s, 0), Err(ExprError::InvalidPeriod(_))));
    assert!(matches!(rolling_std(&s, 1), Err(ExprError::InvalidPeriod(_))));
    assert!(matches!(pct_change(&s, 0), Err(ExprError::InvalidPeriod(_))));
    assert!(matches!(rolling_rank(&s, 1), Err(ExprError::InvalidPeriod(_))));
    assert!(matches!(rolling_correlation(&s, &s, 1), Err(ExprError::InvalidPeriod(_))));
}

#[test]
fn invalid_window_messages() {
    let s = bits_of(&[1.0, 2.0, 3.0]);
    let e = rolling_mean(&s, 0).unwrap_err();
    assert_eq!(e.message().as_str(), "Window size must be positive");
    let e = rolling_std(&s, 1).unwrap_err();
    assert_eq!(e.message().as_str(), "Window size must be at least 2");
    let e = pct_change(&s, 0).unwrap_err();
    assert_eq!(e.message().as_str(), "Period must be positive");
}

#[test]
fn output_length_matches_input_length() {
    let data: Vec<f64> = (0..25).map(|i| (i as f64) * 1.5 - 3.0).collect();
    let b = bits_of(&data);
    assert_eq!(rolling_mean(&b, 4).unwrap().len(), b.len());
    assert_eq!(rolling_std(&b, 4).unwrap().len(), b.len());
    assert_eq!(pct_change(&b, 4).unwrap().len(), b.len());
    assert_eq!(rolling_rank(&b, 4).unwrap().len(), b.len());
    assert_eq!(rolling_correlation(&b, &b, 4).unwrap().len(), b.len());
}

#[test]
fn warmup_is_sentinel_and_steady_state_is_finite() {
    let data: Vec<f64> = (0..12).map(|i| ((i * 7 + 3) % 11) as f64 + 0.5).collect();
    let b = bits_of(&data);
    let w = 5;
    let mean = floats_of(&rolling_mean(&b, w).unwrap());
    let std = floats_of(&rolling_std(&b, w).unwrap());
    let rank = floats_of(&rolling_rank(&b, w).unwrap());
    let corr_in: Vec<f64> = (0..12).map(|i| ((i * 5 + 1) % 13) as f64).collect();
    let corr = floats_of(&rolling_correlation(&b, &bits_of(&corr_in), w).unwrap());
    for i in 0..w - 1 {
        assert!(mean[i].is_nan());
        assert!(std[i].is_nan());
        assert!(rank[i].is_nan());
        assert!(corr[i].is_nan());
    }
    for i in w - 1..12 {
        assert!(mean[i].is_finite());
        assert!(std[i].is_finite());
        assert!(rank[i].is_finite());
        assert!(corr[i].is_finite());
    }
}

#[test]
fn repeated_calls_are_bit_identical() {
    let data: Vec<f64> = (0..20).map(|i| ((i * 13 + 5) % 17) as f64 * 0.375).collect();
    let b = bits_of(&data);
    let other: Vec<f64> = (0..20).map(|i| ((i * 3 + 2) % 19) as f64 * 1.25).collect();
    let ob = bits_of(&other);
    assert_eq!(rolling_mean(&b, 4).unwrap(), rolling_mean(&b, 4).unwrap());
    assert_eq!(rolling_std(&b, 4).unwrap(), rolling_std(&b, 4).unwrap());
    assert_eq!(pct_change(&b, 3).unwrap(), pct_change(&b, 3).unwrap());
    assert_eq!(rolling_rank(&b, 4).unwrap(), rolling_rank(&b, 4).unwrap());
    assert_eq!(
        rolling_correlation(&b, &ob, 4).unwrap(),
        rolling_correlation(&b, &ob, 4).unwrap()
    );
}

#[test]
fn mean_matches_direct_recomputation() {
    let data: Vec<f64> = (0..30).map(|i| ((i * 29 + 7) % 23) as f64 * 0.625 - 4.0).collect();
    let w = 6;
    let out = floats_of(&rolling_mean(&bits_of(&data), w).unwrap());
    let mut sum = 0.0f64;
    let mut expect: Vec<f64> = Vec::new();
    for i in 0..data.len() {
        sum += data[i];
        if i >= w {
            sum -= data[i - w];
        }
        if i + 1 < w {
            expect.push(f64::NAN);
        } else {
            expect.push(sum / w as f64);
        }
    }
    for i in 0..data.len() {
        assert!(same(out[i], expect[i]));
    }
}
