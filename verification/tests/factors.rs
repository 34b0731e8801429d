use rust_expr::{
    alpha101_factor_42, mean_reversion_factor, momentum_factor, relative_strength_factor,
    ExprError,
};

fn bits_of(v: &[f64]) -> Vec<u64> {
    v.iter().map(|x| x.to_bits()).collect()
}

fn floats_of(v: &[u64]) -> Vec<f64> {
    v.iter().map(|x| f64::from_bits(*x)).collect()
}

fn same(a: f64, b: f64) -> bool {
    (a.is_nan() && b.is_nan()) || a.to_bits() == b.to_bits()
}

fn assert_same(out: &[f64], expect: &[f64]) {
    assert_eq!(out.len(), expect.len());
    for i in 0..out.len() {
        assert!(same(out[i], expect[i]), "position {}: {} vs {}", i, out[i], expect[i]);
    }
}

// Hardware-float recomputations of the statistics, used as an oracle for
// the factor formulas below.
fn hw_mean(data: &[f64], w: usize) -> Vec<f64> {
    let mut out = Vec::new();
    let mut sum = 0.0f64;
    for i in 0..data.len() {
        sum += data[i];
        if i >= w {
            sum -= data[i - w];
        }
        out.push(if i + 1 < w { f64::NAN } else { sum / w as f64 });
    }
    out
}

fn hw_std(data: &[f64], w: usize) -> Vec<f64> {
    let mut out = Vec::new();
    let mut valid: Vec<f64> = Vec::new();
    let mut sum = 0.0f64;
    let mut ssq = 0.0f64;
    for i in 0..data.len() {
        if !data[i].is_finite() {
            out.push(f64::NAN);
            continue;
        }
        valid.push(data[i]);
        sum += data[i];
        ssq += data[i] * data[i];
        let t = valid.len();
        if t > w {
            let old = valid[t - 1 - w];
            sum -= old;
            ssq -= old * old;
        }
        if t < w {
            out.push(f64::NAN);
        } else {
            let mean = sum / w as f64;
            let var = ssq / w as f64 - mean * mean;
            out.push(if var <= 0.0 { f64::NAN } else { var.sqrt() });
        }
    }
    out
}

fn hw_pct(data: &[f64], p: usize) -> Vec<f64> {
    let mut out = Vec::new();
    for i in 0..data.len() {
        if i < p {
            out.push(f64::NAN);
        } else {
            let prev = data[i - p];
            if !prev.is_finite() || prev == 0.0 || !data[i].is_finite() {
                out.push(f64::NAN);
            } else {
                out.push((data[i] - prev) / prev);
            }
        }
    }
    out
}

fn hw_rank(data: &[f64], w: usize) -> Vec<f64> {
    let mut out = Vec::new();
    for i in 0..data.len() {
        if i + 1 < w {
            out.push(f64::NAN);
            continue;
        }
        let cur = data[i];
        let win = &data[i + 1 - w..i + 1];
        let valid: Vec<f64> = win.iter().copied().filter(|x| x.is_finite()).collect();
        if valid.is_empty() || !cur.is_finite() {
            out.push(f64::NAN);
        } else {
            let c = valid.iter().filter(|x| **x <= cur).count();
            out.push(c as f64 / valid.len() as f64);
        }
    }
    out
}

fn hw_corr(x: &[f64], y: &[f64], w: usize) -> Vec<f64> {
    let mut out = Vec::new();
    let mut vx: Vec<f64> = Vec::new();
    let mut vy: Vec<f64> = Vec::new();
    let (mut sx, mut sy, mut sxy, mut sxx, mut syy) = (0.0f64, 0.0f64, 0.0f64, 0.0f64, 0.0f64);
    for i in 0..x.len() {
        if !x[i].is_finite() || !y[i].is_finite() {
            out.push(f64::NAN);
            continue;
        }
        vx.push(x[i]);
        vy.push(y[i]);
        sx += x[i];
        sy += y[i];
        sxy += x[i] * y[i];
        sxx += x[i] * x[i];
        syy += y[i] * y[i];
        let t = vx.len();
        if t > w {
            let (ox, oy) = (vx[t - 1 - w], vy[t - 1 - w]);
            sx -= ox;
            sy -= oy;
            sxy -= ox * oy;
            sxx -= ox * ox;
            syy -= oy * oy;
        }
        if t < w {
            out.push(f64::NAN);
        } else {
            let mx = sx / w as f64;
            let my = sy / w as f64;
            let cov = sxy / w as f64 - mx * my;
            let varx = sxx / w as f64 - mx * mx;
            let vary = syy / w as f64 - my * my;
            if varx <= 0.0 || vary <= 0.0 {
                out.push(f64::NAN);
            } else {
                out.push(cov / (varx.sqrt() * vary.sqrt()));
            }
        }
    }
    out
}

fn sample_prices(n: usize) -> Vec<f64> {
    (0..n).map(|i| 50.0 + ((i * 37 + 11) % 29) as f64 * 1.75 - ((i * 13) % 7) as f64).collect()
}

#[test]
fn momentum_factor_concrete() {
    let prices = [10.0, 20.0, 30.0, 60.0];
    let out = floats_of(&momentum_factor(&bits_of(&prices), 2).unwrap());
    assert!(out[0].is_nan());
    assert!(out[1].is_nan());
    assert_eq!(out[2], 8.0);
    assert_eq!(out[3], 8.0);
}

#[test]
fn momentum_factor_matches_oracle() {
    let prices = sample_prices(40);
    let lb = 5;
    let out = floats_of(&momentum_factor(&bits_of(&prices), lb).unwrap());
    let momentum = hw_pct(&prices, lb);
    let vol = hw_std(&hw_pct(&prices, 1), lb);
    let expect: Vec<f64> = momentum
        .iter()
        .zip(vol.iter())
        .map(
            |(&m, &v)| {
                if !m.is_finite() || !v.is_finite() || v == 0.0 {
                    f64::NAN
                } else {
                    m / v
                }
            },
        )
        .collect();
    assert_same(&out, &expect);
}

#[test]
fn mean_reversion_factor_concrete() {
    let prices = [1.0, 2.0, 3.0, 4.0];
    let out = floats_of(&mean_reversion_factor(&bits_of(&prices), 2).unwrap());
    assert!(out[0].is_nan());
    assert_eq!(out[1], -1.0);
    assert_eq!(out[2], -1.0);
    assert_eq!(out[3], -1.0);
}

#[test]
fn mean_reversion_factor_matches_oracle() {
    let prices = sample_prices(40);
    let lb = 6;
    let out = floats_of(&mean_reversion_factor(&bits_of(&prices), lb).unwrap());
    let ma = hw_mean(&prices, lb);
    let sd = hw_std(&prices, lb);
    let mut expect = Vec::new();
    for i in 0..prices.len() {
        let (x, m, s) = (prices[i], ma[i], sd[i]);
        if !x.is_finite() || !m.is_finite() || !s.is_finite() || s == 0.0 {
            expect.push(f64::NAN);
        } else {
            expect.push(-(x - m) / s);
        }
    }
    assert_same(&out, &expect);
}

#[test]
fn relative_strength_factor_matches_oracle() {
    let prices = sample_prices(45);
    let lb = 6;
    let out = floats_of(&relative_strength_factor(&bits_of(&prices), lb).unwrap());
    let mut expect = vec![0.0f64; prices.len()];
    let timeframes = [lb / 3, lb, lb * 2];
    let weights = [0.5, 0.3, 0.2];
    for (tf, wt) in timeframes.iter().zip(weights.iter()) {
        let rank = hw_rank(&hw_pct(&prices, *tf), lb);
        for i in 0..prices.len() {
            expect[i] += if rank[i].is_finite() { rank[i] * wt } else { 0.0 };
        }
    }
    assert_same(&out, &expect);
}

#[test]
fn relative_strength_factor_weight_patterns() {
    assert_eq!(0.5f64.to_bits(), 0x3fe0_0000_0000_0000);
    assert_eq!(0.3f64.to_bits(), 0x3fd3_3333_3333_3333);
    assert_eq!(0.2f64.to_bits(), 0x3fc9_9999_9999_999a);
}

#[test]
fn alpha_factor_matches_oracle() {
    let high = sample_prices(40);
    let volume: Vec<f64> = (0..40).map(|i| 1000.0 + ((i * 53 + 19) % 41) as f64 * 12.5).collect();
    let out = floats_of(&alpha101_factor_42(&bits_of(&high), &bits_of(&volume)).unwrap());
    let vol_rank = hw_rank(&hw_std(&high, 10), 10);
    let corr = hw_corr(&high, &volume, 10);
    let mut expect = Vec::new();
    for i in 0..high.len() {
        let a = if vol_rank[i].is_finite() { -vol_rank[i] } else { f64::NAN };
        let b = if corr[i].is_finite() { corr[i] } else { f64::NAN };
        expect.push(a * b);
    }
    assert_same(&out, &expect);
    assert!(out[..9].iter().all(|x| x.is_nan()));
    assert!(out[19..].iter().any(|x| x.is_finite()));
}

#[test]
fn factor_invalid_lookbacks() {
    let prices = bits_of(&sample_prices(20));
    assert!(matches!(momentum_factor(&prices, 1), Err(ExprError::InvalidPeriod(_))));
    assert!(matches!(momentum_factor(&prices, 0), Err(ExprError::InvalidPeriod(_))));
    assert!(matches!(mean_reversion_factor(&prices, 1), Err(ExprError::InvalidPeriod(_))));
    assert!(matches!(relative_strength_factor(&prices, 2), Err(ExprError::InvalidPeriod(_))));
    assert!(momentum_factor(&prices, 2).is_ok());
    assert!(mean_reversion_factor(&prices, 2).is_ok());
    assert!(relative_strength_factor(&prices, 3).is_ok());
}

#[test]
fn factor_lengths_and_determinism() {
    let prices = bits_of(&sample_prices(30));
    let volume = bits_of(&sample_prices(30));
    assert_eq!(momentum_factor(&prices, 4).unwrap().len(), 30);
    assert_eq!(mean_reversion_factor(&prices, 4).unwrap().len(), 30);
    assert_eq!(relative_strength_factor(&prices, 4).unwrap().len(), 30);
    assert_eq!(alpha101_factor_42(&prices, &volume).unwrap().len(), 30);
    assert_eq!(momentum_factor(&prices, 4).unwrap(), momentum_factor(&prices, 4).unwrap());
    assert_eq!(
        mean_reversion_factor(&prices, 4).unwrap(),
        mean_reversion_factor(&prices, 4).unwrap()
    );
    assert_eq!(
        relative_strength_factor(&prices, 4).unwrap(),
        relative_strength_factor(&prices, 4).unwrap()
    );
    assert_eq!(
        alpha101_factor_42(&prices, &volume).unwrap(),
        alpha101_factor_42(&prices, &volume).unwrap()
    );
}
