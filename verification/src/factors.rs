//! Factor compositors: fixed arithmetic formulas over the window
//! statistics.

use vstd::prelude::*;
use crate::arith::{add_bits, div_bits, f64_add, f64_div, f64_mul, f64_sub, mul_bits, sub_bits};
use crate::bits::{
    finite_bits, is_finite_bits, is_nan_bits, is_zero_bits, lemma_nan_const, neg_bits,
    negate_bits, zero_bits, NAN_BITS, ZERO_BITS,
};
use crate::corr::{corr_at, corr_out, rolling_correlation};
use crate::error::ExprError;
use crate::mean::{mean_at, mean_out, rolling_mean};
use crate::pct::{pct_at, pct_change, pct_out};
use crate::rank::{rank_at, rank_out, rolling_rank};
use crate::std_dev::{rolling_std, std_at, std_out};

verus! {

/// Weight of the shortest timeframe of the relative-strength factor: 0.5.
pub const WEIGHT_SHORT: u64 = 0x3fe0_0000_0000_0000;

/// Weight of the middle timeframe of the relative-strength factor: 0.3.
pub const WEIGHT_MID: u64 = 0x3fd3_3333_3333_3333;

/// Weight of the longest timeframe of the relative-strength factor: 0.2.
pub const WEIGHT_LONG: u64 = 0x3fc9_9999_9999_999a;

/// Momentum score at position `i`: the `lb`-period return divided by the
/// rolling deviation of the one-period returns, sentinel when either
/// operand is non-finite or the deviation is zero.
pub open spec fn momentum_at(p: Seq<u64>, lb: int, i: int) -> u64 {
    let m = pct_at(p, lb, i);
    let v = std_at(pct_out(p, 1), lb, i);
    if !is_finite_bits(m) || !is_finite_bits(v) || is_zero_bits(v) {
        NAN_BITS
    } else {
        div_bits(m, v)
    }
}

/// The whole momentum factor series.
pub open spec fn momentum_out(p: Seq<u64>, lb: int) -> Seq<u64> {
    Seq::new(p.len(), |i: int| momentum_at(p, lb, i))
}

/// Momentum factor: `lb`-period percentage change scaled by the rolling
/// deviation of one-period returns.
pub fn momentum_factor(prices: &Vec<u64>, lookback: usize) -> (r: Result<Vec<u64>, ExprError>)
    ensures
        r is Ok <==> lookback >= 2,
        r is Ok ==> r->Ok_0@ == momentum_out(prices@, lookback as int),
        r is Ok ==> r->Ok_0@.len() == prices@.len(),
        r is Err ==> r->Err_0 is InvalidPeriod,
{
    let rets = match pct_change(prices, 1) {
        Ok(v) => v,
        Err(e) => { return Err(e) },
    };
    let momentum = match pct_change(prices, lookback) {
        Ok(v) => v,
        Err(e) => { return Err(e) },
    };
    let vol = match rolling_std(&rets, lookback) {
        Ok(v) => v,
        Err(e) => { return Err(e) },
    };
    let n = prices.len();
    let mut out: Vec<u64> = Vec::new();
    let mut i: usize = 0;
    while i < n
        invariant
            2 <= lookback,
            n == prices@.len(),
            rets@ == pct_out(prices@, 1),
            momentum@ == pct_out(prices@, lookback as int),
            vol@ == std_out(rets@, lookback as int),
            momentum@.len() == n,
            vol@.len() == n,
            i <= n,
            out@.len() == i,
            forall|k: int| 0 <= k < i ==> out@[k] == momentum_at(prices@, lookback as int, k),
        decreases n - i,
    {
        let m = momentum[i];
        let v = vol[i];
        let out_i = if !finite_bits(m) || !finite_bits(v) || zero_bits(v) {
            NAN_BITS
        } else {
            f64_div(m, v)
        };
        out.push(out_i);
        i += 1;
    }
    proof {
        assert(out@ =~= momentum_out(prices@, lookback as int));
    }
    Ok(out)
}

/// Mean-reversion score at position `i`: the negated z-score of the price
/// against its rolling mean and deviation, sentinel when any operand is
/// non-finite or the deviation is zero.
pub open spec fn mean_reversion_at(p: Seq<u64>, lb: int, i: int) -> u64 {
    let x = p[i];
    let m = mean_at(p, lb, i);
    let s = std_at(p, lb, i);
    if !is_finite_bits(x) || !is_finite_bits(m) || !is_finite_bits(s) || is_zero_bits(s) {
        NAN_BITS
    } else {
        div_bits(neg_bits(sub_bits(x, m)), s)
    }
}

/// The whole mean-reversion factor series.
pub open spec fn mean_reversion_out(p: Seq<u64>, lb: int) -> Seq<u64> {
    Seq::new(p.len(), |i: int| mean_reversion_at(p, lb, i))
}

/// Mean-reversion factor: negated z-score of the price inside its trailing
/// window.
pub fn mean_reversion_factor(prices: &Vec<u64>, lookback: usize) -> (r: Result<
    Vec<u64>,
    ExprError,
>)
    ensures
        r is Ok <==> lookback >= 2,
        r is Ok ==> r->Ok_0@ == mean_reversion_out(prices@, lookback as int),
        r is Ok ==> r->Ok_0@.len() == prices@.len(),
        r is Err ==> r->Err_0 is InvalidPeriod,
{
    let ma = match rolling_mean(prices, lookback) {
        Ok(v) => v,
        Err(e) => { return Err(e) },
    };
    let sd = match rolling_std(prices, lookback) {
        Ok(v) => v,
        Err(e) => { return Err(e) },
    };
    let n = prices.len();
    let mut out: Vec<u64> = Vec::new();
    let mut i: usize = 0;
    while i < n
        invariant
            2 <= lookback,
            n == prices@.len(),
            ma@ == mean_out(prices@, lookback as int),
            sd@ == std_out(prices@, lookback as int),
            ma@.len() == n,
            sd@.len() == n,
            i <= n,
            out@.len() == i,
            forall|k: int|
                0 <= k < i ==> out@[k] == mean_reversion_at(prices@, lookback as int, k),
        decreases n - i,
    {
        let x = prices[i];
        let m = ma[i];
        let s = sd[i];
        let out_i = if !finite_bits(x) || !finite_bits(m) || !finite_bits(s) || zero_bits(s) {
            NAN_BITS
        } else {
            f64_div(negate_bits(f64_sub(x, m)), s)
        };
        out.push(out_i);
        i += 1;
    }
    proof {
        assert(out@ =~= mean_reversion_out(prices@, lookback as int));
    }
    Ok(out)
}

/// One timeframe's weighted contribution to the relative-strength factor:
/// the rank of the `tf`-period returns inside the `lb` window, scaled by
/// the timeframe's weight, with a non-finite rank contributing zero rather
/// than the sentinel.
pub open spec fn strength_term(p: Seq<u64>, lb: int, tf: int, wt: u64, i: int) -> u64 {
    let r = rank_at(pct_out(p, tf), lb, i);
    if is_finite_bits(r) {
        mul_bits(r, wt)
    } else {
        ZERO_BITS
    }
}

/// Relative-strength score at position `i`: the three weighted timeframe
/// contributions accumulated onto a zero start, in timeframe order.
pub open spec fn strength_at(p: Seq<u64>, lb: int, i: int) -> u64 {
    add_bits(
        add_bits(
            add_bits(ZERO_BITS, strength_term(p, lb, lb / 3, WEIGHT_SHORT, i)),
            strength_term(p, lb, lb, WEIGHT_MID, i),
        ),
        strength_term(p, lb, 2 * lb, WEIGHT_LONG, i),
    )
}

/// The whole relative-strength factor series.
pub open spec fn strength_out(p: Seq<u64>, lb: int) -> Seq<u64> {
    Seq::new(p.len(), |i: int| strength_at(p, lb, i))
}

/// Relative-strength factor: weighted sum of return ranks over a third of
/// the lookback, the lookback, and twice the lookback.
pub fn relative_strength_factor(prices: &Vec<u64>, lookback: usize) -> (r: Result<
    Vec<u64>,
    ExprError,
>)
    requires
        lookback * 2 <= usize::MAX,
    ensures
        r is Ok <==> lookback >= 3,
        r is Ok ==> r->Ok_0@ == strength_out(prices@, lookback as int),
        r is Ok ==> r->Ok_0@.len() == prices@.len(),
        r is Err ==> r->Err_0 is InvalidPeriod,
{
    let tf_short = lookback / 3;
    let mom_short = match pct_change(prices, tf_short) {
        Ok(v) => v,
        Err(e) => { return Err(e) },
    };
    let rank_short = match rolling_rank(&mom_short, lookback) {
        Ok(v) => v,
        Err(e) => { return Err(e) },
    };
    let mom_mid = match pct_change(prices, lookback) {
        Ok(v) => v,
        Err(e) => { return Err(e) },
    };
    let rank_mid = match rolling_rank(&mom_mid, lookback) {
        Ok(v) => v,
        Err(e) => { return Err(e) },
    };
    let mom_long = match pct_change(prices, lookback * 2) {
        Ok(v) => v,
        Err(e) => { return Err(e) },
    };
    let rank_long = match rolling_rank(&mom_long, lookback) {
        Ok(v) => v,
        Err(e) => { return Err(e) },
    };
    let n = prices.len();
    let mut out: Vec<u64> = Vec::new();
    let mut i: usize = 0;
    while i < n
        invariant
            3 <= lookback,
            n == prices@.len(),
            rank_short@ == rank_out(pct_out(prices@, lookback as int / 3), lookback as int),
            rank_mid@ == rank_out(pct_out(prices@, lookback as int), lookback as int),
            rank_long@ == rank_out(pct_out(prices@, 2 * (lookback as int)), lookback as int),
            rank_short@.len() == n,
            rank_mid@.len() == n,
            rank_long@.len() == n,
            i <= n,
            out@.len() == i,
            forall|k: int| 0 <= k < i ==> out@[k] == strength_at(prices@, lookback as int, k),
        decreases n - i,
    {
        let r1 = rank_short[i];
        let t1 = if finite_bits(r1) {
            f64_mul(r1, WEIGHT_SHORT)
        } else {
            ZERO_BITS
        };
        let r2 = rank_mid[i];
        let t2 = if finite_bits(r2) {
            f64_mul(r2, WEIGHT_MID)
        } else {
            ZERO_BITS
        };
        let r3 = rank_long[i];
        let t3 = if finite_bits(r3) {
            f64_mul(r3, WEIGHT_LONG)
        } else {
            ZERO_BITS
        };
        let out_i = f64_add(f64_add(f64_add(ZERO_BITS, t1), t2), t3);
        out.push(out_i);
        i += 1;
    }
    proof {
        assert(out@ =~= strength_out(prices@, lookback as int));
    }
    Ok(out)
}

/// The two-series alpha score at position `i`: the negated rank of the
/// rolling deviation of `h`, times the correlation of `h` with `vol`, with
/// a non-finite operand replaced by the sentinel before the product.
pub open spec fn alpha42_at(h: Seq<u64>, vol: Seq<u64>, i: int) -> u64 {
    let vr = rank_at(std_out(h, 10), 10, i);
    let pc = corr_at(h, vol, 10, i);
    let left = if is_finite_bits(vr) {
        neg_bits(vr)
    } else {
        NAN_BITS
    };
    let right = if is_finite_bits(pc) {
        pc
    } else {
        NAN_BITS
    };
    mul_bits(left, right)
}

/// The whole alpha factor series.
pub open spec fn alpha42_out(h: Seq<u64>, vol: Seq<u64>) -> Seq<u64> {
    Seq::new(h.len(), |i: int| alpha42_at(h, vol, i))
}

/// Named alpha factor over two series: negated volatility rank times the
/// price-volume correlation, all over ten-sample windows.
pub fn alpha101_factor_42(high: &Vec<u64>, volume: &Vec<u64>) -> (r: Result<Vec<u64>, ExprError>)
    requires
        high@.len() == volume@.len(),
    ensures
        r is Ok,
        r->Ok_0@ == alpha42_out(high@, volume@),
        r->Ok_0@.len() == high@.len(),
        forall|i: int|
            0 <= i < high@.len() && (!is_finite_bits(rank_at(std_out(high@, 10), 10, i))
                || !is_finite_bits(corr_at(high@, volume@, 10, i))) ==> is_nan_bits(
                r->Ok_0@[i],
            ),
{
    let high_std = match rolling_std(high, 10) {
        Ok(v) => v,
        Err(e) => { return Err(e) },
    };
    let vol_rank = match rolling_rank(&high_std, 10) {
        Ok(v) => v,
        Err(e) => { return Err(e) },
    };
    let price_corr = match rolling_correlation(high, volume, 10) {
        Ok(v) => v,
        Err(e) => { return Err(e) },
    };
    let n = high.len();
    let mut out: Vec<u64> = Vec::new();
    let mut i: usize = 0;
    while i < n
        invariant
            n == high@.len(),
            high@.len() == volume@.len(),
            vol_rank@ == rank_out(std_out(high@, 10), 10),
            price_corr@ == corr_out(high@, volume@, 10),
            vol_rank@.len() == n,
            price_corr@.len() == n,
            i <= n,
            out@.len() == i,
            forall|k: int| 0 <= k < i ==> out@[k] == alpha42_at(high@, volume@, k),
            forall|k: int|
                0 <= k < i && (!is_finite_bits(rank_at(std_out(high@, 10), 10, k))
                    || !is_finite_bits(corr_at(high@, volume@, 10, k))) ==> is_nan_bits(out@[k]),
        decreases n - i,
    {
        let vr = vol_rank[i];
        let left = if finite_bits(vr) {
            negate_bits(vr)
        } else {
            NAN_BITS
        };
        let pc = price_corr[i];
        let right = if finite_bits(pc) {
            pc
        } else {
            NAN_BITS
        };
        proof {
            lemma_nan_const();
        }
        let out_i = f64_mul(left, right);
        out.push(out_i);
        i += 1;
    }
    proof {
        assert(out@ =~= alpha42_out(high@, volume@));
    }
    Ok(out)
}

} // verus!
