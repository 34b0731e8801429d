//! Rolling Pearson correlation of two series.

use vstd::prelude::*;
use crate::arith::{
    div_bits, f64_add, f64_div, f64_mul, f64_of_count, f64_sqrt, f64_sub, mul_bits, of_count_bits,
    sqrt_bits, sub_bits,
};
use crate::bits::{finite_bits, is_finite_bits, le_bits, le_bits_exec, NAN_BITS, ZERO_BITS};
use crate::error::ExprError;
use crate::window::{
    firsts, lemma_roll_sum_push, lemma_valid_pairs_len, prod_terms, roll_sum, seconds, sq_firsts,
    sq_seconds, valid_pairs,
};

verus! {

/// Mean of the left sides of the last `w` pairs of `v`.
pub open spec fn pair_mean_x(v: Seq<(u64, u64)>, w: int) -> u64 {
    div_bits(roll_sum(firsts(v), w, v.len() as int), of_count_bits(w as u64))
}

/// Mean of the right sides of the last `w` pairs of `v`.
pub open spec fn pair_mean_y(v: Seq<(u64, u64)>, w: int) -> u64 {
    div_bits(roll_sum(seconds(v), w, v.len() as int), of_count_bits(w as u64))
}

/// Covariance of the last `w` pairs of `v` (biased, over the running sums).
pub open spec fn pair_cov(v: Seq<(u64, u64)>, w: int) -> u64 {
    sub_bits(
        div_bits(roll_sum(prod_terms(v), w, v.len() as int), of_count_bits(w as u64)),
        mul_bits(pair_mean_x(v, w), pair_mean_y(v, w)),
    )
}

/// Variance of the left sides of the last `w` pairs of `v`.
pub open spec fn pair_var_x(v: Seq<(u64, u64)>, w: int) -> u64 {
    sub_bits(
        div_bits(roll_sum(sq_firsts(v), w, v.len() as int), of_count_bits(w as u64)),
        mul_bits(pair_mean_x(v, w), pair_mean_x(v, w)),
    )
}

/// Variance of the right sides of the last `w` pairs of `v`.
pub open spec fn pair_var_y(v: Seq<(u64, u64)>, w: int) -> u64 {
    sub_bits(
        div_bits(roll_sum(sq_seconds(v), w, v.len() as int), of_count_bits(w as u64)),
        mul_bits(pair_mean_y(v, w), pair_mean_y(v, w)),
    )
}

/// The correlation emitted at position `i` for window `w`. A step where
/// either sample is non-finite never enters the aggregator and emits the
/// sentinel; so do all steps before `w` all-finite pairs have been seen and
/// the steps whose window shows zero or negative variance on either side.
/// Otherwise the Pearson quotient of covariance over the product of the two
/// standard deviations is emitted.
pub open spec fn corr_at(x: Seq<u64>, y: Seq<u64>, w: int, i: int) -> u64 {
    if !is_finite_bits(x[i]) || !is_finite_bits(y[i]) {
        NAN_BITS
    } else {
        let v = valid_pairs(x, y, i + 1);
        if (v.len() as int) < w {
            NAN_BITS
        } else {
            if le_bits(pair_var_x(v, w), ZERO_BITS) || le_bits(pair_var_y(v, w), ZERO_BITS) {
                NAN_BITS
            } else {
                div_bits(
                    pair_cov(v, w),
                    mul_bits(sqrt_bits(pair_var_x(v, w)), sqrt_bits(pair_var_y(v, w))),
                )
            }
        }
    }
}

/// The whole output series of the rolling correlation.
pub open spec fn corr_out(x: Seq<u64>, y: Seq<u64>, w: int) -> Seq<u64> {
    Seq::new(x.len(), |i: int| corr_at(x, y, w, i))
}

/// Rolling Pearson correlation of two equal-length series of double bit
/// patterns over a trailing window of `window` all-finite pairs.
pub fn rolling_correlation(data_x: &Vec<u64>, data_y: &Vec<u64>, window: usize) -> (r: Result<
    Vec<u64>,
    ExprError,
>)
    requires
        data_x@.len() == data_y@.len(),
    ensures
        r is Ok <==> window >= 2,
        r is Ok ==> r->Ok_0@ == corr_out(data_x@, data_y@, window as int),
        r is Ok ==> r->Ok_0@.len() == data_x@.len(),
        r is Ok ==> forall|i: int|
            0 <= i < data_x@.len() && i + 1 < window ==> r->Ok_0@[i] == NAN_BITS,
        r is Err ==> r->Err_0 is InvalidPeriod,
{
    if window < 2 {
        return Err(ExprError::InvalidPeriod("Window size must be at least 2".to_owned()));
    }
    let n = data_x.len();
    let mut out: Vec<u64> = Vec::new();
    let wbits = f64_of_count(window as u64);
    let mut vx: Vec<u64> = Vec::new();
    let mut vy: Vec<u64> = Vec::new();
    let mut sum_x: u64 = ZERO_BITS;
    let mut sum_y: u64 = ZERO_BITS;
    let mut sum_xy: u64 = ZERO_BITS;
    let mut sum_xx: u64 = ZERO_BITS;
    let mut sum_yy: u64 = ZERO_BITS;
    let mut i: usize = 0;
    while i < n
        invariant
            2 <= window,
            n == data_x@.len(),
            data_x@.len() == data_y@.len(),
            i <= n,
            out@.len() == i,
            wbits == of_count_bits(window as u64),
            vx@ == firsts(valid_pairs(data_x@, data_y@, i as int)),
            vy@ == seconds(valid_pairs(data_x@, data_y@, i as int)),
            vx@.len() == valid_pairs(data_x@, data_y@, i as int).len(),
            vy@.len() == vx@.len(),
            vx@.len() <= i,
            sum_x == roll_sum(
                firsts(valid_pairs(data_x@, data_y@, i as int)),
                window as int,
                vx@.len() as int,
            ),
            sum_y == roll_sum(
                seconds(valid_pairs(data_x@, data_y@, i as int)),
                window as int,
                vx@.len() as int,
            ),
            sum_xy == roll_sum(
                prod_terms(valid_pairs(data_x@, data_y@, i as int)),
                window as int,
                vx@.len() as int,
            ),
            sum_xx == roll_sum(
                sq_firsts(valid_pairs(data_x@, data_y@, i as int)),
                window as int,
                vx@.len() as int,
            ),
            sum_yy == roll_sum(
                sq_seconds(valid_pairs(data_x@, data_y@, i as int)),
                window as int,
                vx@.len() as int,
            ),
            forall|k: int| 0 <= k < i ==> out@[k] == corr_at(data_x@, data_y@, window as int, k),
        decreases n - i,
    {
        let a = data_x[i];
        let b = data_y[i];
        let out_i: u64;
        if !finite_bits(a) || !finite_bits(b) {
            out_i = NAN_BITS;
        } else {
            let ghost old_vp = valid_pairs(data_x@, data_y@, i as int);
            let t = vx.len() + 1;
            let mut new_sx = f64_add(sum_x, a);
            let mut new_sy = f64_add(sum_y, b);
            let mut new_sxy = f64_add(sum_xy, f64_mul(a, b));
            let mut new_sxx = f64_add(sum_xx, f64_mul(a, a));
            let mut new_syy = f64_add(sum_yy, f64_mul(b, b));
            if t > window {
                let ox = vx[t - 1 - window];
                let oy = vy[t - 1 - window];
                new_sx = f64_sub(new_sx, ox);
                new_sy = f64_sub(new_sy, oy);
                new_sxy = f64_sub(new_sxy, f64_mul(ox, oy));
                new_sxx = f64_sub(new_sxx, f64_mul(ox, ox));
                new_syy = f64_sub(new_syy, f64_mul(oy, oy));
            }
            sum_x = new_sx;
            sum_y = new_sy;
            sum_xy = new_sxy;
            sum_xx = new_sxx;
            sum_yy = new_syy;
            vx.push(a);
            vy.push(b);
            proof {
                let vp = valid_pairs(data_x@, data_y@, i + 1);
                assert(vp == old_vp.push((a, b)));
                assert(firsts(vp) =~= firsts(old_vp).push(a));
                assert(seconds(vp) =~= seconds(old_vp).push(b));
                assert(prod_terms(vp) =~= prod_terms(old_vp).push(mul_bits(a, b)));
                assert(sq_firsts(vp) =~= sq_firsts(old_vp).push(mul_bits(a, a)));
                assert(sq_seconds(vp) =~= sq_seconds(old_vp).push(mul_bits(b, b)));
                lemma_roll_sum_push(firsts(old_vp), a, window as int, old_vp.len() as int);
                lemma_roll_sum_push(seconds(old_vp), b, window as int, old_vp.len() as int);
                lemma_roll_sum_push(
                    prod_terms(old_vp),
                    mul_bits(a, b),
                    window as int,
                    old_vp.len() as int,
                );
                lemma_roll_sum_push(
                    sq_firsts(old_vp),
                    mul_bits(a, a),
                    window as int,
                    old_vp.len() as int,
                );
                lemma_roll_sum_push(
                    sq_seconds(old_vp),
                    mul_bits(b, b),
                    window as int,
                    old_vp.len() as int,
                );
            }
            if vx.len() < window {
                out_i = NAN_BITS;
            } else {
                let mean_x = f64_div(sum_x, wbits);
                let mean_y = f64_div(sum_y, wbits);
                let cov = f64_sub(f64_div(sum_xy, wbits), f64_mul(mean_x, mean_y));
                let var_x = f64_sub(f64_div(sum_xx, wbits), f64_mul(mean_x, mean_x));
                let var_y = f64_sub(f64_div(sum_yy, wbits), f64_mul(mean_y, mean_y));
                if le_bits_exec(var_x, ZERO_BITS) || le_bits_exec(var_y, ZERO_BITS) {
                    out_i = NAN_BITS;
                } else {
                    out_i = f64_div(cov, f64_mul(f64_sqrt(var_x), f64_sqrt(var_y)));
                }
            }
        }
        out.push(out_i);
        i += 1;
    }
    proof {
        assert(out@ =~= corr_out(data_x@, data_y@, window as int));
        assert forall|i2: int|
            0 <= i2 < data_x@.len() && i2 + 1 < window implies out@[i2] == NAN_BITS by {
            lemma_valid_pairs_len(data_x@, data_y@, i2 + 1);
        }
    }
    Ok(out)
}

} // verus!
