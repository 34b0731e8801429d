//! Rolling standard deviation.

use vstd::prelude::*;
use crate::arith::{
    div_bits, f64_add, f64_div, f64_mul, f64_of_count, f64_sqrt, f64_sub, mul_bits, of_count_bits,
    sqrt_bits, sub_bits,
};
use crate::bits::{finite_bits, is_finite_bits, le_bits, le_bits_exec, NAN_BITS, ZERO_BITS};
use crate::error::ExprError;
use crate::window::{lemma_roll_sum_push, lemma_valids_len, roll_sum, sq_terms, valids};

verus! {

/// The standard deviation emitted at position `i` for window `w`. A
/// non-finite sample never enters the aggregator and its own step emits the
/// sentinel; so do all steps before `w` finite samples have been seen. At
/// steady state the biased population variance is formed from the running
/// sum and sum of squares over the last `w` finite samples, the sentinel is
/// emitted for a variance at or below zero (cancellation can push a genuine
/// zero slightly negative), and the square root otherwise.
pub open spec fn std_at(s: Seq<u64>, w: int, i: int) -> u64 {
    if !is_finite_bits(s[i]) {
        NAN_BITS
    } else {
        let v = valids(s, i + 1);
        let t = v.len() as int;
        if t < w {
            NAN_BITS
        } else {
            let mean = div_bits(roll_sum(v, w, t), of_count_bits(w as u64));
            let variance = sub_bits(
                div_bits(roll_sum(sq_terms(v), w, t), of_count_bits(w as u64)),
                mul_bits(mean, mean),
            );
            if le_bits(variance, ZERO_BITS) {
                NAN_BITS
            } else {
                sqrt_bits(variance)
            }
        }
    }
}

/// The whole output series of the rolling standard deviation.
pub open spec fn std_out(s: Seq<u64>, w: int) -> Seq<u64> {
    Seq::new(s.len(), |i: int| std_at(s, w, i))
}

/// Rolling standard deviation of a series of double bit patterns over a
/// trailing window of `window` finite samples.
pub fn rolling_std(data: &Vec<u64>, window: usize) -> (r: Result<Vec<u64>, ExprError>)
    ensures
        r is Ok <==> window >= 2,
        r is Ok ==> r->Ok_0@ == std_out(data@, window as int),
        r is Ok ==> r->Ok_0@.len() == data@.len(),
        r is Ok ==> forall|i: int|
            0 <= i < data@.len() && i + 1 < window ==> r->Ok_0@[i] == NAN_BITS,
        r is Err ==> r->Err_0 is InvalidPeriod,
{
    if window < 2 {
        return Err(ExprError::InvalidPeriod("Window size must be at least 2".to_owned()));
    }
    let n = data.len();
    let mut out: Vec<u64> = Vec::new();
    let wbits = f64_of_count(window as u64);
    let mut vv: Vec<u64> = Vec::new();
    let mut sum: u64 = ZERO_BITS;
    let mut ssq: u64 = ZERO_BITS;
    let mut i: usize = 0;
    while i < n
        invariant
            2 <= window,
            n == data@.len(),
            i <= n,
            out@.len() == i,
            wbits == of_count_bits(window as u64),
            vv@ == valids(data@, i as int),
            vv@.len() <= i,
            sum == roll_sum(vv@, window as int, vv@.len() as int),
            ssq == roll_sum(sq_terms(vv@), window as int, vv@.len() as int),
            forall|k: int| 0 <= k < i ==> out@[k] == std_at(data@, window as int, k),
        decreases n - i,
    {
        let val = data[i];
        let out_i: u64;
        if !finite_bits(val) {
            out_i = NAN_BITS;
        } else {
            let ghost old_vv = vv@;
            let t = vv.len() + 1;
            let sq = f64_mul(val, val);
            let mut new_sum = f64_add(sum, val);
            let mut new_ssq = f64_add(ssq, sq);
            if t > window {
                let old_val = vv[t - 1 - window];
                new_sum = f64_sub(new_sum, old_val);
                new_ssq = f64_sub(new_ssq, f64_mul(old_val, old_val));
            }
            sum = new_sum;
            ssq = new_ssq;
            vv.push(val);
            proof {
                assert(vv@ == old_vv.push(val));
                lemma_roll_sum_push(old_vv, val, window as int, old_vv.len() as int);
                assert(sq_terms(vv@) =~= sq_terms(old_vv).push(mul_bits(val, val)));
                lemma_roll_sum_push(
                    sq_terms(old_vv),
                    mul_bits(val, val),
                    window as int,
                    old_vv.len() as int,
                );
            }
            if vv.len() < window {
                out_i = NAN_BITS;
            } else {
                let mean = f64_div(sum, wbits);
                let variance = f64_sub(f64_div(ssq, wbits), f64_mul(mean, mean));
                if le_bits_exec(variance, ZERO_BITS) {
                    out_i = NAN_BITS;
                } else {
                    out_i = f64_sqrt(variance);
                }
            }
        }
        out.push(out_i);
        i += 1;
    }
    proof {
        assert(out@ =~= std_out(data@, window as int));
        assert forall|i2: int|
            0 <= i2 < data@.len() && i2 + 1 < window implies out@[i2] == NAN_BITS by {
            lemma_valids_len(data@, i2 + 1);
        }
    }
    Ok(out)
}

} // verus!
