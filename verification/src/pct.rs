//! Percentage change over a fixed lookback.

use vstd::prelude::*;
use crate::arith::{div_bits, f64_div, f64_sub, sub_bits};
use crate::bits::{finite_bits, is_finite_bits, is_zero_bits, zero_bits, NAN_BITS};
use crate::error::ExprError;

verus! {

/// The relative change emitted at position `i` for lookback `p`: the
/// sentinel inside the warm-up, at a non-finite or zero base, and at a
/// non-finite current sample; otherwise `(s[i] - s[i - p]) / s[i - p]`.
pub open spec fn pct_at(s: Seq<u64>, p: int, i: int) -> u64 {
    if i < p {
        NAN_BITS
    } else if !is_finite_bits(s[i - p]) || is_zero_bits(s[i - p]) {
        NAN_BITS
    } else if !is_finite_bits(s[i]) {
        NAN_BITS
    } else {
        div_bits(sub_bits(s[i], s[i - p]), s[i - p])
    }
}

/// The whole output series of the percentage change.
pub open spec fn pct_out(s: Seq<u64>, p: int) -> Seq<u64> {
    Seq::new(s.len(), |i: int| pct_at(s, p, i))
}

/// Percentage change of a series of double bit patterns against the sample
/// `periods` positions back.
pub fn pct_change(data: &Vec<u64>, periods: usize) -> (r: Result<Vec<u64>, ExprError>)
    ensures
        r is Ok <==> periods >= 1,
        r is Ok ==> r->Ok_0@ == pct_out(data@, periods as int),
        r is Ok ==> r->Ok_0@.len() == data@.len(),
        r is Ok ==> forall|i: int| 0 <= i < data@.len() && i < periods ==> r->Ok_0@[i] == NAN_BITS,
        r is Err ==> r->Err_0 is InvalidPeriod,
{
    if periods < 1 {
        return Err(ExprError::InvalidPeriod("Period must be positive".to_owned()));
    }
    let n = data.len();
    let mut out: Vec<u64> = Vec::new();
    let mut i: usize = 0;
    while i < n
        invariant
            1 <= periods,
            n == data@.len(),
            i <= n,
            out@.len() == i,
            forall|k: int| 0 <= k < i ==> out@[k] == pct_at(data@, periods as int, k),
        decreases n - i,
    {
        let out_i = if i < periods {
            NAN_BITS
        } else {
            let prev = data[i - periods];
            if !finite_bits(prev) || zero_bits(prev) {
                NAN_BITS
            } else {
                let curr = data[i];
                if !finite_bits(curr) {
                    NAN_BITS
                } else {
                    f64_div(f64_sub(curr, prev), prev)
                }
            }
        };
        out.push(out_i);
        i += 1;
    }
    proof {
        assert(out@ =~= pct_out(data@, periods as int));
    }
    Ok(out)
}

} // verus!
