//! Rolling mean.

use vstd::prelude::*;
use crate::arith::{div_bits, f64_add, f64_div, f64_of_count, f64_sub, of_count_bits};
use crate::bits::{NAN_BITS, ZERO_BITS};
use crate::error::ExprError;
use crate::window::roll_sum;

verus! {

/// The mean emitted at position `i` for window `w`: the sentinel until `w`
/// samples have been seen, then the running sum divided by the window count.
/// Non-finite samples are not special-cased here; they flow through the sum
/// arithmetically, which is this statistic's documented asymmetry against
/// the standard deviation and the correlation.
pub open spec fn mean_at(s: Seq<u64>, w: int, i: int) -> u64 {
    if i + 1 < w {
        NAN_BITS
    } else {
        div_bits(roll_sum(s, w, i + 1), of_count_bits(w as u64))
    }
}

/// The whole output series of the rolling mean.
pub open spec fn mean_out(s: Seq<u64>, w: int) -> Seq<u64> {
    Seq::new(s.len(), |i: int| mean_at(s, w, i))
}

/// Rolling mean of a series of double bit patterns over a trailing window
/// of `window` samples.
pub fn rolling_mean(data: &Vec<u64>, window: usize) -> (r: Result<Vec<u64>, ExprError>)
    ensures
        r is Ok <==> window >= 1,
        r is Ok ==> r->Ok_0@ == mean_out(data@, window as int),
        r is Ok ==> r->Ok_0@.len() == data@.len(),
        r is Ok ==> forall|i: int|
            0 <= i < data@.len() && i + 1 < window ==> r->Ok_0@[i] == NAN_BITS,
        r is Err ==> r->Err_0 is InvalidPeriod,
{
    if window < 1 {
        return Err(ExprError::InvalidPeriod("Window size must be positive".to_owned()));
    }
    let n = data.len();
    let mut out: Vec<u64> = Vec::new();
    let wbits = f64_of_count(window as u64);
    let mut sum: u64 = ZERO_BITS;
    let mut i: usize = 0;
    while i < n
        invariant
            1 <= window,
            n == data@.len(),
            i <= n,
            out@.len() == i,
            wbits == of_count_bits(window as u64),
            sum == roll_sum(data@, window as int, i as int),
            forall|k: int| 0 <= k < i ==> out@[k] == mean_at(data@, window as int, k),
        decreases n - i,
    {
        let val = data[i];
        sum = f64_add(sum, val);
        if i >= window {
            sum = f64_sub(sum, data[i - window]);
        }
        let out_i = if i < window - 1 {
            NAN_BITS
        } else {
            f64_div(sum, wbits)
        };
        out.push(out_i);
        i += 1;
    }
    proof {
        assert(out@ =~= mean_out(data@, window as int));
    }
    Ok(out)
}

} // verus!
