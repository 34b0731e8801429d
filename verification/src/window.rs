//! The sliding aggregator, as mathematics.
//!
//! A running sum over a trailing window is the value left in a float
//! accumulator after adding each new term and, once more than `w` terms have
//! been seen, subtracting the term that ages out. Because float addition
//! does not reassociate, the accumulator's value is pinned by exactly this
//! recurrence and by nothing simpler; the statistics' contracts are stated
//! over it.

use vstd::prelude::*;
use crate::arith::{add_bits, mul_bits, sub_bits};
use crate::bits::{is_finite_bits, ZERO_BITS};

verus! {

/// The finite samples among the first `i` of `s`, in order. The aggregators
/// for standard deviation and correlation skip non-finite samples entirely,
/// so their windows slide over this subsequence.
pub open spec fn valids(s: Seq<u64>, i: int) -> Seq<u64>
    decreases i,
{
    if i <= 0 {
        Seq::empty()
    } else if is_finite_bits(s[i - 1]) {
        valids(s, i - 1).push(s[i - 1])
    } else {
        valids(s, i - 1)
    }
}

/// The pairs of samples among the first `i` positions of `x` and `y` where
/// both sides are finite, in order.
pub open spec fn valid_pairs(x: Seq<u64>, y: Seq<u64>, i: int) -> Seq<(u64, u64)>
    decreases i,
{
    if i <= 0 {
        Seq::empty()
    } else if is_finite_bits(x[i - 1]) && is_finite_bits(y[i - 1]) {
        valid_pairs(x, y, i - 1).push((x[i - 1], y[i - 1]))
    } else {
        valid_pairs(x, y, i - 1)
    }
}

/// The float accumulator over the first `t` terms of `v` with window `w`:
/// each step adds the new term; from the step where the count would pass
/// `w`, the term `w` places back is subtracted again.
pub open spec fn roll_sum(v: Seq<u64>, w: int, t: int) -> u64
    decreases t,
{
    if t <= 0 {
        ZERO_BITS
    } else {
        let pushed = add_bits(roll_sum(v, w, t - 1), v[t - 1]);
        if t > w {
            sub_bits(pushed, v[t - 1 - w])
        } else {
            pushed
        }
    }
}

/// Squared terms of a series of samples.
pub open spec fn sq_terms(v: Seq<u64>) -> Seq<u64> {
    Seq::new(v.len(), |t: int| mul_bits(v[t], v[t]))
}

/// Left components of a series of pairs.
pub open spec fn firsts(v: Seq<(u64, u64)>) -> Seq<u64> {
    Seq::new(v.len(), |t: int| v[t].0)
}

/// Right components of a series of pairs.
pub open spec fn seconds(v: Seq<(u64, u64)>) -> Seq<u64> {
    Seq::new(v.len(), |t: int| v[t].1)
}

/// Products of the two components of each pair.
pub open spec fn prod_terms(v: Seq<(u64, u64)>) -> Seq<u64> {
    Seq::new(v.len(), |t: int| mul_bits(v[t].0, v[t].1))
}

/// Squares of the left components.
pub open spec fn sq_firsts(v: Seq<(u64, u64)>) -> Seq<u64> {
    Seq::new(v.len(), |t: int| mul_bits(v[t].0, v[t].0))
}

/// Squares of the right components.
pub open spec fn sq_seconds(v: Seq<(u64, u64)>) -> Seq<u64> {
    Seq::new(v.len(), |t: int| mul_bits(v[t].1, v[t].1))
}

/// The accumulator over the first `t` terms does not look past them: a term
/// appended behind position `t` leaves it unchanged.
pub proof fn lemma_roll_sum_push(v: Seq<u64>, x: u64, w: int, t: int)
    requires
        w >= 1,
        0 <= t <= v.len(),
    ensures
        roll_sum(v.push(x), w, t) == roll_sum(v, w, t),
    decreases t,
{
    if t > 0 {
        lemma_roll_sum_push(v, x, w, t - 1);
    }
}

/// No more finite samples than samples.
pub proof fn lemma_valids_len(s: Seq<u64>, i: int)
    requires
        0 <= i,
    ensures
        valids(s, i).len() <= i,
    decreases i,
{
    if i > 0 {
        lemma_valids_len(s, i - 1);
    }
}

/// No more all-finite pairs than positions.
pub proof fn lemma_valid_pairs_len(x: Seq<u64>, y: Seq<u64>, i: int)
    requires
        0 <= i,
    ensures
        valid_pairs(x, y, i).len() <= i,
    decreases i,
{
    if i > 0 {
        lemma_valid_pairs_len(x, y, i - 1);
    }
}

} // verus!
