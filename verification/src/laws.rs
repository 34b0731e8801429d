//! Library-wide laws.
//!
//! Every statistic and factor pins its whole output to a spec function of
//! its inputs, so two calls on the same inputs cannot differ in a single
//! bit. The lemmas below record that determinism once per routine, and the
//! self-correlation lemma records how the correlation collapses when a
//! series is correlated with itself.

use vstd::prelude::*;
use crate::arith::{div_bits, mul_bits, sqrt_bits};
use crate::bits::{is_finite_bits, le_bits, NAN_BITS, ZERO_BITS};
use crate::corr::{corr_at, corr_out, pair_cov, pair_var_x, pair_var_y};
use crate::factors::{alpha42_out, mean_reversion_out, momentum_out, strength_out};
use crate::mean::mean_out;
use crate::pct::pct_out;
use crate::rank::rank_out;
use crate::std_dev::std_out;
use crate::window::{firsts, prod_terms, seconds, sq_firsts, sq_seconds, valid_pairs};

verus! {

/// Two rolling means of the same series and window are bit-identical.
pub proof fn lemma_mean_deterministic(s: Seq<u64>, w: int, a: Seq<u64>, b: Seq<u64>)
    requires
        a == mean_out(s, w),
        b == mean_out(s, w),
    ensures
        a == b,
{
}

/// Two rolling standard deviations of the same series and window are
/// bit-identical.
pub proof fn lemma_std_deterministic(s: Seq<u64>, w: int, a: Seq<u64>, b: Seq<u64>)
    requires
        a == std_out(s, w),
        b == std_out(s, w),
    ensures
        a == b,
{
}

/// Two percentage changes of the same series and lookback are
/// bit-identical.
pub proof fn lemma_pct_deterministic(s: Seq<u64>, p: int, a: Seq<u64>, b: Seq<u64>)
    requires
        a == pct_out(s, p),
        b == pct_out(s, p),
    ensures
        a == b,
{
}

/// Two rolling ranks of the same series and window are bit-identical.
pub proof fn lemma_rank_deterministic(s: Seq<u64>, w: int, a: Seq<u64>, b: Seq<u64>)
    requires
        a == rank_out(s, w),
        b == rank_out(s, w),
    ensures
        a == b,
{
}

/// Two rolling correlations of the same series pair and window are
/// bit-identical.
pub proof fn lemma_corr_deterministic(x: Seq<u64>, y: Seq<u64>, w: int, a: Seq<u64>, b: Seq<u64>)
    requires
        a == corr_out(x, y, w),
        b == corr_out(x, y, w),
    ensures
        a == b,
{
}

/// Two momentum factors of the same prices and lookback are bit-identical.
pub proof fn lemma_momentum_deterministic(p: Seq<u64>, lb: int, a: Seq<u64>, b: Seq<u64>)
    requires
        a == momentum_out(p, lb),
        b == momentum_out(p, lb),
    ensures
        a == b,
{
}

/// Two mean-reversion factors of the same prices and lookback are
/// bit-identical.
pub proof fn lemma_mean_reversion_deterministic(p: Seq<u64>, lb: int, a: Seq<u64>, b: Seq<u64>)
    requires
        a == mean_reversion_out(p, lb),
        b == mean_reversion_out(p, lb),
    ensures
        a == b,
{
}

/// Two relative-strength factors of the same prices and lookback are
/// bit-identical.
pub proof fn lemma_strength_deterministic(p: Seq<u64>, lb: int, a: Seq<u64>, b: Seq<u64>)
    requires
        a == strength_out(p, lb),
        b == strength_out(p, lb),
    ensures
        a == b,
{
}

/// Two alpha factors of the same series pair are bit-identical.
pub proof fn lemma_alpha42_deterministic(h: Seq<u64>, v: Seq<u64>, a: Seq<u64>, b: Seq<u64>)
    requires
        a == alpha42_out(h, v),
        b == alpha42_out(h, v),
    ensures
        a == b,
{
}

/// Pairing a series with itself pairs every sample with itself.
proof fn lemma_self_pairs(x: Seq<u64>, i: int)
    ensures
        forall|j: int|
            0 <= j < valid_pairs(x, x, i).len() ==> #[trigger] valid_pairs(x, x, i)[j].0
                == valid_pairs(x, x, i)[j].1,
    decreases i,
{
    if i > 0 {
        lemma_self_pairs(x, i - 1);
        let prev = valid_pairs(x, x, i - 1);
        let cur = valid_pairs(x, x, i);
        if is_finite_bits(x[i - 1]) {
            assert(cur == prev.push((x[i - 1], x[i - 1])));
            assert forall|j: int| 0 <= j < cur.len() implies #[trigger] cur[j].0 == cur[j].1 by {
                if j < prev.len() {
                    assert(cur[j] == prev[j]);
                } else {
                    assert(cur[j] == (x[i - 1], x[i - 1]));
                }
            }
        }
    }
}

/// Correlating a series with itself collapses the covariance and both
/// variances to one value `v`: each position emits the sentinel while the
/// window is warming up, at a non-finite sample, and when `v` is at or
/// below zero, and otherwise emits `v` divided by the square of its square
/// root — the quotient whose two operands differ only by the rounding of
/// the square root.
pub proof fn lemma_corr_self(x: Seq<u64>, w: int, i: int)
    requires
        0 <= i < x.len(),
    ensures
        pair_cov(valid_pairs(x, x, i + 1), w) == pair_var_x(valid_pairs(x, x, i + 1), w),
        pair_var_y(valid_pairs(x, x, i + 1), w) == pair_var_x(valid_pairs(x, x, i + 1), w),
        corr_at(x, x, w, i) == ({
            let v = valid_pairs(x, x, i + 1);
            let variance = pair_var_x(v, w);
            if !is_finite_bits(x[i]) {
                NAN_BITS
            } else if (v.len() as int) < w {
                NAN_BITS
            } else if le_bits(variance, ZERO_BITS) {
                NAN_BITS
            } else {
                div_bits(variance, mul_bits(sqrt_bits(variance), sqrt_bits(variance)))
            }
        }),
{
    let v = valid_pairs(x, x, i + 1);
    lemma_self_pairs(x, i + 1);
    assert(firsts(v) =~= seconds(v));
    assert(prod_terms(v) =~= sq_firsts(v));
    assert(sq_seconds(v) =~= sq_firsts(v));
}

} // verus!
