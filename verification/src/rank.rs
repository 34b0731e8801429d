//! Rolling rank (empirical percentile of the current sample inside its
//! trailing window).

use vstd::prelude::*;
use crate::arith::{div_bits, f64_div, f64_of_count, of_count_bits};
use crate::bits::{
    finite_bits, is_finite_bits, le_bits, le_bits_exec, lemma_finite_not_nan, lemma_le_bits_refl,
    lemma_le_bits_trans, lt_bits, NAN_BITS, ONE_BITS,
};
use crate::error::ExprError;

verus! {

/// Every sample of the window ending at `i` is finite.
pub open spec fn window_all_finite(s: Seq<u64>, w: int, i: int) -> bool {
    forall|k: int| i - w + 1 <= k <= i ==> is_finite_bits(#[trigger] s[k])
}

/// The window ending at `i` rises strictly from sample to sample.
pub open spec fn window_increasing(s: Seq<u64>, w: int, i: int) -> bool {
    forall|k: int| i - w + 1 <= k < i ==> lt_bits(#[trigger] s[k], s[k + 1])
}

/// The window ending at `i` falls strictly from sample to sample.
pub open spec fn window_decreasing(s: Seq<u64>, w: int, i: int) -> bool {
    forall|k: int| i - w + 1 <= k < i ==> lt_bits(s[k + 1], #[trigger] s[k])
}

/// In a finite, strictly rising window every sample is at most the last.
proof fn lemma_chain_le_up(s: Seq<u64>, w: int, i: int, k: int)
    requires
        w >= 1,
        0 <= i - w + 1,
        i < s.len(),
        window_all_finite(s, w, i),
        window_increasing(s, w, i),
        i - w + 1 <= k <= i,
    ensures
        le_bits(s[k], s[i]),
    decreases i - k,
{
    if k == i {
        lemma_finite_not_nan(s[i]);
        lemma_le_bits_refl(s[i]);
    } else {
        lemma_chain_le_up(s, w, i, k + 1);
        assert(lt_bits(s[k], s[k + 1]));
        lemma_le_bits_trans(s[k], s[k + 1], s[i]);
    }
}

/// In a strictly falling window the last sample is strictly below every
/// earlier one.
proof fn lemma_chain_lt_down(s: Seq<u64>, w: int, i: int, k: int)
    requires
        w >= 1,
        0 <= i - w + 1,
        i < s.len(),
        window_decreasing(s, w, i),
        i - w + 1 <= k < i,
    ensures
        lt_bits(s[i], s[k]),
    decreases i - k,
{
    assert(lt_bits(s[k + 1], s[k]));
    if k + 1 < i {
        lemma_chain_lt_down(s, w, i, k + 1);
        lemma_le_bits_trans(s[i], s[k + 1], s[k]);
        if le_bits(s[k], s[i]) {
            lemma_le_bits_trans(s[k], s[i], s[k + 1]);
            assert(false);
        }
    }
}

/// When every window sample is finite and at most `cur`, all of them are
/// counted.
proof fn lemma_count_le_all(win: Seq<u64>, cur: u64)
    requires
        forall|j: int|
            0 <= j < win.len() ==> is_finite_bits(#[trigger] win[j]) && le_bits(win[j], cur),
    ensures
        count_le(win, cur) == win.len(),
    decreases win.len(),
{
    if win.len() > 0 {
        assert forall|j: int| 0 <= j < win.drop_last().len() implies is_finite_bits(
            #[trigger] win.drop_last()[j],
        ) && le_bits(win.drop_last()[j], cur) by {
            assert(win.drop_last()[j] == win[j]);
        }
        lemma_count_le_all(win.drop_last(), cur);
        assert(win.last() == win[win.len() - 1]);
    }
}

/// When no window sample is at most `cur`, none is counted.
proof fn lemma_count_le_none(win: Seq<u64>, cur: u64)
    requires
        forall|j: int| 0 <= j < win.len() ==> !le_bits(#[trigger] win[j], cur),
    ensures
        count_le(win, cur) == 0,
    decreases win.len(),
{
    if win.len() > 0 {
        assert forall|j: int| 0 <= j < win.drop_last().len() implies !le_bits(
            #[trigger] win.drop_last()[j],
            cur,
        ) by {
            assert(win.drop_last()[j] == win[j]);
        }
        lemma_count_le_none(win.drop_last(), cur);
        assert(win.last() == win[win.len() - 1]);
    }
}

/// When every window sample is finite, all of them are valid.
proof fn lemma_count_valid_all(win: Seq<u64>)
    requires
        forall|j: int| 0 <= j < win.len() ==> is_finite_bits(#[trigger] win[j]),
    ensures
        count_valid(win) == win.len(),
    decreases win.len(),
{
    if win.len() > 0 {
        assert forall|j: int| 0 <= j < win.drop_last().len() implies is_finite_bits(
            #[trigger] win.drop_last()[j],
        ) by {
            assert(win.drop_last()[j] == win[j]);
        }
        lemma_count_valid_all(win.drop_last());
        assert(win.last() == win[win.len() - 1]);
    }
}

/// How many samples of the window are finite and at most `cur` (ties count
/// themselves in).
pub open spec fn count_le(win: Seq<u64>, cur: u64) -> nat
    decreases win.len(),
{
    if win.len() == 0 {
        0
    } else {
        count_le(win.drop_last(), cur) + if is_finite_bits(win.last()) && le_bits(
            win.last(),
            cur,
        ) {
            1nat
        } else {
            0nat
        }
    }
}

/// How many samples of the window are finite.
pub open spec fn count_valid(win: Seq<u64>) -> nat
    decreases win.len(),
{
    if win.len() == 0 {
        0
    } else {
        count_valid(win.drop_last()) + if is_finite_bits(win.last()) {
            1nat
        } else {
            0nat
        }
    }
}

/// The rank emitted at position `i` for window `w`: the sentinel inside the
/// warm-up, for a window without finite samples, and for a non-finite
/// current sample; otherwise the share of finite window samples that are at
/// most the current one, in the closed interval [0, 1].
pub open spec fn rank_at(s: Seq<u64>, w: int, i: int) -> u64 {
    if i < w - 1 {
        NAN_BITS
    } else {
        let win = s.subrange(i - w + 1, i + 1);
        if count_valid(win) == 0 {
            NAN_BITS
        } else if !is_finite_bits(s[i]) {
            NAN_BITS
        } else {
            div_bits(
                of_count_bits(count_le(win, s[i]) as u64),
                of_count_bits(count_valid(win) as u64),
            )
        }
    }
}

/// The whole output series of the rolling rank.
pub open spec fn rank_out(s: Seq<u64>, w: int) -> Seq<u64> {
    Seq::new(s.len(), |i: int| rank_at(s, w, i))
}

/// Rolling rank of each sample of a series of double bit patterns within
/// its trailing window of `window` samples.
pub fn rolling_rank(data: &Vec<u64>, window: usize) -> (r: Result<Vec<u64>, ExprError>)
    ensures
        r is Ok <==> window >= 2,
        r is Ok ==> r->Ok_0@ == rank_out(data@, window as int),
        r is Ok ==> r->Ok_0@.len() == data@.len(),
        r is Ok ==> forall|i: int|
            0 <= i < data@.len() && i + 1 < window ==> r->Ok_0@[i] == NAN_BITS,
        r is Ok ==> forall|i: int|
            window - 1 <= i < data@.len() && window_all_finite(data@, window as int, i)
                && window_increasing(data@, window as int, i) ==> r->Ok_0@[i] == ONE_BITS,
        r is Ok ==> forall|i: int|
            window - 1 <= i < data@.len() && window_all_finite(data@, window as int, i)
                && window_decreasing(data@, window as int, i) ==> r->Ok_0@[i] == div_bits(
                of_count_bits(1),
                of_count_bits(window as u64),
            ),
        r is Err ==> r->Err_0 is InvalidPeriod,
{
    if window < 2 {
        return Err(ExprError::InvalidPeriod("Window size must be at least 2".to_owned()));
    }
    let n = data.len();
    let mut out: Vec<u64> = Vec::new();
    let mut i: usize = 0;
    while i < n
        invariant
            2 <= window,
            n == data@.len(),
            i <= n,
            out@.len() == i,
            forall|k: int| 0 <= k < i ==> out@[k] == rank_at(data@, window as int, k),
            forall|k: int|
                window - 1 <= k < i && window_all_finite(data@, window as int, k)
                    && window_increasing(data@, window as int, k) ==> out@[k] == ONE_BITS,
            forall|k: int|
                window - 1 <= k < i && window_all_finite(data@, window as int, k)
                    && window_decreasing(data@, window as int, k) ==> out@[k] == div_bits(
                    of_count_bits(1),
                    of_count_bits(window as u64),
                ),
        decreases n - i,
    {
        let out_i: u64;
        if i < window - 1 {
            out_i = NAN_BITS;
        } else {
            let start = i + 1 - window;
            let cur = data[i];
            let mut c: usize = 0;
            let mut v: usize = 0;
            let mut k = start;
            while k < i + 1
                invariant
                    start <= k <= i + 1,
                    i < n == data@.len(),
                    start == i + 1 - window,
                    c <= v,
                    v <= k - start,
                    c == count_le(data@.subrange(start as int, k as int), cur),
                    v == count_valid(data@.subrange(start as int, k as int)),
                    cur == data@[i as int],
                decreases i + 1 - k,
            {
                let x = data[k];
                proof {
                    assert(data@.subrange(start as int, k + 1).drop_last() =~= data@.subrange(
                        start as int,
                        k as int,
                    ));
                    assert(data@.subrange(start as int, k + 1).last() == data@[k as int]);
                }
                if finite_bits(x) {
                    v = v + 1;
                    if le_bits_exec(x, cur) {
                        c = c + 1;
                    }
                }
                k = k + 1;
            }
            if v == 0 {
                out_i = NAN_BITS;
            } else if !finite_bits(cur) {
                out_i = NAN_BITS;
            } else {
                out_i = f64_div(f64_of_count(c as u64), f64_of_count(v as u64));
            }
            proof {
                let s = data@;
                let w = window as int;
                let ii = i as int;
                if window_all_finite(s, w, ii) {
                    let win = s.subrange(ii - w + 1, ii + 1);
                    assert(is_finite_bits(s[ii]));
                    assert forall|j: int| 0 <= j < win.len() implies is_finite_bits(
                        #[trigger] win[j],
                    ) by {
                        assert(win[j] == s[ii - w + 1 + j]);
                    }
                    lemma_count_valid_all(win);
                    if window_increasing(s, w, ii) {
                        assert forall|j: int| 0 <= j < win.len() implies is_finite_bits(
                            #[trigger] win[j],
                        ) && le_bits(win[j], s[ii]) by {
                            assert(win[j] == s[ii - w + 1 + j]);
                            lemma_chain_le_up(s, w, ii, ii - w + 1 + j);
                        }
                        lemma_count_le_all(win, s[ii]);
                        assert(c == window);
                        assert(v == window);
                    }
                    if window_decreasing(s, w, ii) {
                        assert forall|j: int| 0 <= j < win.len() - 1 implies !le_bits(
                            #[trigger] win.drop_last()[j],
                            s[ii],
                        ) by {
                            assert(win.drop_last()[j] == win[j]);
                            assert(win[j] == s[ii - w + 1 + j]);
                            lemma_chain_lt_down(s, w, ii, ii - w + 1 + j);
                        }
                        lemma_count_le_none(win.drop_last(), s[ii]);
                        assert(win.last() == s[ii]);
                        lemma_finite_not_nan(s[ii]);
                        lemma_le_bits_refl(s[ii]);
                        assert(count_le(win, s[ii]) == 1);
                        assert(c == 1);
                        assert(v == window);
                    }
                }
            }
        }
        out.push(out_i);
        i += 1;
    }
    proof {
        assert(out@ =~= rank_out(data@, window as int));
    }
    Ok(out)
}

} // verus!
