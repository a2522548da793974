//! Channel down-mixing: interleaved multi-channel capture frames are folded
//! to one mono analysis sample per frame (the mean of the frame's channels,
//! rounded toward zero), so the segmenter always analyzes at the rate given
//! by the actual channel count instead of a hard-coded divisor.

use vstd::prelude::*;

verus! {

/// Integer division rounded toward zero, as the hardware divides.
pub open spec fn div_toward_zero(a: int, b: int) -> int {
    if a >= 0 {
        a / b
    } else {
        -((-a) / b)
    }
}

/// Sum of the samples in `s[lo..hi]`.
pub open spec fn range_sum(s: Seq<i32>, lo: int, hi: int) -> int
    decreases hi - lo,
{
    if lo >= hi {
        0
    } else {
        range_sum(s, lo, hi - 1) + s[hi - 1]
    }
}

/// The mono sample for frame `i` of an interleaved signal: the mean of the
/// frame's channels, rounded toward zero.
pub open spec fn mono_sample(s: Seq<i32>, channels: int, i: int) -> int {
    div_toward_zero(range_sum(s, i * channels, i * channels + channels), channels)
}

/// The down-mixed signal: one mono sample per complete frame; a trailing
/// partial frame is dropped.
pub open spec fn downmixed(s: Seq<i32>, channels: int) -> Seq<i32> {
    Seq::new(
        (s.len() as int / channels) as nat,
        |i: int| mono_sample(s, channels, i) as i32,
    )
}

/// A sum of `hi - lo` samples stays within `count` times the sample bounds.
proof fn lemma_range_sum_bounds(s: Seq<i32>, lo: int, hi: int)
    requires
        0 <= lo <= hi <= s.len(),
    ensures
        (hi - lo) * (i32::MIN as int) <= range_sum(s, lo, hi) <= (hi - lo) * (i32::MAX as int),
    decreases hi - lo,
{
    if lo >= hi {
    } else {
        lemma_range_sum_bounds(s, lo, hi - 1);
        assert((hi - lo) * (i32::MIN as int) == (hi - 1 - lo) * (i32::MIN as int) + (
        i32::MIN as int)) by (nonlinear_arith);
        assert((hi - lo) * (i32::MAX as int) == (hi - 1 - lo) * (i32::MAX as int) + (
        i32::MAX as int)) by (nonlinear_arith);
    }
}

/// The mean of samples lies within the sample bounds.
proof fn lemma_mean_in_range(sum: int, channels: int)
    requires
        channels >= 1,
        channels * (i32::MIN as int) <= sum <= channels * (i32::MAX as int),
    ensures
        i32::MIN as int <= div_toward_zero(sum, channels) <= i32::MAX as int,
{
    if sum >= 0 {
        assert(sum / channels <= i32::MAX as int) by (nonlinear_arith)
            requires
                channels >= 1,
                0 <= sum,
                sum <= channels * (i32::MAX as int),
        ;
        assert(sum / channels >= 0) by (nonlinear_arith)
            requires
                channels >= 1,
                sum >= 0,
        ;
    } else {
        assert((-sum) / channels <= -(i32::MIN as int)) by (nonlinear_arith)
            requires
                channels >= 1,
                0 < -sum,
                -sum <= channels * (-(i32::MIN as int)),
        ;
        assert((-sum) / channels >= 0) by (nonlinear_arith)
            requires
                channels >= 1,
                -sum > 0,
        ;
    }
}

/// Folds interleaved capture samples to mono: one sample per complete frame,
/// the mean of the frame's channels rounded toward zero. The analysis signal
/// this returns runs at `sample_rate / channels`.
pub fn downmix(samples: &Vec<i32>, channels: u16) -> (r: Vec<i32>)
    requires
        channels >= 1,
    ensures
        r@ == downmixed(samples@, channels as int),
        r@.len() == samples@.len() as int / channels as int,
{
    let ch: usize = channels as usize;
    let n: usize = samples.len();
    let frames: usize = n / ch;
    proof {
        assert((frames as int) * (ch as int) <= n as int) by (nonlinear_arith)
            requires
                ch >= 1,
                frames as int == n as int / ch as int,
        ;
    }
    let mut out: Vec<i32> = Vec::new();
    let mut i: usize = 0;
    while i < frames
        invariant
            ch == channels as usize,
            ch >= 1,
            frames as int == samples@.len() as int / ch as int,
            (frames as int) * (ch as int) <= samples@.len(),
            (frames as int) * (ch as int) <= usize::MAX as int,
            i <= frames,
            out@.len() == i as int,
            forall|k: int|
                0 <= k < i as int ==> out@[k] == mono_sample(samples@, channels as int, k) as i32,
        decreases frames - i,
    {
        proof {
            assert((i as int) * (ch as int) + ch as int == (i + 1) * (ch as int))
                by (nonlinear_arith);
            assert((i + 1) * (ch as int) <= (frames as int) * (ch as int)) by (nonlinear_arith)
                requires
                    i < frames,
                    ch >= 1,
            ;
        }
        let base: usize = i * ch;
        let mut acc: i64 = 0;
        let mut c: usize = 0;
        while c < ch
            invariant
                ch >= 1,
                ch <= 0xffff,
                c <= ch,
                base as int + ch as int <= samples@.len(),
                base as int + ch as int <= usize::MAX as int,
                acc == range_sum(samples@, base as int, base as int + c as int),
                (c as int) * (i32::MIN as int) <= acc as int <= (c as int) * (i32::MAX as int),
            decreases ch - c,
        {
            proof {
                assert((c + 1) * (i32::MIN as int) == (c as int) * (i32::MIN as int) + (
                i32::MIN as int)) by (nonlinear_arith);
                assert((c + 1) * (i32::MAX as int) == (c as int) * (i32::MAX as int) + (
                i32::MAX as int)) by (nonlinear_arith);
                assert((c as int) * (i32::MIN as int) >= (ch as int) * (i32::MIN as int))
                    by (nonlinear_arith)
                    requires
                        0 <= c as int,
                        c as int <= ch as int,
                ;
                assert((c + 1) * (i32::MAX as int) <= 0x10000 * (i32::MAX as int))
                    by (nonlinear_arith)
                    requires
                        0 <= c as int,
                        (c as int) < (ch as int),
                        ch as int <= 0xffff,
                ;
                assert((c + 1) * (i32::MIN as int) >= 0x10000 * (i32::MIN as int))
                    by (nonlinear_arith)
                    requires
                        0 <= c as int,
                        (c as int) < (ch as int),
                        ch as int <= 0xffff,
                ;
            }
            acc = acc + (samples[base + c] as i64);
            c = c + 1;
        }
        proof {
            lemma_range_sum_bounds(samples@, base as int, base as int + ch as int);
            lemma_mean_in_range(acc as int, ch as int);
        }
        let mean64: i64 = acc / (ch as i64);
        let mean: i32 = mean64 as i32;
        out.push(mean);
        i = i + 1;
    }
    proof {
        assert(out@ =~= downmixed(samples@, channels as int));
    }
    out
}

} // verus!
