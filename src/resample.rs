use vstd::prelude::*;

use crate::error::AudioError;
use crate::frames::{
    channel_of, deinterleave, deinterleaved, frame_count, interleave, interleaved, views,
};
use crate::ratio::{output_frames, Ratio};

verus! {

/// Whole part of the source position `i * num / den` of output frame `i`.
pub open spec fn source_index(i: nat, r: Ratio) -> nat {
    ((i * r.num) as nat) / (r.den as nat)
}

/// Fractional part of the source position of output frame `i`, in units of `1 / den`.
pub open spec fn source_frac(i: nat, r: Ratio) -> nat {
    ((i * r.num) as nat) % (r.den as nat)
}

/// `v` is a correct value for output frame `i` of channel `ch` resampled at `r`:
/// the blend of the two samples around the source position, or the last
/// sample when the position falls on it.
pub open spec fn sample_matches<T, F: Fn(T, T, u64, u64) -> T>(
    ch: Seq<T>,
    r: Ratio,
    blend: F,
    i: nat,
    v: T,
) -> bool {
    let idx = source_index(i, r);
    if idx + 1 < ch.len() {
        call_ensures(blend, (ch[idx as int], ch[(idx + 1) as int], source_frac(i, r) as u64, r.den), v)
    } else if idx < ch.len() {
        v == ch[idx as int]
    } else {
        false
    }
}

/// `out` is the channel `ch` resampled at `r`: it has `floor(len / r)` frames,
/// each a correct value for its source position.
pub open spec fn resampled_from<T, F: Fn(T, T, u64, u64) -> T>(
    ch: Seq<T>,
    r: Ratio,
    blend: F,
    out: Seq<T>,
) -> bool {
    &&& out.len() == output_frames(ch.len(), r)
    &&& forall|i: nat| i < out.len() ==> #[trigger] sample_matches(ch, r, blend, i, out[i as int])
}

/// Every output frame of `n` input frames at `r` reads from inside the input:
/// the source position never runs past the last frame.
pub proof fn lemma_source_in_range(n: nat, r: Ratio, i: nat)
    requires
        r.valid(),
        i < output_frames(n, r),
    ensures
        i * r.num < n * r.den,
        source_index(i, r) < n,
        source_frac(i, r) < r.den,
{
    let x = (n * r.den) as nat;
    let q = output_frames(n, r);
    let num = r.num as nat;
    let den = r.den as nat;
    assert(q * num <= x) by (nonlinear_arith)
        requires q == x / num, num > 0;
    assert(i * num < x) by (nonlinear_arith)
        requires i < q, q * num <= x, num > 0;
    let p = (i * num) as nat;
    assert(p / den < n) by (nonlinear_arith)
        requires p < n * den, den > 0, x == n * den, p == i * num;
    assert(p % den < den) by (nonlinear_arith)
        requires den > 0;
}

/// Resamples one channel at `ratio` by linear interpolation.
///
/// Output frame `i` reads the source position `i * ratio`; `blend(a, b, f, d)`
/// is asked for the value a fraction `f / d` of the way from `a` to `b`.
pub fn resample_channel<T: Copy, F: Fn(T, T, u64, u64) -> T>(
    channel: &Vec<T>,
    ratio: Ratio,
    blend: &F,
) -> (r: Vec<T>)
    requires
        ratio.valid(),
        output_frames(channel.len() as nat, ratio) <= usize::MAX,
        forall|a: T, b: T, f: u64, d: u64| f < d ==> #[trigger] blend.requires((a, b, f, d)),
    ensures
        resampled_from(channel@, ratio, *blend, r@),
{
    let n = channel.len();
    let m = ratio.frames_after(n) as usize;
    let mut out: Vec<T> = Vec::new();
    let mut i: usize = 0;
    while i < m
        invariant
            ratio.valid(),
            n == channel.len(),
            m == output_frames(n as nat, ratio),
            i <= m,
            out.len() == i,
            forall|a: T, b: T, f: u64, d: u64| f < d ==> #[trigger] blend.requires((a, b, f, d)),
            forall|j: nat|
                j < i ==> #[trigger] sample_matches(channel@, ratio, *blend, j, out@[j as int]),
        decreases m - i,
    {
        proof {
            lemma_source_in_range(n as nat, ratio, i as nat);
            assert((n as nat) * (ratio.den as nat) <= u64::MAX * u64::MAX) by (nonlinear_arith)
                requires n <= u64::MAX, ratio.den <= u64::MAX;
        }
        let pos: u128 = (i as u128) * (ratio.num as u128);
        let idx = (pos / (ratio.den as u128)) as usize;
        let frac = (pos % (ratio.den as u128)) as u64;
        let v = if idx + 1 < n {
            blend(channel[idx], channel[idx + 1], frac, ratio.den)
        } else {
            channel[idx]
        };
        out.push(v);
        i += 1;
    }
    out
}

/// Resamples an interleaved buffer of `channels` channels at `ratio`.
///
/// Each channel is resampled on its own and the results are interleaved
/// again. The factor one returns the input as it is.
pub fn resample_interleaved<T: Copy, F: Fn(T, T, u64, u64) -> T>(
    samples: &Vec<T>,
    channels: usize,
    ratio: Ratio,
    blend: &F,
) -> (r: Result<Vec<T>, AudioError>)
    requires
        channels > 0 && ratio.valid() ==> output_frames((samples.len() / channels) as nat, ratio)
            * channels <= usize::MAX,
        forall|a: T, b: T, f: u64, d: u64| f < d ==> #[trigger] blend.requires((a, b, f, d)),
    ensures
        channels == 0 || samples.len() % channels != 0 <==> r == Err::<Vec<T>, AudioError>(
            AudioError::MalformedAudio,
        ),
        channels > 0 && samples.len() % channels == 0 && !ratio.valid() <==> r == Err::<
            Vec<T>,
            AudioError,
        >(AudioError::InvalidRatio),
        r is Ok <==> channels > 0 && samples.len() % channels == 0 && ratio.valid(),
        r is Ok ==> r->Ok_0.len() == output_frames((samples.len() / channels) as nat, ratio)
            * channels,
        r is Ok && ratio.is_unit() ==> r->Ok_0@ == samples@,
        samples.len() == 0 && channels > 0 && ratio.valid() ==> r is Ok && r->Ok_0.len() == 0,
        r is Ok && !ratio.is_unit() ==> forall|c: nat|
            c < channels ==> #[trigger] resampled_from(
                channel_of(samples@, channels as nat, c),
                ratio,
                *blend,
                channel_of(r->Ok_0@, channels as nat, c),
            ),
{
    proof {
        if samples.len() == 0 && channels > 0 {
            vstd::arithmetic::div_mod::lemma_small_mod(0, channels as nat);
        }
        if samples.len() == 0 && ratio.valid() {
            assert(0nat * ratio.den == 0);
            vstd::arithmetic::div_mod::lemma_div_of0(ratio.num as int);
            assert(output_frames(0, ratio) == 0);
        }
    }
    let frames = match frame_count(samples.len(), channels) {
        Ok(f) => f,
        Err(_) => {
            return Err(AudioError::MalformedAudio);
        },
    };
    if !ratio.is_valid() {
        return Err(AudioError::InvalidRatio);
    }
    if ratio.is_identity() {
        proof {
            assert((frames as nat * ratio.den) as nat / (ratio.num as nat) == frames) by (nonlinear_arith)
                requires ratio.num == ratio.den, ratio.num > 0;
        }
        let mut same: Vec<T> = Vec::new();
        let mut k: usize = 0;
        while k < samples.len()
            invariant
                k <= samples.len(),
                same@ == samples@.subrange(0, k as int),
            decreases samples.len() - k,
        {
            same.push(samples[k]);
            proof {
                assert(samples@.subrange(0, k + 1) =~= samples@.subrange(0, k as int).push(samples@[k as int]));
            }
            k += 1;
        }
        assert(samples@.subrange(0, samples.len() as int) =~= samples@);
        return Ok(same);
    }
    let m128 = ratio.frames_after(frames);
    proof {
        assert(m128 <= usize::MAX) by (nonlinear_arith)
            requires m128 * channels <= usize::MAX, channels > 0;
    }
    let m = m128 as usize;
    let chans = deinterleave(samples, channels);
    assert(views(chans@).len() == chans@.len());
    let mut outs: Vec<Vec<T>> = Vec::new();
    let mut c: usize = 0;
    while c < channels
        invariant
            c <= channels,
            channels == chans.len(),
            ratio.valid(),
            frames == samples.len() / channels,
            m == output_frames(frames as nat, ratio),
            m * channels <= usize::MAX,
            views(chans@) == deinterleaved(samples@, channels as nat),
            forall|a: T, b: T, f: u64, d: u64| f < d ==> #[trigger] blend.requires((a, b, f, d)),
            outs.len() == c,
            forall|j: int| 0 <= j < c ==> #[trigger] outs@[j].len() == m,
            forall|j: int|
                0 <= j < c ==> #[trigger] resampled_from(
                    channel_of(samples@, channels as nat, j as nat),
                    ratio,
                    *blend,
                    outs@[j]@,
                ),
        decreases channels - c,
    {
        assert(views(chans@)[c as int] == chans@[c as int]@);
        assert(chans@[c as int]@ == channel_of(samples@, channels as nat, c as nat));
        assert(m <= usize::MAX) by (nonlinear_arith)
            requires m * channels <= usize::MAX, channels > 0;
        let o = resample_channel(&chans[c], ratio, blend);
        outs.push(o);
        c += 1;
    }
    let r = interleave(&outs, m);
    proof {
        assert((m * channels) as nat / (channels as nat) == m) by (nonlinear_arith)
            requires channels > 0;
        assert(views(outs@).len() == channels);
        assert(r@.len() == m * channels);
        assert forall|c: nat| c < channels implies #[trigger] resampled_from(
            channel_of(samples@, channels as nat, c),
            ratio,
            *blend,
            channel_of(r@, channels as nat, c),
        ) by {
            let ci = c as int;
            assert(views(outs@)[ci] == outs@[ci]@);
            assert(outs@[ci].len() == m);
            assert forall|i: int| 0 <= i < m implies channel_of(r@, channels as nat, c)[i]
                == outs@[ci]@[i] by {
                crate::frames::lemma_frame_bound(i, ci, m as int, channels as int);
            }
            assert(channel_of(r@, channels as nat, c) =~= outs@[ci]@);
            assert(resampled_from(
                channel_of(samples@, channels as nat, ci as nat),
                ratio,
                *blend,
                outs@[ci]@,
            ));
        }
    }
    Ok(r)
}

} // verus!
