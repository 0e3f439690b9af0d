use vstd::prelude::*;

use crate::error::AudioError;

verus! {

/// Channel `c` of the interleaved buffer `s` with `channels` channels.
pub open spec fn channel_of<T>(s: Seq<T>, channels: nat, c: nat) -> Seq<T> {
    Seq::new(s.len() / channels, |i: int| s[i * channels + c])
}

/// The buffer `s` split into one sequence per channel.
pub open spec fn deinterleaved<T>(s: Seq<T>, channels: nat) -> Seq<Seq<T>> {
    Seq::new(channels, |c: int| channel_of(s, channels, c as nat))
}

/// `frames` frames taken from each of `chans` in turn: frame-major, channel-minor.
pub open spec fn interleaved<T>(chans: Seq<Seq<T>>, frames: nat) -> Seq<T> {
    Seq::new(frames * chans.len(), |k: int| chans[k % chans.len() as int][k / chans.len() as int])
}

/// The contents of a list of buffers.
pub open spec fn views<T>(v: Seq<Vec<T>>) -> Seq<Seq<T>> {
    v.map_values(|b: Vec<T>| b@)
}

proof fn lemma_frame_position(k: int, channels: int)
    requires
        0 <= k,
        0 < channels,
    ensures
        (k / channels) * channels + k % channels == k,
        0 <= k % channels < channels,
        0 <= k / channels,
{
    vstd::arithmetic::div_mod::lemma_fundamental_div_mod(k, channels);
    vstd::arithmetic::div_mod::lemma_mod_pos_bound(k, channels);
    vstd::arithmetic::mul::lemma_mul_is_commutative(k / channels, channels);
    vstd::arithmetic::div_mod::lemma_div_pos_is_pos(k, channels);
}

pub(crate) proof fn lemma_frame_bound(i: int, c: int, frames: int, channels: int)
    requires
        0 <= i < frames,
        0 <= c < channels,
    ensures
        0 <= i * channels + c < frames * channels,
        (i * channels + c) / channels == i,
        (i * channels + c) % channels == c,
{
    assert(i * channels + c < frames * channels) by (nonlinear_arith)
        requires i < frames, c < channels, 0 <= c, 0 <= i;
    assert(0 <= i * channels) by (nonlinear_arith)
        requires 0 <= i, 0 <= channels;
    vstd::arithmetic::div_mod::lemma_fundamental_div_mod_converse(i * channels + c, channels, i, c);
}

/// Splitting a well-formed buffer into channels and weaving them back
/// together gives the buffer back.
pub proof fn lemma_interleave_round_trip<T>(s: Seq<T>, channels: nat)
    requires
        channels > 0,
        s.len() % channels == 0,
    ensures
        interleaved(deinterleaved(s, channels), s.len() / channels) == s,
{
    let d = deinterleaved(s, channels);
    let f = s.len() / channels;
    vstd::arithmetic::div_mod::lemma_fundamental_div_mod(s.len() as int, channels as int);
    vstd::arithmetic::mul::lemma_mul_is_commutative(f as int, channels as int);
    assert(f * channels == s.len());
    let r = interleaved(d, f);
    assert forall|k: int| 0 <= k < s.len() implies r[k] == s[k] by {
        lemma_frame_position(k, channels as int);
        let i = k / channels as int;
        assert(i < f) by (nonlinear_arith)
            requires i * channels <= k, k < f * channels, channels > 0;
    }
    assert(r =~= s);
}

/// Weaving channels of equal length together and splitting the result at the
/// same channel count gives the channels back.
pub proof fn lemma_deinterleave_interleave<T>(chans: Seq<Seq<T>>, frames: nat)
    requires
        chans.len() > 0,
        forall|c: int| 0 <= c < chans.len() ==> #[trigger] chans[c].len() == frames,
    ensures
        deinterleaved(interleaved(chans, frames), chans.len()) == chans,
{
    let n = chans.len();
    let s = interleaved(chans, frames);
    assert((frames * n) / n == frames) by (nonlinear_arith)
        requires n > 0;
    assert forall|c: int| 0 <= c < n implies #[trigger] channel_of(s, n, c as nat) == chans[c] by {
        assert forall|i: int| 0 <= i < frames implies channel_of(s, n, c as nat)[i] == chans[c][i] by {
            lemma_frame_bound(i, c, frames as int, n as int);
        }
        assert(channel_of(s, n, c as nat) =~= chans[c]);
    }
    assert(deinterleaved(s, n) =~= chans);
}

/// Number of whole frames in `len` interleaved samples of `channels` channels.
pub fn frame_count(len: usize, channels: usize) -> (r: Result<usize, AudioError>)
    ensures
        channels == 0 || len % channels != 0 <==> r == Err::<usize, AudioError>(
            AudioError::MalformedAudio,
        ),
        r is Ok <==> channels > 0 && len % channels == 0,
        r is Ok ==> r->Ok_0 == len / channels && r->Ok_0 * channels == len,
{
    if channels == 0 || len % channels != 0 {
        Err(AudioError::MalformedAudio)
    } else {
        proof {
            vstd::arithmetic::div_mod::lemma_fundamental_div_mod(len as int, channels as int);
            vstd::arithmetic::mul::lemma_mul_is_commutative(len as int / channels as int, channels as int);
        }
        Ok(len / channels)
    }
}

/// Splits an interleaved buffer into one buffer per channel.
pub fn deinterleave<T: Copy>(samples: &Vec<T>, channels: usize) -> (r: Vec<Vec<T>>)
    requires
        channels > 0,
        samples.len() % channels == 0,
    ensures
        views(r@) == deinterleaved(samples@, channels as nat),
{
    let frames = samples.len() / channels;
    proof {
        vstd::arithmetic::div_mod::lemma_fundamental_div_mod(samples.len() as int, channels as int);
        vstd::arithmetic::mul::lemma_mul_is_commutative(frames as int, channels as int);
    }
    let mut out: Vec<Vec<T>> = Vec::new();
    let mut c: usize = 0;
    while c < channels
        invariant
            c <= channels,
            frames == samples.len() / channels,
            frames * channels == samples.len(),
            out.len() == c,
            forall|j: int| 0 <= j < c ==> #[trigger] out@[j]@ == channel_of(samples@, channels as nat, j as nat),
        decreases channels - c,
    {
        let mut ch: Vec<T> = Vec::new();
        let mut i: usize = 0;
        while i < frames
            invariant
                i <= frames,
                c < channels,
                frames == samples.len() / channels,
                frames * channels == samples.len(),
                ch.len() == i,
                forall|j: int| 0 <= j < i ==> #[trigger] ch@[j] == samples@[j * channels + c],
            decreases frames - i,
        {
            proof {
                lemma_frame_bound(i as int, c as int, frames as int, channels as int);
            }
            ch.push(samples[i * channels + c]);
            i += 1;
        }
        assert(ch@ =~= channel_of(samples@, channels as nat, c as nat));
        out.push(ch);
        c += 1;
    }
    assert(views(out@) =~= deinterleaved(samples@, channels as nat));
    out
}

/// Weaves buffers of equal length into one interleaved buffer.
pub fn interleave<T: Copy>(chans: &Vec<Vec<T>>, frames: usize) -> (r: Vec<T>)
    requires
        chans.len() > 0,
        forall|c: int| 0 <= c < chans.len() ==> #[trigger] chans@[c].len() == frames,
        frames * chans.len() <= usize::MAX,
    ensures
        r@ == interleaved(views(chans@), frames as nat),
{
    let channels = chans.len();
    let mut out: Vec<T> = Vec::new();
    let mut i: usize = 0;
    while i < frames
        invariant
            i <= frames,
            channels == chans.len(),
            channels > 0,
            frames * channels <= usize::MAX,
            forall|c: int| 0 <= c < chans.len() ==> #[trigger] chans@[c].len() == frames,
            out.len() == i * channels,
            forall|k: int| 0 <= k < out.len() ==> #[trigger] out@[k] == chans@[k % channels as int]@[k / channels as int],
        decreases frames - i,
    {
        let mut c: usize = 0;
        while c < channels
            invariant
                i < frames,
                c <= channels,
                channels == chans.len(),
                channels > 0,
                frames * channels <= usize::MAX,
                forall|c: int| 0 <= c < chans.len() ==> #[trigger] chans@[c].len() == frames,
                out.len() == i * channels + c,
                forall|k: int| 0 <= k < out.len() ==> #[trigger] out@[k] == chans@[k % channels as int]@[k / channels as int],
            decreases channels - c,
        {
            proof {
                lemma_frame_bound(i as int, c as int, frames as int, channels as int);
                assert(chans@[c as int].len() == frames);
            }
            out.push(chans[c][i]);
            c += 1;
        }
        assert((i + 1) * channels == i * channels + channels) by (nonlinear_arith);
        i += 1;
    }
    assert(out@ =~= interleaved(views(chans@), frames as nat));
    out
}

} // verus!
