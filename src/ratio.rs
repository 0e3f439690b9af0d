use vstd::prelude::*;

use crate::error::AudioError;

verus! {

/// A positive rational resampling factor `num / den`.
///
/// A factor above one plays faster (and higher), below one slower (and lower).
#[derive(Clone, Copy, Debug, PartialEq, Eq, Structural)]
pub struct Ratio {
    pub num: u64,
    pub den: u64,
}

/// Number of frames that `n` input frames become at `r`: `floor(n / (num / den))`.
pub open spec fn output_frames(n: nat, r: Ratio) -> nat {
    ((n * r.den) as nat) / (r.num as nat)
}

impl Ratio {
    /// Both parts are non-zero, so the factor is a positive finite number.
    pub open spec fn valid(self) -> bool {
        self.num > 0 && self.den > 0
    }

    /// The factor one, which leaves the audio unchanged.
    pub open spec fn is_unit(self) -> bool {
        self.num == self.den
    }

    /// Product of two factors.
    pub open spec fn times(self, o: Ratio) -> Ratio {
        Ratio { num: (self.num * o.num) as u64, den: (self.den * o.den) as u64 }
    }

    /// Builds the factor `num / den`; a zero part gives `InvalidRatio`.
    pub fn new(num: u64, den: u64) -> (r: Result<Ratio, AudioError>)
        ensures
            num == 0 || den == 0 <==> r == Err::<Ratio, AudioError>(AudioError::InvalidRatio),
            r is Ok <==> num > 0 && den > 0,
            r is Ok ==> r->Ok_0 == (Ratio { num, den }),
    {
        if num == 0 || den == 0 {
            Err(AudioError::InvalidRatio)
        } else {
            Ok(Ratio { num, den })
        }
    }

    /// The factor one.
    pub fn unit() -> (r: Ratio)
        ensures
            r.valid(),
            r.is_unit(),
    {
        Ratio { num: 1, den: 1 }
    }

    pub fn is_valid(&self) -> (r: bool)
        ensures
            r == self.valid(),
    {
        self.num > 0 && self.den > 0
    }

    pub fn is_identity(&self) -> (r: bool)
        ensures
            r == self.is_unit(),
    {
        self.num == self.den
    }

    /// The combined factor `tempo * pitch` that one resampling pass applies.
    pub fn combined(tempo: Ratio, pitch: Ratio) -> (r: Result<Ratio, AudioError>)
        requires
            tempo.num * pitch.num <= u64::MAX,
            tempo.den * pitch.den <= u64::MAX,
        ensures
            !tempo.valid() || !pitch.valid() <==> r == Err::<Ratio, AudioError>(
                AudioError::InvalidRatio,
            ),
            r is Ok <==> tempo.valid() && pitch.valid(),
            r is Ok ==> r->Ok_0 == tempo.times(pitch) && r->Ok_0.valid(),
    {
        if !tempo.is_valid() || !pitch.is_valid() {
            return Err(AudioError::InvalidRatio);
        }
        proof {
            assert(tempo.num * pitch.num > 0) by (nonlinear_arith)
                requires tempo.num > 0, pitch.num > 0;
            assert(tempo.den * pitch.den > 0) by (nonlinear_arith)
                requires tempo.den > 0, pitch.den > 0;
        }
        Ok(Ratio { num: tempo.num * pitch.num, den: tempo.den * pitch.den })
    }

    /// Frame count after resampling `n` frames: `floor(n * den / num)`.
    pub fn frames_after(&self, n: usize) -> (r: u128)
        requires
            self.valid(),
        ensures
            r == output_frames(n as nat, *self),
    {
        proof {
            assert((n as nat) * (self.den as nat) <= u64::MAX * u64::MAX) by (nonlinear_arith)
                requires n <= u64::MAX, self.den <= u64::MAX;
        }
        (n as u128) * (self.den as u128) / (self.num as u128)
    }
}

proof fn lemma_div_monotone(a: nat, b: nat, c: nat, d: nat)
    requires
        b > 0,
        d > 0,
        a * d <= c * b,
    ensures
        a / b <= c / d,
{
    let q = a / b;
    assert(q * b <= a) by (nonlinear_arith)
        requires q == a / b, b > 0;
    assert(q * b * d <= a * d) by (nonlinear_arith)
        requires q * b <= a, d > 0;
    assert(q * d <= c) by (nonlinear_arith)
        requires q * b * d <= c * b, b > 0;
    assert(q <= c / d) by (nonlinear_arith)
        requires q * d <= c, d > 0;
}

/// With the pitch held, a faster tempo never gives more output frames:
/// if `t1 <= t2` then `n` frames at `t2 * p` come out no longer than at `t1 * p`.
pub proof fn lemma_faster_tempo_is_shorter(n: nat, t1: Ratio, t2: Ratio, p: Ratio)
    requires
        t1.valid(),
        t2.valid(),
        p.valid(),
        t1.num * p.num <= u64::MAX,
        t1.den * p.den <= u64::MAX,
        t2.num * p.num <= u64::MAX,
        t2.den * p.den <= u64::MAX,
        t1.num * t2.den <= t2.num * t1.den,
    ensures
        output_frames(n, t2.times(p)) <= output_frames(n, t1.times(p)),
{
    let a1 = t1.times(p);
    let a2 = t2.times(p);
    assert(a1.num == t1.num * p.num && a1.den == t1.den * p.den);
    assert(a2.num == t2.num * p.num && a2.den == t2.den * p.den);
    assert(a1.num > 0 && a2.num > 0) by (nonlinear_arith)
        requires
            a1.num == t1.num * p.num,
            a2.num == t2.num * p.num,
            t1.num > 0,
            t2.num > 0,
            p.num > 0;
    assert((n * a2.den) * (a1.num as nat) <= (n * a1.den) * (a2.num as nat)) by (nonlinear_arith)
        requires
            a1.num == t1.num * p.num,
            a1.den == t1.den * p.den,
            a2.num == t2.num * p.num,
            a2.den == t2.den * p.den,
            t1.num * t2.den <= t2.num * t1.den,
    ;
    lemma_div_monotone((n * a2.den) as nat, a2.num as nat, (n * a1.den) as nat, a1.num as nat);
}

} // verus!
