//! The sample-indexed carrier oscillator.

use vstd::prelude::*;

verus! {

use crate::angle::{mul_mod, Angle};
use crate::freq::Freq;

/// A carrier at `hz` cycles per second, `sr` samples per second, that has
/// produced `sample` samples so far.  Its phase at sample `n` is
/// `(hz * n) / sr` turns, which `next` returns reduced into `[0, 1)`:
/// the reduction is applied before any trigonometric evaluation, so the
/// argument stays bounded no matter how large `n` grows.
#[derive(Clone, Copy, Debug, PartialEq, Eq, Structural)]
pub struct Carrier {
    hz: u64,
    sr: u64,
    /// Index of the next sample to be produced.
    sample: u64,
}

impl Carrier {
    pub open spec fn wf(&self) -> bool {
        self.spec_sr() >= 1
    }

    pub closed spec fn spec_hz(&self) -> u64 {
        self.hz
    }

    pub closed spec fn spec_sr(&self) -> u64 {
        self.sr
    }

    /// Index of the next sample to be produced, observable so that a
    /// phasor can be driven with the same index.
    pub closed spec fn spec_sample(&self) -> u64 {
        self.sample
    }

    pub fn sample(&self) -> (n: u64)
        ensures
            n == self.spec_sample(),
    {
        self.sample
    }

    /// The reduced phase at sample `n`: `(hz * n) % sr` over `sr` turns.
    pub open spec fn phase_at(&self, n: u64) -> int {
        (self.spec_hz() as int * n as int) % (self.spec_sr() as int)
    }

    pub fn new(freq: Freq) -> (c: Carrier)
        requires
            freq.wf(),
        ensures
            c.wf(),
            c.spec_hz() == freq.spec_hz(),
            c.spec_sr() == freq.spec_sr(),
            c.spec_sample() == 0,
    {
        Carrier { hz: freq.hz(), sr: freq.sr(), sample: 0 }
    }

    /// The reduced phase for the current sample; advances the sample
    /// counter.  After `k` calls on a fresh carrier, the `k`-th call has
    /// returned `(hz * (k - 1)) % sr` over `sr` turns, i.e. the carrier
    /// phase `2π * hz * (k - 1) / sr` reduced modulo 2π.
    pub fn next(&mut self) -> (a: Angle)
        requires
            old(self).wf(),
            old(self).spec_sample() < u64::MAX,
        ensures
            final(self).wf(),
            final(self).spec_hz() == old(self).spec_hz(),
            final(self).spec_sr() == old(self).spec_sr(),
            final(self).spec_sample() == old(self).spec_sample() + 1,
            a.wf(),
            a.den == old(self).spec_sr(),
            a.num as int == old(self).phase_at(old(self).spec_sample()),
    {
        let n = self.sample;
        self.sample = self.sample + 1;
        let num = mul_mod(self.hz, n, self.sr);
        Angle { num, den: self.sr }
    }
}

} // verus!
