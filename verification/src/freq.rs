//! A frequency in Hz paired with the sample rate it will be played at.

use vstd::prelude::*;

verus! {

/// A frequency of `hz` cycles per second sampled `sr` times per second.
/// Per sample it advances the phase by `hz / sr` of a full turn.
#[derive(Clone, Copy, Debug, PartialEq, Eq, Structural)]
pub struct Freq {
    hz: u64,
    sr: u64,
}

impl Freq {
    pub closed spec fn spec_hz(&self) -> u64 {
        self.hz
    }

    pub closed spec fn spec_sr(&self) -> u64 {
        self.sr
    }

    pub open spec fn wf(&self) -> bool {
        self.spec_sr() >= 1
    }

    pub fn new(hz: u64, sr: u64) -> (f: Freq)
        requires
            sr >= 1,
        ensures
            f.spec_hz() == hz,
            f.spec_sr() == sr,
            f.wf(),
    {
        Freq { hz, sr }
    }

    /// Cycles per second.
    pub fn hz(&self) -> (r: u64)
        ensures
            r == self.spec_hz(),
    {
        self.hz
    }

    /// Samples per second.
    pub fn sr(&self) -> (r: u64)
        ensures
            r == self.spec_sr(),
    {
        self.sr
    }
}

} // verus!
