//! Differential QPSK: each symbol advances the phase by a quarter turn
//! times its value, rather than selecting an absolute phase.
//!
//! The accumulator is an exact count of quarter turns modulo four, so
//! repeated updates cannot drift.

use vstd::prelude::*;

verus! {

use crate::angle::{Angle, Ratio};
use crate::digital::phasor::{DigitalPhasor, IqPoint};
use crate::digital::util::{bytes_to_bits, lemma_symbol_value_bound, symbol_value};

/// Emits `e^(2πi * quarter / 4)`; `update` adds the two-bit symbol value
/// to the quarter-turn counter modulo 4.
pub struct DQPSK {
    /// Current phase in quarter turns, below 4.
    pub quarter: u8,
}

impl DQPSK {
    pub fn new(phase_quarters: u8) -> (p: DQPSK)
        requires
            phase_quarters < 4,
        ensures
            p.wf(),
            p.quarter == phase_quarters,
    {
        DQPSK { quarter: phase_quarters }
    }
}

impl DigitalPhasor for DQPSK {
    open spec fn wf(&self) -> bool {
        self.quarter < 4
    }

    open spec fn spec_bits_per_symbol(&self) -> nat {
        2
    }

    open spec fn spec_point(&self, s: u64, b: Seq<u8>) -> IqPoint {
        IqPoint {
            x: 1,
            y: 0,
            angle: Angle { num: self.quarter as u64, den: 4 },
            scale: Ratio { num: 1, den: 1 },
        }
    }

    open spec fn spec_update(&self, s: u64, b: Seq<u8>) -> Self {
        DQPSK { quarter: ((self.quarter + symbol_value(b)) % 4) as u8 }
    }

    fn bits_per_symbol(&self) -> usize {
        2
    }

    fn update(&mut self, s: u64, b: &[u8]) {
        let v = bytes_to_bits(b);
        proof {
            lemma_symbol_value_bound(b@);
            vstd::arithmetic::power2::lemma2_to64();
        }
        self.quarter = (self.quarter + v) % 4;
    }

    fn point(&self, s: u64, b: &[u8]) -> (p: IqPoint) {
        IqPoint {
            x: 1,
            y: 0,
            angle: Angle { num: self.quarter as u64, den: 4 },
            scale: Ratio { num: 1, den: 1 },
        }
    }
}

/// The point does not depend on the sample index.
pub proof fn lemma_dqpsk_time_invariant(p: DQPSK, s1: u64, s2: u64, b: Seq<u8>)
    ensures
        p.spec_point(s1, b) == p.spec_point(s2, b),
{
}

/// The point always lies on the unit circle: `I² + Q² == A²`.
pub proof fn lemma_dqpsk_envelope(p: DQPSK, s: u64, b: Seq<u8>)
    ensures
        p.spec_point(s, b).norm2() == 1,
{
}

} // verus!
